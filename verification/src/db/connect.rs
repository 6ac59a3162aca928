//! Opening a connection to the database.

use crate::config::{DatabaseConfig, DatabaseConfigView};
use crate::db::protocol;
use crate::db::protocol::{Machine, Reply, ReplyView, Request, RequestView};
use crate::db::{DBError, DBErrorView, Database};
use vstd::prelude::*;

verus! {

/// How far the opening of a connection has come.
#[derive(Debug)]
pub enum ConnectingStage {
    Opening,
    SigningIn,
    Selecting,
    Finished(Result<(), DBError>),
}

pub enum ConnectingStageView {
    Opening,
    SigningIn,
    Selecting,
    Finished(Result<(), DBErrorView>),
}

/// The opening of a connection: it is opened and, if authorized access is wanted, signed in on and
/// pointed at the configured namespace and database.
#[derive(Debug)]
pub struct Connecting {
    pub config: DatabaseConfig,
    pub authorize: bool,
    pub stage: ConnectingStage,
}

pub struct ConnectingView {
    pub config: DatabaseConfigView,
    pub authorize: bool,
    pub stage: ConnectingStageView,
}

impl View for ConnectingStage {
    type V = ConnectingStageView;

    open spec fn view(&self) -> ConnectingStageView {
        match self {
            ConnectingStage::Opening => ConnectingStageView::Opening,
            ConnectingStage::SigningIn => ConnectingStageView::SigningIn,
            ConnectingStage::Selecting => ConnectingStageView::Selecting,
            ConnectingStage::Finished(r) => ConnectingStageView::Finished(
                crate::db::db_result(*r),
            ),
        }
    }
}

impl View for Connecting {
    type V = ConnectingView;

    open spec fn view(&self) -> ConnectingView {
        ConnectingView {
            config: self.config@,
            authorize: self.authorize,
            stage: self.stage@,
        }
    }
}

/// How a failure to open the connection reads.
pub open spec fn open_failed(config: DatabaseConfigView, error: Seq<char>) -> DBErrorView {
    DBErrorView::Database(
        "Failed to connect to SurrealDB URL '"@ + config.url + "': "@ + error,
    )
}

/// How a failure to sign in reads.
pub open spec fn sign_in_failed(error: Seq<char>) -> DBErrorView {
    DBErrorView::Database("Failed to sign in to SurrealDB: "@ + error)
}

/// How a failure to select the namespace and the database reads.
pub open spec fn select_failed(config: DatabaseConfigView, error: Seq<char>) -> DBErrorView {
    DBErrorView::Database(
        "Failed to select namespace '"@ + config.namespace + "' or database '"@ + config.database
            + "': "@ + error,
    )
}

impl ConnectingView {
    /// A connection that is not opened yet.
    pub open spec fn start(config: DatabaseConfigView, authorize: bool) -> ConnectingView {
        ConnectingView { config, authorize, stage: ConnectingStageView::Opening }
    }

    /// The outcome, once there is one.
    pub open spec fn outcome(self) -> Option<Result<(), DBErrorView>> {
        match self.stage {
            ConnectingStageView::Finished(r) => Some(r),
            _ => None,
        }
    }

    /// The stage behind the current one.
    pub open spec fn next(self, reply: Result<(), Seq<char>>) -> ConnectingStageView {
        match (self.stage, reply) {
            (ConnectingStageView::Opening, Ok(_)) => if self.authorize {
                ConnectingStageView::SigningIn
            } else {
                ConnectingStageView::Finished(Ok(()))
            },
            (ConnectingStageView::SigningIn, Ok(_)) => ConnectingStageView::Selecting,
            (ConnectingStageView::Selecting, Ok(_)) => ConnectingStageView::Finished(Ok(())),
            (ConnectingStageView::Opening, Err(error)) => ConnectingStageView::Finished(
                Err(open_failed(self.config, error)),
            ),
            (ConnectingStageView::SigningIn, Err(error)) => ConnectingStageView::Finished(
                Err(sign_in_failed(error)),
            ),
            (ConnectingStageView::Selecting, Err(error)) => ConnectingStageView::Finished(
                Err(select_failed(self.config, error)),
            ),
            (ConnectingStageView::Finished(r), _) => ConnectingStageView::Finished(r),
        }
    }
}

impl Machine for ConnectingView {
    open spec fn request(self) -> Option<RequestView> {
        match self.stage {
            ConnectingStageView::Opening => Some(RequestView::Connect { url: self.config.url }),
            ConnectingStageView::SigningIn => Some(
                RequestView::SignIn {
                    username: self.config.username,
                    password: self.config.password,
                },
            ),
            ConnectingStageView::Selecting => Some(
                RequestView::Select {
                    namespace: self.config.namespace,
                    database: self.config.database,
                },
            ),
            ConnectingStageView::Finished(_) => None,
        }
    }

    open spec fn resume(self, reply: ReplyView) -> ConnectingView {
        match reply {
            ReplyView::Done(r) => ConnectingView { stage: self.next(r), ..self },
            _ => self,
        }
    }
}

impl Connecting {
    /// What is to be done next; nothing once the outcome is known.
    pub fn request(&self) -> (r: Option<Request>)
        ensures
            protocol::optional_request(r) == self@.request(),
    {
        match &self.stage {
            ConnectingStage::Opening => Some(Request::Connect { url: self.config.url.clone() }),
            ConnectingStage::SigningIn => Some(
                Request::SignIn {
                    username: self.config.username.clone(),
                    password: self.config.password.clone(),
                },
            ),
            ConnectingStage::Selecting => Some(
                Request::Select {
                    namespace: self.config.namespace.clone(),
                    database: self.config.database.clone(),
                },
            ),
            ConnectingStage::Finished(_) => None,
        }
    }

    /// Takes the reply to the request. A reply that does not answer it changes nothing.
    pub fn resume(self, reply: Reply) -> (r: Connecting)
        ensures
            r@ == self@.resume(reply@),
    {
        let reply = match reply {
            Reply::Done(reply) => reply,
            _ => {
                return self;
            },
        };
        let stage = match (self.stage, reply) {
            (ConnectingStage::Opening, Ok(_)) => {
                if self.authorize {
                    ConnectingStage::SigningIn
                } else {
                    ConnectingStage::Finished(Ok(()))
                }
            },
            (ConnectingStage::SigningIn, Ok(_)) => ConnectingStage::Selecting,
            (ConnectingStage::Selecting, Ok(_)) => ConnectingStage::Finished(Ok(())),
            (ConnectingStage::Opening, Err(error)) => {
                let text = "Failed to connect to SurrealDB URL '".to_string().concat(
                    self.config.url.as_str(),
                ).concat("': ").concat(error.message.as_str());
                ConnectingStage::Finished(Err(DBError::Database(text)))
            },
            (ConnectingStage::SigningIn, Err(error)) => {
                let text = "Failed to sign in to SurrealDB: ".to_string().concat(
                    error.message.as_str(),
                );
                ConnectingStage::Finished(Err(DBError::Database(text)))
            },
            (ConnectingStage::Selecting, Err(error)) => {
                let text = "Failed to select namespace '".to_string().concat(
                    self.config.namespace.as_str(),
                ).concat("' or database '").concat(self.config.database.as_str()).concat(
                    "': ",
                ).concat(error.message.as_str());
                ConnectingStage::Finished(Err(DBError::Database(text)))
            },
            (ConnectingStage::Finished(r), _) => ConnectingStage::Finished(r),
        };
        Connecting { config: self.config, authorize: self.authorize, stage }
    }
}

impl Database {
    /// Opens a connection without signing in on it.
    pub fn new_unauthorized(config: &DatabaseConfig) -> (r: Connecting)
        ensures
            r@ == ConnectingView::start(config@, false),
    {
        Connecting { config: config.clone(), authorize: false, stage: ConnectingStage::Opening }
    }

    /// Opens a connection, signs in on it, and selects the configured namespace and database.
    pub fn connect(config: &DatabaseConfig) -> (r: Connecting)
        ensures
            r@ == ConnectingView::start(config@, true),
    {
        Connecting { config: config.clone(), authorize: true, stage: ConnectingStage::Opening }
    }
}

} // verus!
