//! The start of an application.

use crate::config::{DatabaseConfig, DatabaseConfigView, ServerConfig, ServerConfigView};
use crate::db::connect::{Connecting, ConnectingStage, ConnectingView};
use crate::db::embedded::EmbeddedFileView;
use crate::db::migrations::{MigrationError, MigrationErrorView, Migrations};
use crate::db::protocol;
use crate::db::protocol::{Machine, Reply, ReplyView, Request, RequestView};
use crate::db::{DBError, DBErrorView, Database};
use crate::text::to_decimal;
use vstd::prelude::*;

verus! {

/// The address that the server listens on.
pub open spec fn address_of(server: ServerConfigView) -> Seq<char> {
    server.host + ":"@ + crate::text::decimal(server.port as nat)
}

/// The address that the server listens on.
pub fn address(server: &ServerConfig) -> (r: String)
    ensures
        r@ == address_of(server@),
{
    server.host.clone().concat(":").concat(to_decimal(server.port).as_str())
}

/// What a server serves, and where.
#[derive(Debug)]
pub struct Service {
    pub address: String,
    /// The paths of the routes, in the order in which the routes were added.
    pub paths: Vec<String>,
}

pub struct ServiceView {
    pub address: Seq<char>,
    pub paths: Seq<Seq<char>>,
}

impl View for Service {
    type V = ServiceView;

    open spec fn view(&self) -> ServiceView {
        ServiceView { address: self.address@, paths: protocol::texts(self.paths) }
    }
}

/// What there is to serve, if anything.
pub open spec fn optional_service(service: Option<Service>) -> Option<ServiceView> {
    match service {
        None => None,
        Some(service) => Some(service@),
    }
}

/// Why an application did not start, or stopped.
#[derive(Debug)]
pub enum StartError {
    Connection(DBError),
    OutOfDate,
    Migrations(MigrationError),
    Bind { address: String, reason: String },
    Server(String),
}

pub enum StartErrorView {
    Connection(DBErrorView),
    OutOfDate,
    Migrations(MigrationErrorView),
    Bind { address: Seq<char>, reason: Seq<char> },
    Server(Seq<char>),
}

impl View for StartError {
    type V = StartErrorView;

    open spec fn view(&self) -> StartErrorView {
        match self {
            StartError::Connection(error) => StartErrorView::Connection(error@),
            StartError::OutOfDate => StartErrorView::OutOfDate,
            StartError::Migrations(error) => StartErrorView::Migrations(error@),
            StartError::Bind { address, reason } => StartErrorView::Bind {
                address: address@,
                reason: reason@,
            },
            StartError::Server(reason) => StartErrorView::Server(reason@),
        }
    }
}

impl StartErrorView {
    /// The error as its user reads it.
    pub open spec fn text(self) -> Seq<char> {
        match self {
            StartErrorView::Connection(error) => "Failed to connect to database: "@ + error.text(),
            StartErrorView::OutOfDate => "Database is not up to date"@,
            StartErrorView::Migrations(error) => "Failed to check database migrations: "@
                + error.text(),
            StartErrorView::Bind { address, reason } => "Failed to bind to address "@ + address
                + ": "@ + reason,
            StartErrorView::Server(reason) => "Server error: "@ + reason,
        }
    }
}

impl StartError {
    /// The error as its user reads it.
    pub fn message(&self) -> (r: String)
        ensures
            r@ == self@.text(),
    {
        match self {
            StartError::Connection(error) => {
                "Failed to connect to database: ".to_string().concat(error.message().as_str())
            },
            StartError::OutOfDate => "Database is not up to date".to_string(),
            StartError::Migrations(error) => {
                "Failed to check database migrations: ".to_string().concat(error.message().as_str())
            },
            StartError::Bind { address, reason } => {
                "Failed to bind to address ".to_string().concat(address.as_str()).concat(
                    ": ",
                ).concat(reason.as_str())
            },
            StartError::Server(reason) => "Server error: ".to_string().concat(reason.as_str()),
        }
    }
}

/// The start of an application: the database is connected to, its schema is checked if there are
/// migrations, and the routes are served if there are any.
pub enum Startup {
    Connecting {
        connecting: Connecting,
        to_check: Option<Migrations>,
        service: Option<Service>,
    },
    Checking { migrations: Migrations, service: Option<Service> },
    Binding(Service),
    Serving { paths: Vec<String> },
    Finished(Result<(), StartError>),
}

pub enum StartupView {
    Connecting {
        connecting: ConnectingView,
        to_check: Option<Seq<EmbeddedFileView>>,
        service: Option<ServiceView>,
    },
    Checking { migrations: Seq<EmbeddedFileView>, service: Option<ServiceView> },
    Binding(ServiceView),
    Serving { paths: Seq<Seq<char>> },
    Finished(Result<(), StartErrorView>),
}

/// The migrations of an application, if it has any.
pub open spec fn optional_migrations(migrations: Option<Migrations>) -> Option<
    Seq<EmbeddedFileView>,
> {
    match migrations {
        None => None,
        Some(migrations) => Some(migrations@),
    }
}

/// What the start came to.
pub open spec fn start_result(r: Result<(), StartError>) -> Result<(), StartErrorView> {
    match r {
        Ok(value) => Ok(value),
        Err(error) => Err(error@),
    }
}

impl View for Startup {
    type V = StartupView;

    open spec fn view(&self) -> StartupView {
        match self {
            Startup::Connecting { connecting, to_check, service } => StartupView::Connecting {
                connecting: connecting@,
                to_check: optional_migrations(*to_check),
                service: optional_service(*service),
            },
            Startup::Checking { migrations, service } => StartupView::Checking {
                migrations: migrations@,
                service: optional_service(*service),
            },
            Startup::Binding(service) => StartupView::Binding(service@),
            Startup::Serving { paths } => StartupView::Serving { paths: protocol::texts(*paths) },
            Startup::Finished(r) => StartupView::Finished(start_result(*r)),
        }
    }
}

impl StartupView {
    /// A start that has not begun.
    pub open spec fn start(
        database: DatabaseConfigView,
        to_check: Option<Seq<EmbeddedFileView>>,
        service: Option<ServiceView>,
    ) -> StartupView {
        StartupView::Connecting {
            connecting: ConnectingView::start(database, true),
            to_check,
            service,
        }
    }

    /// The outcome, once there is one.
    pub open spec fn outcome(self) -> Option<Result<(), StartErrorView>> {
        match self {
            StartupView::Finished(r) => Some(r),
            _ => None,
        }
    }

    /// The start once the database is known to be as it should.
    pub open spec fn ready(service: Option<ServiceView>) -> StartupView {
        match service {
            None => StartupView::Finished(Ok(())),
            Some(service) => StartupView::Binding(service),
        }
    }

    /// The start once the opening of the connection has come to `connecting`.
    pub open spec fn after_connecting(
        connecting: ConnectingView,
        to_check: Option<Seq<EmbeddedFileView>>,
        service: Option<ServiceView>,
    ) -> StartupView {
        match connecting.outcome() {
            None => StartupView::Connecting { connecting, to_check, service },
            Some(Err(error)) => StartupView::Finished(Err(StartErrorView::Connection(error))),
            Some(Ok(_)) => match to_check {
                None => StartupView::ready(service),
                Some(migrations) => StartupView::Checking { migrations, service },
            },
        }
    }

    /// The start once it is known whether migrations are pending.
    pub open spec fn after_checking(
        has_pending: Result<bool, MigrationErrorView>,
        service: Option<ServiceView>,
    ) -> StartupView {
        match has_pending {
            Err(error) => StartupView::Finished(Err(StartErrorView::Migrations(error))),
            Ok(true) => StartupView::Finished(Err(StartErrorView::OutOfDate)),
            Ok(false) => StartupView::ready(service),
        }
    }
}

impl Machine for StartupView {
    open spec fn request(self) -> Option<RequestView> {
        match self {
            StartupView::Connecting { connecting, .. } => connecting.request(),
            StartupView::Checking { .. } => Some(
                RequestView::FetchApplied(crate::db::migrations::last_applied_statement()),
            ),
            StartupView::Binding(service) => Some(RequestView::Bind { address: service.address }),
            StartupView::Serving { paths } => Some(RequestView::Serve { paths }),
            StartupView::Finished(_) => None,
        }
    }

    open spec fn resume(self, reply: ReplyView) -> StartupView {
        match (self, reply) {
            (
                StartupView::Connecting { connecting, to_check, service },
                _,
            ) => StartupView::after_connecting(connecting.resume(reply), to_check, service),
            (
                StartupView::Checking { migrations, service },
                ReplyView::Applied(r),
            ) => StartupView::after_checking(
                crate::db::migrations::has_pending(migrations, r),
                service,
            ),
            (StartupView::Binding(service), ReplyView::Bound(Ok(_))) => StartupView::Serving {
                paths: service.paths,
            },
            (
                StartupView::Binding(service),
                ReplyView::Bound(Err(reason)),
            ) => StartupView::Finished(
                Err(StartErrorView::Bind { address: service.address, reason }),
            ),
            (StartupView::Serving { .. }, ReplyView::Served(Ok(_))) => StartupView::Finished(
                Ok(()),
            ),
            (StartupView::Serving { .. }, ReplyView::Served(Err(reason))) => StartupView::Finished(
                Err(StartErrorView::Server(reason)),
            ),
            _ => self,
        }
    }
}

impl Startup {
    /// The start of an application on the database: with migrations or without, with something to
    /// serve or without.
    pub fn new(
        database: &DatabaseConfig,
        migrations: Option<Migrations>,
        service: Option<Service>,
    ) -> (r: Startup)
        ensures
            r@ == StartupView::start(
                database@,
                optional_migrations(migrations),
                optional_service(service),
            ),
    {
        Startup::Connecting {
            connecting: Database::connect(database),
            to_check: migrations,
            service,
        }
    }

    /// The start once the database is known to be as it should.
    fn ready(service: Option<Service>) -> (r: Startup)
        ensures
            r@ == StartupView::ready(optional_service(service)),
    {
        match service {
            None => Startup::Finished(Ok(())),
            Some(service) => Startup::Binding(service),
        }
    }

    /// What is to be done next; nothing once the outcome is known.
    pub fn request(&self) -> (r: Option<Request>)
        ensures
            protocol::optional_request(r) == self@.request(),
    {
        match self {
            Startup::Connecting { connecting, .. } => connecting.request(),
            Startup::Checking { .. } => Some(Migrations::get_last_applied_migration_request()),
            Startup::Binding(service) => Some(Request::Bind { address: service.address.clone() }),
            Startup::Serving { paths } => {
                let copy = paths.clone();
                assert(protocol::texts(copy) =~= protocol::texts(*paths));
                Some(Request::Serve { paths: copy })
            },
            Startup::Finished(_) => None,
        }
    }

    /// Takes the reply to the request. A reply that does not answer it changes nothing.
    pub fn resume(self, reply: Reply) -> (r: Startup)
        ensures
            r@ == self@.resume(reply@),
    {
        match (self, reply) {
            (Startup::Connecting { connecting, to_check, service }, reply) => {
                let connecting = connecting.resume(reply);
                match connecting.stage {
                    ConnectingStage::Finished(Err(error)) => Startup::Finished(
                        Err(StartError::Connection(error)),
                    ),
                    ConnectingStage::Finished(Ok(_)) => match to_check {
                        None => Startup::ready(service),
                        Some(migrations) => Startup::Checking { migrations, service },
                    },
                    stage => Startup::Connecting {
                        connecting: Connecting {
                            config: connecting.config,
                            authorize: connecting.authorize,
                            stage,
                        },
                        to_check,
                        service,
                    },
                }
            },
            (Startup::Checking { migrations, service }, Reply::Applied(reply)) => {
                match migrations.has_pending_migrations(reply) {
                    Err(error) => Startup::Finished(Err(StartError::Migrations(error))),
                    Ok(true) => Startup::Finished(Err(StartError::OutOfDate)),
                    Ok(false) => Startup::ready(service),
                }
            },
            (Startup::Binding(service), Reply::Bound(Ok(_))) => Startup::Serving {
                paths: service.paths,
            },
            (Startup::Binding(service), Reply::Bound(Err(reason))) => Startup::Finished(
                Err(StartError::Bind { address: service.address, reason }),
            ),
            (Startup::Serving { .. }, Reply::Served(Ok(_))) => Startup::Finished(Ok(())),
            (Startup::Serving { .. }, Reply::Served(Err(reason))) => Startup::Finished(
                Err(StartError::Server(reason)),
            ),
            (startup, _) => startup,
        }
    }

    /// The outcome, once there is one; else the start itself.
    pub fn outcome(self) -> (r: Result<Result<(), StartError>, Startup>)
        ensures
            match r {
                Ok(result) => self@.outcome() == Some(start_result(result)),
                Err(startup) => self@.outcome() is None && startup@ == self@,
            },
    {
        match self {
            Startup::Finished(result) => Ok(result),
            startup => Err(startup),
        }
    }
}

} // verus!
