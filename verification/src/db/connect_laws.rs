//! What holds of every opening of a connection, whatever the database answers.

use crate::config::DatabaseConfigView;
use crate::db::connect;
use crate::db::connect::{ConnectingStageView, ConnectingView};
use crate::db::protocol;
use crate::db::protocol::{Machine, ReplyView, RequestView};
use crate::db::DBErrorView;
use vstd::prelude::*;

verus! {

/// The steps of opening a connection.
pub open spec fn steps(config: DatabaseConfigView, authorize: bool) -> Seq<RequestView> {
    if authorize {
        seq![
            RequestView::Connect { url: config.url },
            RequestView::SignIn { username: config.username, password: config.password },
            RequestView::Select { namespace: config.namespace, database: config.database },
        ]
    } else {
        seq![RequestView::Connect { url: config.url }]
    }
}

/// Whether the reply says that a step succeeded.
pub open spec fn is_done(reply: ReplyView) -> bool {
    reply matches ReplyView::Done(Ok(_))
}

/// How the failure of the step with number `i` reads.
pub open spec fn step_failed(config: DatabaseConfigView, i: int, error: Seq<char>) -> DBErrorView {
    if i == 0 {
        connect::open_failed(config, error)
    } else if i == 1 {
        connect::sign_in_failed(error)
    } else {
        connect::select_failed(config, error)
    }
}

/// A connection is opened step by step, each step once and in order. It is open once every step has
/// succeeded. The first step that fails is the last one, and is what is reported.
pub proof fn connection_is_opened_step_by_step(
    config: DatabaseConfigView,
    authorize: bool,
    replies: Seq<ReplyView>,
)
    requires
        protocol::is_conversation(ConnectingView::start(config, authorize), replies),
    ensures
        replies.len() <= steps(config, authorize).len(),
        protocol::asked(ConnectingView::start(config, authorize), replies) == steps(
            config,
            authorize,
        ).take(replies.len() as int),
        forall|i: int| 0 <= i < replies.len() - 1 ==> is_done(#[trigger] replies[i]),
        protocol::after(ConnectingView::start(config, authorize), replies).outcome() == (
        if replies.len() == 0 {
            None
        } else {
            match replies.last() {
                ReplyView::Done(Err(error)) => Some(
                    Err(step_failed(config, replies.len() - 1, error)),
                ),
                _ => if replies.len() == steps(config, authorize).len() {
                    Some(Ok(()))
                } else {
                    None
                },
            }
        }),
{
    stage_of_connecting(config, authorize, replies);
    match protocol::after(ConnectingView::start(config, authorize), replies).stage {
        ConnectingStageView::Finished(Ok(nothing)) => {
            assert(nothing == ());
        },
        ConnectingStageView::Finished(Err(_)) => {},
        _ => {
            assert(replies.len() < steps(config, authorize).len());
        },
    }
}

/// A reply that does not answer what is asked changes nothing.
pub proof fn connecting_ignores_what_it_did_not_ask_for(now: ConnectingView, reply: ReplyView)
    requires
        now.request() matches Some(request) ==> !protocol::answers(request, reply),
    ensures
        now.resume(reply) == now,
{
}

proof fn stage_of_connecting(
    config: DatabaseConfigView,
    authorize: bool,
    replies: Seq<ReplyView>,
)
    requires
        protocol::is_conversation(ConnectingView::start(config, authorize), replies),
    ensures
        ({
            let start = ConnectingView::start(config, authorize);
            let now = protocol::after(start, replies);
            let n = replies.len() as int;
            &&& now.config == config
            &&& now.authorize == authorize
            &&& n <= steps(config, authorize).len()
            &&& protocol::asked(start, replies) == steps(config, authorize).take(n)
            &&& forall|i: int| 0 <= i < n - 1 ==> is_done(#[trigger] replies[i])
            &&& match now.stage {
                ConnectingStageView::Opening => n == 0,
                ConnectingStageView::SigningIn => authorize && n == 1 && is_done(replies[0]),
                ConnectingStageView::Selecting => authorize && n == 2 && is_done(replies[1]),
                ConnectingStageView::Finished(Ok(_)) => n == steps(config, authorize).len()
                    && is_done(replies.last()),
                ConnectingStageView::Finished(Err(e)) => {
                    &&& n > 0
                    &&& replies.last() matches ReplyView::Done(Err(error))
                    &&& e == step_failed(config, n - 1, error)
                },
            }
        }),
    decreases replies.len(),
{
    let start = ConnectingView::start(config, authorize);
    let asked = protocol::asked(start, replies);
    if replies.len() == 0 {
        assert(asked =~= steps(config, authorize).take(0));
    } else {
        let front = replies.drop_last();
        let n = front.len() as int;
        protocol::conversation_prefix(start, replies);
        stage_of_connecting(config, authorize, front);
        assert(asked =~= protocol::asked(start, front).push(asked.last()));
        assert(asked.last() == steps(config, authorize)[n]);
        assert(asked =~= steps(config, authorize).take(n + 1));
        assert forall|i: int| 0 <= i < n implies is_done(#[trigger] replies[i]) by {
            assert(front[i] == replies[i]);
        }
    }
}

} // verus!
