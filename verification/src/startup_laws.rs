//! What holds of every start of an application, whatever is answered.

use crate::config::DatabaseConfigView;
use crate::db::connect::ConnectingStageView;
use crate::db::connect_laws;
use crate::db::embedded::EmbeddedFileView;
use crate::db::migrations;
use crate::db::protocol;
use crate::db::protocol::{Machine, ReplyView, RequestView};
use crate::db::selection_laws;
use crate::startup::{ServiceView, StartErrorView, StartupView};
use vstd::prelude::*;

verus! {

/// The steps of a start: the connection is opened, the schema is checked if there are migrations, and
/// the routes are served if there are any.
pub open spec fn steps(
    database: DatabaseConfigView,
    to_check: Option<Seq<EmbeddedFileView>>,
    service: Option<ServiceView>,
) -> Seq<RequestView> {
    let check = match to_check {
        None => seq![],
        Some(_) => seq![RequestView::FetchApplied(migrations::last_applied_statement())],
    };
    let serve = match service {
        None => seq![],
        Some(service) => seq![
            RequestView::Bind { address: service.address },
            RequestView::Serve { paths: service.paths },
        ],
    };
    connect_laws::steps(database, true) + check + serve
}

/// Why the reply to the step with number `i` ends the start, if it does.
pub open spec fn failure(
    database: DatabaseConfigView,
    to_check: Option<Seq<EmbeddedFileView>>,
    service: Option<ServiceView>,
    i: int,
    reply: ReplyView,
) -> Option<StartErrorView> {
    match reply {
        ReplyView::Done(Err(error)) => Some(
            StartErrorView::Connection(connect_laws::step_failed(database, i, error)),
        ),
        ReplyView::Applied(r) => match migrations::has_pending(to_check->0, r) {
            Err(error) => Some(StartErrorView::Migrations(error)),
            Ok(true) => Some(StartErrorView::OutOfDate),
            Ok(false) => None,
        },
        ReplyView::Bound(Err(reason)) => Some(
            StartErrorView::Bind { address: service->0.address, reason },
        ),
        ReplyView::Served(Err(reason)) => Some(StartErrorView::Server(reason)),
        _ => None,
    }
}

/// An application starts step by step, each step once and in order. It has run well once every step
/// has succeeded. The first step that fails is the last one, and is what is reported.
pub proof fn application_starts_step_by_step(
    database: DatabaseConfigView,
    to_check: Option<Seq<EmbeddedFileView>>,
    service: Option<ServiceView>,
    replies: Seq<ReplyView>,
)
    requires
        protocol::is_conversation(StartupView::start(database, to_check, service), replies),
    ensures
        replies.len() <= steps(database, to_check, service).len(),
        protocol::asked(StartupView::start(database, to_check, service), replies) == steps(
            database,
            to_check,
            service,
        ).take(replies.len() as int),
        forall|i: int|
            0 <= i < replies.len() - 1 ==> failure(
                database,
                to_check,
                service,
                i,
                #[trigger] replies[i],
            ) is None,
        protocol::after(StartupView::start(database, to_check, service), replies).outcome() == (
        if replies.len() == 0 {
            None
        } else {
            match failure(database, to_check, service, replies.len() - 1, replies.last()) {
                Some(error) => Some(Err(error)),
                None => if replies.len() == steps(database, to_check, service).len() {
                    Some(Ok(()))
                } else {
                    None
                },
            }
        }),
{
    stage_of_start(database, to_check, service, replies);
    match protocol::after(StartupView::start(database, to_check, service), replies) {
        StartupView::Finished(Ok(nothing)) => {
            assert(nothing == ());
        },
        _ => {},
    }
}

/// An application with migrations binds no address and serves nothing unless its schema was found up
/// to date.
pub proof fn outdated_schema_is_not_served(
    database: DatabaseConfigView,
    files: Seq<EmbeddedFileView>,
    service: Option<ServiceView>,
    replies: Seq<ReplyView>,
    i: int,
)
    requires
        protocol::is_conversation(StartupView::start(database, Some(files), service), replies),
        0 <= i < replies.len(),
        ({
            let request = protocol::asked(
                StartupView::start(database, Some(files), service),
                replies,
            )[i];
            request is Bind || request is Serve
        }),
    ensures
        i > 3,
        replies[3] is Applied,
        migrations::has_pending(files, replies[3]->Applied_0) == Ok::<
            bool,
            migrations::MigrationErrorView,
        >(false),
{
    let start = StartupView::start(database, Some(files), service);
    application_starts_step_by_step(database, Some(files), service, replies);
    let all = steps(database, Some(files), service);
    assert(protocol::asked(start, replies)[i] == all[i]);
    assert(all[3] == RequestView::FetchApplied(migrations::last_applied_statement()));
    assert(all[0] is Connect && all[1] is SignIn && all[2] is Select);
    assert(protocol::asked(start, replies)[3] == all[3]);
    protocol::conversation_beginning(start, replies, 3);
    assert(failure(database, Some(files), service, 3, replies[3]) is None);
}

/// An application that stands up with migrations has a schema on which nothing is pending.
pub proof fn started_application_is_up_to_date(
    database: DatabaseConfigView,
    files: Seq<EmbeddedFileView>,
    service: Option<ServiceView>,
    replies: Seq<ReplyView>,
)
    requires
        protocol::is_conversation(StartupView::start(database, Some(files), service), replies),
        protocol::after(StartupView::start(database, Some(files), service), replies).outcome()
            == Some(Ok::<(), StartErrorView>(())),
    ensures
        replies.len() > 3,
        replies[3] is Applied,
        migrations::has_pending(files, replies[3]->Applied_0) == Ok::<
            bool,
            migrations::MigrationErrorView,
        >(false),
{
    let start = StartupView::start(database, Some(files), service);
    application_starts_step_by_step(database, Some(files), service, replies);
    let all = steps(database, Some(files), service);
    assert(all[3] == RequestView::FetchApplied(migrations::last_applied_statement()));
    assert(protocol::asked(start, replies)[3] == all[3]);
    protocol::conversation_beginning(start, replies, 3);
    assert(failure(database, Some(files), service, 3, replies[3]) is None);
}

/// Whether some file is a migration that comes after what the database has on record first.
pub open spec fn is_outdated(files: Seq<EmbeddedFileView>, recorded: Seq<Seq<char>>) -> bool {
    exists|k: int, id: Seq<char>|
        0 <= k < files.len() && #[trigger] selection_laws::is_behind(files[k], id, recorded)
}

/// An application one of whose files is a migration that comes after the last applied one does not
/// start: it ends right after the check, and listens on no address and serves nothing.
pub proof fn newer_file_keeps_the_application_from_starting(
    database: DatabaseConfigView,
    files: Seq<EmbeddedFileView>,
    service: Option<ServiceView>,
    replies: Seq<ReplyView>,
    recorded: Seq<Seq<char>>,
)
    requires
        protocol::is_conversation(StartupView::start(database, Some(files), service), replies),
        replies.len() > 3,
        replies[3] == ReplyView::Applied(Ok(Ok(recorded))),
        is_outdated(files, recorded),
    ensures
        replies.len() == 4,
        protocol::after(
            StartupView::start(database, Some(files), service),
            replies,
        ).outcome() matches Some(Err(_)),
        forall|i: int|
            0 <= i < replies.len() ==> {
                let request = #[trigger] protocol::asked(
                    StartupView::start(database, Some(files), service),
                    replies,
                )[i];
                !(request is Bind) && !(request is Serve)
            },
{
    let start = StartupView::start(database, Some(files), service);
    application_starts_step_by_step(database, Some(files), service, replies);
    selection_laws::schema_is_up_to_date_without_newer_files(files, recorded);
    let all = steps(database, Some(files), service);
    assert(failure(database, Some(files), service, 3, replies[3]) is Some);
    assert(all[0] is Connect && all[1] is SignIn && all[2] is Select && all[3] is FetchApplied);
    assert forall|i: int| 0 <= i < replies.len() implies {
        let request = #[trigger] protocol::asked(start, replies)[i];
        !(request is Bind) && !(request is Serve)
    } by {
        assert(protocol::asked(start, replies)[i] == all[i]);
    }
}

/// An application none of whose files is a migration that comes after the last applied one passes the
/// check: the check is not what its start ends with, unless there is nothing to serve.
pub proof fn up_to_date_application_goes_on(
    database: DatabaseConfigView,
    files: Seq<EmbeddedFileView>,
    service: Option<ServiceView>,
    replies: Seq<ReplyView>,
    recorded: Seq<Seq<char>>,
)
    requires
        protocol::is_conversation(StartupView::start(database, Some(files), service), replies),
        replies.len() == 4,
        replies[3] == ReplyView::Applied(Ok(Ok(recorded))),
        !is_outdated(files, recorded),
    ensures
        ({
            let now = protocol::after(StartupView::start(database, Some(files), service), replies);
            match service {
                None => now.outcome() matches Some(Ok(_)),
                Some(service) => now.request() == Some(
                    RequestView::Bind { address: service.address },
                ),
            }
        }),
{
    let start = StartupView::start(database, Some(files), service);
    stage_of_start(database, Some(files), service, replies);
    selection_laws::schema_is_up_to_date_without_newer_files(files, recorded);
    assert(failure(database, Some(files), service, 3, replies.last()) is None);
}

/// A reply that does not answer what is asked changes nothing.
pub proof fn start_ignores_what_it_did_not_ask_for(now: StartupView, reply: ReplyView)
    requires
        now.request() matches Some(request) ==> !protocol::answers(request, reply),
        now matches StartupView::Connecting { connecting, .. } ==> connecting.outcome() is None,
    ensures
        now.resume(reply) == now,
{
}

proof fn stage_of_start(
    database: DatabaseConfigView,
    to_check: Option<Seq<EmbeddedFileView>>,
    service: Option<ServiceView>,
    replies: Seq<ReplyView>,
)
    requires
        protocol::is_conversation(StartupView::start(database, to_check, service), replies),
    ensures
        ({
            let start = StartupView::start(database, to_check, service);
            let all = steps(database, to_check, service);
            let n = replies.len() as int;
            let bound = if to_check is Some {
                4int
            } else {
                3
            };
            let last = failure(database, to_check, service, n - 1, replies.last());
            &&& n <= all.len()
            &&& protocol::asked(start, replies) == all.take(n)
            &&& forall|i: int|
                0 <= i < n - 1 ==> failure(
                    database,
                    to_check,
                    service,
                    i,
                    #[trigger] replies[i],
                ) is None
            &&& match protocol::after(start, replies) {
                StartupView::Connecting { connecting, to_check: c, service: s } => {
                    &&& connecting.config == database
                    &&& connecting.authorize
                    &&& c == to_check
                    &&& s == service
                    &&& n > 0 ==> last is None
                    &&& n < 3
                    &&& match connecting.stage {
                        ConnectingStageView::Opening => n == 0,
                        ConnectingStageView::SigningIn => n == 1,
                        ConnectingStageView::Selecting => n == 2,
                        ConnectingStageView::Finished(_) => false,
                    }
                },
                StartupView::Checking { migrations, service: s } => {
                    &&& to_check == Some(migrations)
                    &&& s == service
                    &&& n == 3
                    &&& last is None
                },
                StartupView::Binding(s) => {
                    &&& service == Some(s)
                    &&& n == bound
                    &&& last is None
                },
                StartupView::Serving { paths } => {
                    &&& service is Some
                    &&& paths == service->0.paths
                    &&& n == bound + 1
                    &&& last is None
                },
                StartupView::Finished(Ok(_)) => n == all.len() && last is None,
                StartupView::Finished(Err(error)) => n > 0 && last == Some(error),
            }
        }),
    decreases replies.len(),
{
    let start = StartupView::start(database, to_check, service);
    let all = steps(database, to_check, service);
    let asked = protocol::asked(start, replies);
    if replies.len() == 0 {
        assert(asked =~= all.take(0));
    } else {
        let front = replies.drop_last();
        let n = front.len() as int;
        protocol::conversation_prefix(start, replies);
        stage_of_start(database, to_check, service, front);
        assert(asked =~= protocol::asked(start, front).push(asked.last()));
        assert(asked.last() == all[n]);
        assert(asked =~= all.take(n + 1));
        assert forall|i: int| 0 <= i < n implies failure(
            database,
            to_check,
            service,
            i,
            #[trigger] replies[i],
        ) is None by {
            assert(front[i] == replies[i]);
        }
    }
}

} // verus!
