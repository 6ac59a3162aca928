//! What a started application does for its configuration and its routes.

use crate::application;
use crate::application::Route;
use crate::config::{DatabaseConfigView, ServerConfigView};
use crate::db::embedded::EmbeddedFileView;
use crate::db::protocol;
use crate::db::protocol::{ReplyView, RequestView};
use crate::startup;
use crate::startup::{StartErrorView, StartupView};
use crate::startup_laws;
use crate::text;
use vstd::prelude::*;

verus! {

/// Whether `address` is that of the host and the port: the whole host, a colon, and the port in base
/// ten.
pub open spec fn is_address(address: Seq<char>, host: Seq<char>, port: nat) -> bool {
    &&& address.len() > host.len() + 1
    &&& address.take(host.len() as int) == host
    &&& address[host.len() as int] == ':'
    &&& text::number(address.skip(host.len() as int + 1)) == port
    &&& forall|i: int|
        host.len() < i < address.len() ==> '0' <= #[trigger] address[i] <= '9'
    &&& address[host.len() as int + 1] == '0' ==> address.len() == host.len() + 2
}

/// The server listens on its host and its port.
pub proof fn server_listens_on_host_and_port(server: ServerConfigView)
    ensures
        is_address(startup::address_of(server), server.host, server.port as nat),
{
    reveal_strlit(":");
    let address = startup::address_of(server);
    let port = text::decimal(server.port as nat);
    let n = server.host.len() as int;
    text::decimal_reads_as_its_number(server.port as nat);
    assert(address.take(n) =~= server.host);
    assert(address.skip(n + 1) =~= port);
    assert forall|i: int| n < i < address.len() implies '0' <= #[trigger] address[i] <= '9' by {
        assert(address[i] == port[i - n - 1]);
    }
    assert(address[n + 1] == port[0]);
}

/// Whether `paths` are those of all the routes, one by one.
pub open spec fn are_paths_of<M>(paths: Seq<Seq<char>>, routes: Seq<Route<M>>) -> bool {
    &&& paths.len() == routes.len()
    &&& forall|i: int| 0 <= i < routes.len() ==> #[trigger] paths[i] == routes[i].path@
}

/// What there is to serve is every route, on the host and the port of the server.
pub proof fn service_is_every_route<M>(server: ServerConfigView, routes: Seq<Route<M>>)
    ensures
        are_paths_of(application::service_of(server, routes).paths, routes),
        is_address(
            application::service_of(server, routes).address,
            server.host,
            server.port as nat,
        ),
{
    server_listens_on_host_and_port(server);
}

/// The routes that are kept are each kept with its path and with what handles it.
pub proof fn routes_are_kept_with_their_handlers<M>(routes: Seq<Route<M>>)
    ensures
        application::routes_view(routes).len() == routes.len(),
        forall|i: int|
            0 <= i < routes.len() ==> #[trigger] application::routes_view(routes)[i] == (
                routes[i].path@,
                routes[i].method_router,
            ),
{
}

/// Whatever a started application listens on is its host and port, and whatever it serves is every
/// one of its routes.
pub proof fn started_application_serves_every_route<M>(
    database: DatabaseConfigView,
    to_check: Option<Seq<EmbeddedFileView>>,
    server: ServerConfigView,
    routes: Seq<Route<M>>,
    replies: Seq<ReplyView>,
    i: int,
)
    requires
        protocol::is_conversation(
            StartupView::start(
                database,
                to_check,
                Some(application::service_of(server, routes)),
            ),
            replies,
        ),
        0 <= i < replies.len(),
    ensures
        protocol::asked(
            StartupView::start(
                database,
                to_check,
                Some(application::service_of(server, routes)),
            ),
            replies,
        )[i] matches RequestView::Serve { paths } ==> are_paths_of(paths, routes),
        protocol::asked(
            StartupView::start(
                database,
                to_check,
                Some(application::service_of(server, routes)),
            ),
            replies,
        )[i] matches RequestView::Bind { address } ==> is_address(
            address,
            server.host,
            server.port as nat,
        ),
{
    let service = Some(application::service_of(server, routes));
    startup_laws::application_starts_step_by_step(database, to_check, service, replies);
    service_is_every_route(server, routes);
    let all = startup_laws::steps(database, to_check, service);
    assert(protocol::asked(StartupView::start(database, to_check, service), replies)[i]
        == all[i]);
}

/// An application with routes has run well only if it served them all to the end.
pub proof fn successful_application_served_every_route<M>(
    database: DatabaseConfigView,
    to_check: Option<Seq<EmbeddedFileView>>,
    server: ServerConfigView,
    routes: Seq<Route<M>>,
    replies: Seq<ReplyView>,
)
    requires
        protocol::is_conversation(
            StartupView::start(
                database,
                to_check,
                Some(application::service_of(server, routes)),
            ),
            replies,
        ),
        protocol::after(
            StartupView::start(
                database,
                to_check,
                Some(application::service_of(server, routes)),
            ),
            replies,
        ).outcome() == Some(Ok::<(), StartErrorView>(())),
    ensures
        replies.len() > 0,
        protocol::asked(
            StartupView::start(
                database,
                to_check,
                Some(application::service_of(server, routes)),
            ),
            replies,
        ).last() matches RequestView::Serve { paths } && are_paths_of(paths, routes),
        replies.last() matches ReplyView::Served(Ok(_)),
{
    let service = Some(application::service_of(server, routes));
    let start = StartupView::start(database, to_check, service);
    startup_laws::application_starts_step_by_step(database, to_check, service, replies);
    service_is_every_route(server, routes);
    let all = startup_laws::steps(database, to_check, service);
    assert(protocol::asked(start, replies).last() == all[all.len() - 1]);
    protocol::conversation_prefix(start, replies);
}

} // verus!
