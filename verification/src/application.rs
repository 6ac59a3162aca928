//! The application: what it is made of, and what can be done with it.

use crate::config::{Config, DatabaseConfig, ServerConfig, ServerConfigView};
use crate::db::migrations::Migrations;
use crate::db::protocol;
use crate::maintenance::{Migrating, MigratingView, Unlocking, UnlockingView};
use crate::startup::{address, Service, ServiceView, Startup, StartupView};
use include_dir::Dir;
use vstd::prelude::*;

verus! {

/// The state of an application that has its configuration.
pub struct WithConfig<C: Config> {
    pub config: C,
}

/// The state of an application that has no configuration yet.
pub struct WithoutConfig;

/// The state of an application that has migrations.
pub struct WithMigrations(pub Migrations);

/// The state of an application that has no migrations.
pub struct WithoutMigrations;

/// A path, and what handles the requests to it.
pub struct Route<M> {
    pub path: String,
    pub method_router: M,
}

/// The state of an application that serves routes, in the order in which they were added.
pub struct WithRouter<M>(pub Vec<Route<M>>);

/// The state of an application that serves nothing.
pub struct WithoutRouter;

/// An application in the making. Its type tells what it has already.
pub struct Application<
    ConfigState = WithoutConfig,
    MigrationsState = WithoutMigrations,
    RouterState = WithoutRouter,
> {
    pub config: ConfigState,
    pub migrations: MigrationsState,
    pub router: RouterState,
}

impl<ConfigState, MigrationsState, RouterState> Application<
    ConfigState,
    MigrationsState,
    RouterState,
> {
    /// The application with the configuration.
    pub fn with_config<C: Config>(self, config: C) -> (r: Application<
        WithConfig<C>,
        MigrationsState,
        RouterState,
    >)
        ensures
            r.config.config == config,
            r.migrations == self.migrations,
            r.router == self.router,
    {
        Application {
            config: WithConfig { config },
            migrations: self.migrations,
            router: self.router,
        }
    }

    /// The application with the migrations in the directory.
    pub fn with_migrations(self, migrations_dir: Dir<'static>) -> (r: Application<
        ConfigState,
        WithMigrations,
        RouterState,
    >)
        ensures
            r.config == self.config,
            r.migrations.0@ == crate::db::embedded::files_in(migrations_dir),
            r.router == self.router,
    {
        Application {
            config: self.config,
            migrations: WithMigrations(Migrations::new(migrations_dir)),
            router: self.router,
        }
    }
}

impl Application {
    /// An application that has nothing yet.
    pub fn new() -> (r: Self)
        ensures
            r == (Application {
                config: WithoutConfig,
                migrations: WithoutMigrations,
                router: WithoutRouter,
            }),
    {
        Application {
            config: WithoutConfig,
            migrations: WithoutMigrations,
            router: WithoutRouter,
        }
    }
}

/// The paths of the routes.
pub open spec fn route_paths<M>(routes: Seq<Route<M>>) -> Seq<Seq<char>> {
    routes.map_values(|route: Route<M>| route.path@)
}

/// The paths of the routes.
fn paths_of<M>(routes: &Vec<Route<M>>) -> (r: Vec<String>)
    ensures
        protocol::texts(r) == route_paths(routes@),
        r@.len() == routes@.len(),
        forall|i: int| 0 <= i < routes@.len() ==> (#[trigger] r@[i])@ == routes@[i].path@,
{
    let mut paths: Vec<String> = Vec::new();
    for i in 0..routes.len()
        invariant
            paths@.len() == i,
            forall|j: int| 0 <= j < i ==> (#[trigger] paths@[j])@ == routes@[j].path@,
    {
        paths.push(routes[i].path.clone());
    }
    assert(protocol::texts(paths) =~= route_paths(routes@));
    paths
}

/// What a server with this configuration serves, if these are its routes.
pub open spec fn service_of<M>(server: ServerConfigView, routes: Seq<Route<M>>) -> ServiceView {
    ServiceView { address: crate::startup::address_of(server), paths: route_paths(routes) }
}

/// The routes, each by its path.
pub open spec fn routes_view<M>(routes: Seq<Route<M>>) -> Seq<(Seq<char>, M)> {
    routes.map_values(|route: Route<M>| (route.path@, route.method_router))
}

impl<ConfigState, MigrationsState> Application<ConfigState, MigrationsState, WithoutRouter> {
    /// The application with its first route.
    pub fn route<M>(self, path: &str, method_router: M) -> (r: Application<
        ConfigState,
        MigrationsState,
        WithRouter<M>,
    >)
        ensures
            r.config == self.config,
            r.migrations == self.migrations,
            routes_view(r.router.0@) == seq![(path@, method_router)],
            r.router.0@.len() == 1,
            r.router.0@[0].path@ == path@,
            r.router.0@[0].method_router == method_router,
    {
        let routes = vec![Route { path: path.to_string(), method_router }];
        assert(routes_view(routes@) =~= seq![(path@, method_router)]);
        Application {
            config: self.config,
            migrations: self.migrations,
            router: WithRouter(routes),
        }
    }
}

impl<ConfigState, MigrationsState, M> Application<ConfigState, MigrationsState, WithRouter<M>> {
    /// The application with one more route.
    pub fn route(self, path: &str, method_router: M) -> (r: Application<
        ConfigState,
        MigrationsState,
        WithRouter<M>,
    >)
        ensures
            r.config == self.config,
            r.migrations == self.migrations,
            routes_view(r.router.0@) == routes_view(self.router.0@).push((path@, method_router)),
            r.router.0@.drop_last() == self.router.0@,
            r.router.0@.len() == self.router.0@.len() + 1,
            r.router.0@.last().path@ == path@,
            r.router.0@.last().method_router == method_router,
    {
        let mut routes = self.router.0;
        let ghost before = routes@;
        routes.push(Route { path: path.to_string(), method_router });
        assert(routes_view(routes@) =~= routes_view(before).push((path@, method_router)));
        assert(routes@.drop_last() =~= before);
        Application {
            config: self.config,
            migrations: self.migrations,
            router: WithRouter(routes),
        }
    }
}

impl<C: Config> Application<WithConfig<C>, WithoutMigrations, WithoutRouter> {
    /// Starts an application that only connects to its database.
    pub fn start(&self) -> (r: Startup)
        ensures
            exists|database: DatabaseConfig|
                {
                    &&& #[trigger] call_ensures(
                        C::get_database_config,
                        (&self.config.config,),
                        database,
                    )
                    &&& r@ == StartupView::start(database@, None, None)
                },
    {
        let database = self.config.config.get_database_config();
        Startup::new(&database, None, None)
    }
}

impl<C: Config> Application<WithConfig<C>, WithMigrations, WithoutRouter> {
    /// Starts an application that connects to its database and checks the schema.
    pub fn start(&self) -> (r: Startup)
        ensures
            exists|database: DatabaseConfig|
                {
                    &&& #[trigger] call_ensures(
                        C::get_database_config,
                        (&self.config.config,),
                        database,
                    )
                    &&& r@ == StartupView::start(database@, Some(self.migrations.0@), None)
                },
    {
        let database = self.config.config.get_database_config();
        Startup::new(&database, Some(self.migrations.0.clone()), None)
    }
}

impl<C: Config, M> Application<WithConfig<C>, WithoutMigrations, WithRouter<M>> {
    /// Starts an application that connects to its database and serves its routes.
    pub fn start(&self) -> (r: Startup)
        ensures
            exists|database: DatabaseConfig, server: ServerConfig|
                {
                    &&& #[trigger] call_ensures(
                        C::get_database_config,
                        (&self.config.config,),
                        database,
                    )
                    &&& #[trigger] call_ensures(
                        C::get_server_config,
                        (&self.config.config,),
                        server,
                    )
                    &&& r@ == StartupView::start(
                        database@,
                        None,
                        Some(service_of(server@, self.router.0@)),
                    )
                },
    {
        let database = self.config.config.get_database_config();
        let server = self.config.config.get_server_config();
        let service = Service { address: address(&server), paths: paths_of(&self.router.0) };
        Startup::new(&database, None, Some(service))
    }
}

impl<C: Config, M> Application<WithConfig<C>, WithMigrations, WithRouter<M>> {
    /// Starts an application that connects to its database, checks the schema, and serves its
    /// routes.
    pub fn start(&self) -> (r: Startup)
        ensures
            exists|database: DatabaseConfig, server: ServerConfig|
                {
                    &&& #[trigger] call_ensures(
                        C::get_database_config,
                        (&self.config.config,),
                        database,
                    )
                    &&& #[trigger] call_ensures(
                        C::get_server_config,
                        (&self.config.config,),
                        server,
                    )
                    &&& r@ == StartupView::start(
                        database@,
                        Some(self.migrations.0@),
                        Some(service_of(server@, self.router.0@)),
                    )
                },
    {
        let database = self.config.config.get_database_config();
        let server = self.config.config.get_server_config();
        let service = Service { address: address(&server), paths: paths_of(&self.router.0) };
        Startup::new(&database, Some(self.migrations.0.clone()), Some(service))
    }
}

impl<C: Config, RouterState> Application<WithConfig<C>, WithMigrations, RouterState> {
    /// Applies the pending migrations, if the configuration names this instance; else only connects
    /// to the database.
    pub fn run_migrations(&self) -> (r: Migrating)
        ensures
            exists|database: DatabaseConfig, instance_id: Option<String>|
                {
                    &&& #[trigger] call_ensures(
                        C::get_database_config,
                        (&self.config.config,),
                        database,
                    )
                    &&& #[trigger] call_ensures(
                        C::get_instance_id,
                        (&self.config.config,),
                        instance_id,
                    )
                    &&& r@ == MigratingView::start(
                        database@,
                        self.migrations.0@,
                        crate::config::optional_text(instance_id),
                    )
                },
    {
        let database = self.config.config.get_database_config();
        let instance_id = self.config.config.get_instance_id();
        Migrating::new(&database, self.migrations.0.clone(), instance_id)
    }

    /// Gives up the migration lock if it is held, provided that `force` is set.
    pub fn unlock(&self, force: bool) -> (r: Unlocking)
        ensures
            exists|database: DatabaseConfig|
                {
                    &&& #[trigger] call_ensures(
                        C::get_database_config,
                        (&self.config.config,),
                        database,
                    )
                    &&& r@ == UnlockingView::start(database@, force)
                },
    {
        let database = self.config.config.get_database_config();
        Unlocking::new(&database, force)
    }
}

} // verus!
