use include_dir::{Dir, DirEntry, File};
use keystone::config::{AppConfig, DatabaseConfig, SecurityConfig, ServerConfig};
use keystone::db::lock::LockStage;
use keystone::db::migrations::{AppliedMigration, MigrationError, Migrations, SchemaLock};
use keystone::db::protocol::{Binding, Reply, Request, Value};
use keystone::db::{Database, SurrealError};
use keystone::maintenance::{MaintenanceError, Migrating, Unlocking};
use keystone::startup::{address, StartError, Startup};
use keystone::Application;

const ENTRIES: &[DirEntry<'static>] = &[
    DirEntry::File(File::new("0002.surql", b"DEFINE TABLE b;")),
    DirEntry::File(File::new("0001.surql", b"DEFINE TABLE a;")),
];

const NOT_TEXT: &[DirEntry<'static>] = &[DirEntry::File(File::new("0001.surql", b"\xff"))];

fn config(instance_id: Option<&str>) -> AppConfig {
    AppConfig {
        server: ServerConfig { host: "0.0.0.0".to_string(), port: 8080 },
        database: DatabaseConfig {
            url: "memory".to_string(),
            username: "root".to_string(),
            password: "root".to_string(),
            namespace: "test".to_string(),
            database: "test".to_string(),
        },
        security: SecurityConfig::default(),
        instance_id: instance_id.map(|id| id.to_string()),
    }
}

fn error(message: &str) -> SurrealError {
    SurrealError { message: message.to_string() }
}

fn done() -> Reply {
    Reply::Done(Ok(()))
}

fn connected() -> Vec<Reply> {
    vec![done(), done(), done()]
}

fn applied(ids: &[&str]) -> Reply {
    let list =
        ids.iter().map(|id| AppliedMigration { migration: id.to_string() }).collect::<Vec<_>>();
    Reply::Applied(Ok(Ok(list)))
}

fn executed() -> Reply {
    Reply::Executed(Ok(Ok(())))
}

fn granted() -> Reply {
    Reply::Lock(Ok(Ok(Some(SchemaLock { locked: true, ..SchemaLock::default() }))))
}

fn refused() -> Reply {
    Reply::Lock(Ok(Ok(None)))
}

fn locks(locked: bool) -> Reply {
    Reply::Locks(Ok(Ok(vec![SchemaLock { locked, ..SchemaLock::default() }])))
}

/// A request in short: what it is, and which script it applies.
fn short(request: Request) -> String {
    match request {
        Request::Connect { .. } => "connect".to_string(),
        Request::SignIn { .. } => "sign in".to_string(),
        Request::Select { .. } => "select".to_string(),
        Request::Upsert(record) => format!("create {}:{}", record.table, record.key),
        Request::Execute(statement) => {
            let first = format!("{:?}", statement.bindings.first());
            if statement.sql.starts_with("BEGIN;") {
                format!("apply {}", first)
            } else if statement.bindings.is_empty() {
                "free".to_string()
            } else {
                "release".to_string()
            }
        },
        Request::FetchApplied(_) => "last applied".to_string(),
        Request::FetchLocks(_) => "locks".to_string(),
        Request::UpdateLock(_) => "take".to_string(),
        Request::StartClock => "start".to_string(),
        Request::ReadClock => "read".to_string(),
        Request::Sleep { seconds } => format!("sleep {}", seconds),
        Request::Bind { address } => format!("bind {}", address),
        Request::Serve { paths } => format!("serve {}", paths.join(" ")),
        other => format!("{:?}", other),
    }
}

fn apply(id: &str) -> String {
    format!("apply Some(Binding {{ name: \"migration\", value: Text(\"{}\") }})", id)
}

fn strings(list: &[&str]) -> Vec<String> {
    list.iter().map(|s| s.to_string()).collect()
}

/// Runs the migrations on the replies; what was asked for, and the outcome.
fn run(
    entries: &'static [DirEntry<'static>],
    replies: Vec<Reply>,
) -> (Vec<String>, Option<Result<(), MigrationError>>) {
    let mut run = Migrations::new(Dir::new("", entries)).run_migrations("me".to_string());
    let mut asked = vec![];
    for reply in replies {
        asked.push(short(run.request().unwrap()));
        run = run.resume(reply);
    }
    match run.outcome() {
        Ok(result) => (asked, Some(result)),
        Err(run) => {
            assert!(run.request().is_some());
            (asked, None)
        },
    }
}

fn migrate(mut migrating: Migrating, replies: Vec<Reply>) -> (Vec<String>, String) {
    let mut asked = vec![];
    for reply in replies {
        asked.push(short(migrating.request().unwrap()));
        migrating = migrating.resume(reply);
    }
    let end = match migrating.outcome() {
        Ok(Ok(())) => "done".to_string(),
        Ok(Err(error)) => error.message(),
        Err(_) => "on the way".to_string(),
    };
    (asked, end)
}

fn unlock(mut unlocking: Unlocking, replies: Vec<Reply>) -> (Vec<String>, String) {
    let mut asked = vec![];
    for reply in replies {
        asked.push(short(unlocking.request().unwrap()));
        unlocking = unlocking.resume(reply);
    }
    let end = match unlocking.outcome() {
        Ok(Ok(())) => "done".to_string(),
        Ok(Err(error)) => error.message(),
        Err(_) => "on the way".to_string(),
    };
    (asked, end)
}

fn start(mut startup: Startup, replies: Vec<Reply>) -> (Vec<String>, String) {
    let mut asked = vec![];
    for reply in replies {
        asked.push(short(startup.request().unwrap()));
        startup = startup.resume(reply);
    }
    let end = match startup.outcome() {
        Ok(Ok(())) => "done".to_string(),
        Ok(Err(error)) => error.message(),
        Err(_) => "on the way".to_string(),
    };
    (asked, end)
}

fn with(mut first: Vec<Reply>, rest: Vec<Reply>) -> Vec<Reply> {
    first.extend(rest);
    first
}

#[test]
fn attempt_is_repeated_until_the_lock_is_taken() {
    let mut attempt = Migrations::acquire_lock("me");
    let mut asked = vec![];
    for reply in [
        done(),
        Reply::ClockStarted,
        refused(),
        Reply::Elapsed { nanos: 5 },
        Reply::Slept,
        refused(),
        Reply::Elapsed { nanos: 60_000_000_000 },
        Reply::Slept,
        granted(),
    ] {
        asked.push(short(attempt.request().unwrap()));
        attempt = attempt.resume(reply);
    }
    assert_eq!(
        asked,
        strings(&[
            "create schema_lock:singleton", "start", "take", "read", "sleep 1", "take", "read",
            "sleep 1", "take",
        ])
    );
    assert!(attempt.request().is_none());
    assert!(matches!(attempt.stage, LockStage::Finished(Ok(true))));
}

#[test]
fn attempt_gives_up_after_a_minute() {
    let mut attempt = Migrations::acquire_lock("me");
    for reply in
        [done(), Reply::ClockStarted, refused(), Reply::Elapsed { nanos: 60_000_000_001 }]
    {
        attempt = attempt.resume(reply);
    }
    assert!(matches!(attempt.stage, LockStage::Finished(Ok(false))));
}

#[test]
fn attempt_with_a_clock_that_counts_the_pauses() {
    let mut attempt = Migrations::acquire_lock("me").resume(done()).resume(Reply::ClockStarted);
    let mut tries: u128 = 0;
    while attempt.request().is_some() {
        tries += 1;
        attempt = attempt.resume(refused());
        attempt = attempt.resume(Reply::Elapsed { nanos: (tries - 1) * 1_000_000_000 });
        attempt = attempt.resume(Reply::Slept);
    }
    assert_eq!(tries, 62);
    assert!(matches!(attempt.stage, LockStage::Finished(Ok(false))));
}

#[test]
fn attempt_fails_with_the_database() {
    let attempts = [
        vec![Reply::Done(Err(error("lost")))],
        vec![done(), Reply::ClockStarted, Reply::Lock(Err(error("lost")))],
        vec![done(), Reply::ClockStarted, Reply::Lock(Ok(Err(error("lost"))))],
    ];
    for replies in attempts {
        let mut attempt = Migrations::acquire_lock("me");
        for reply in replies {
            attempt = attempt.resume(reply);
        }
        match attempt.stage {
            LockStage::Finished(Err(MigrationError::DBError { source })) => {
                assert_eq!(source.message, "lost");
            },
            other => panic!("{:?}", other),
        }
    }
}

#[test]
fn statement_that_takes_the_lock() {
    let attempt = Migrations::acquire_lock("me").resume(done()).resume(Reply::ClockStarted);
    assert_eq!(
        format!("{:?}", attempt.request().unwrap()),
        "UpdateLock(Statement { sql: \"UPDATE $lock_id SET locked=true, locked_at=time::now(), \
         instance_id=$instance_id WHERE locked = false;\", bindings: [Binding { name: \
         \"lock_id\", value: Record(RecordKey { table: \"schema_lock\", key: \"singleton\" }) }, \
         Binding { name: \"instance_id\", value: Text(\"me\") }] })"
    );
}

#[test]
fn statement_that_applies_a_script() {
    let run = Migrations::new(Dir::new("", ENTRIES))
        .run_migrations("me".to_string())
        .resume(applied(&[]));
    assert_eq!(
        format!("{:?}", run.request().unwrap()),
        "Execute(Statement { sql: \"BEGIN;DEFINE TABLE a; CREATE schema_migration SET \
         migration=$migration, applied_at=time::now(); COMMIT; \", bindings: [Binding { name: \
         \"migration\", value: Text(\"0001\") }] })"
    );
}

#[test]
fn new_schema_is_migrated_without_the_lock() {
    let (asked, outcome) = run(ENTRIES, vec![applied(&[]), executed(), executed()]);
    assert_eq!(
        asked,
        vec!["last applied".to_string(), apply("0001"), apply("0002")]
    );
    assert!(matches!(outcome, Some(Ok(()))));
}

#[test]
fn migrated_schema_is_migrated_under_the_lock() {
    let (asked, outcome) = run(
        ENTRIES,
        vec![applied(&["0001"]), done(), Reply::ClockStarted, granted(), executed(), executed()],
    );
    assert_eq!(
        asked,
        vec![
            "last applied".to_string(),
            "create schema_lock:singleton".to_string(),
            "start".to_string(),
            "take".to_string(),
            apply("0002"),
            "release".to_string(),
        ]
    );
    assert!(matches!(outcome, Some(Ok(()))));
}

#[test]
fn up_to_date_schema_is_left_alone() {
    let (asked, outcome) = run(
        ENTRIES,
        vec![applied(&["0002"]), done(), Reply::ClockStarted, granted(), executed()],
    );
    assert_eq!(asked.last().unwrap(), "release");
    assert_eq!(asked.len(), 5);
    assert!(matches!(outcome, Some(Ok(()))));
}

#[test]
fn no_migrations_at_all() {
    let (asked, outcome) = run(&[], vec![applied(&[])]);
    assert_eq!(asked, strings(&["last applied"]));
    assert!(matches!(outcome, Some(Ok(()))));
}

#[test]
fn failed_script_is_the_last_one() {
    let replies = [
        Reply::Executed(Ok(Err(error("syntax")))),
        Reply::Executed(Err(error("syntax"))),
    ];
    for reply in replies {
        let (asked, outcome) = run(ENTRIES, vec![applied(&[]), reply]);
        assert_eq!(asked.len(), 2);
        match outcome {
            Some(Err(failed)) => {
                assert_eq!(failed.message(), "Migration script failed: 0001, syntax");
            },
            _ => unreachable!(),
        }
    }
}

#[test]
fn lock_is_released_after_a_failed_script() {
    let locked = || vec![applied(&["0000"]), done(), Reply::ClockStarted, granted()];
    let failed = || Reply::Executed(Ok(Err(error("syntax"))));
    for release in [
        executed(),
        Reply::Executed(Ok(Err(error("ignored")))),
        Reply::Executed(Err(error("lost"))),
    ] {
        let (asked, outcome) = run(ENTRIES, with(locked(), vec![failed(), release]));
        assert_eq!(asked.last().unwrap(), "release");
        match outcome {
            Some(Err(error)) => {
                assert_eq!(error.message(), "Migration script failed: 0001, syntax");
            },
            _ => unreachable!(),
        }
    }
}

#[test]
fn failed_release_does_not_change_the_result() {
    for release in [
        executed(),
        Reply::Executed(Ok(Err(error("ignored")))),
        Reply::Executed(Err(error("lost"))),
    ] {
        let (asked, outcome) = run(
            ENTRIES,
            vec![
                applied(&["0001"]),
                done(),
                Reply::ClockStarted,
                granted(),
                executed(),
                release,
            ],
        );
        assert_eq!(asked.last().unwrap(), "release");
        assert!(matches!(outcome, Some(Ok(()))));
    }
    let (_, outcome) = run(
        ENTRIES,
        vec![
            applied(&["0002"]),
            done(),
            Reply::ClockStarted,
            granted(),
            Reply::Executed(Err(error("lost"))),
        ],
    );
    assert!(matches!(outcome, Some(Ok(()))));
}

#[test]
fn script_that_is_not_text_still_releases_the_lock() {
    let (asked, outcome) = run(
        NOT_TEXT,
        vec![applied(&["0000"]), done(), Reply::ClockStarted, granted(), executed()],
    );
    assert_eq!(asked.last().unwrap(), "release");
    match outcome {
        Some(Err(error)) => {
            assert_eq!(error.message(), "Migration file content is not valid UTF-8: 0001.surql");
        },
        _ => unreachable!(),
    }
}

#[test]
fn no_lock_no_scripts() {
    let (asked, outcome) = run(
        ENTRIES,
        vec![
            applied(&["0000"]),
            done(),
            Reply::ClockStarted,
            refused(),
            Reply::Elapsed { nanos: 61_000_000_000 },
        ],
    );
    assert_eq!(asked.last().unwrap(), "read");
    match outcome {
        Some(Err(error)) => assert_eq!(
            error.message(),
            "Failed to acquire migration lock: Timed out waiting for migration lock"
        ),
        _ => unreachable!(),
    }
    let (asked, outcome) = run(ENTRIES, vec![applied(&["0000"]), Reply::Done(Err(error("lost")))]);
    assert_eq!(asked.len(), 2);
    assert!(matches!(outcome, Some(Err(MigrationError::DBError { .. }))));
}

#[test]
fn unreadable_schema_ends_the_run() {
    let (asked, outcome) = run(ENTRIES, vec![Reply::Applied(Err(error("lost")))]);
    assert_eq!(asked.len(), 1);
    assert!(matches!(outcome, Some(Err(MigrationError::DBError { .. }))));
}

#[test]
fn run_ignores_what_it_did_not_ask_for() {
    let (_, outcome) = run(ENTRIES, vec![executed(), Reply::Slept, applied(&[]), Reply::Slept]);
    assert!(outcome.is_none());
}

#[test]
fn application_without_an_instance_id_only_connects() {
    let app = Application::new()
        .with_config(config(None))
        .with_migrations(Dir::new("", ENTRIES));
    let (asked, end) = migrate(app.run_migrations(), connected());
    assert_eq!(asked, strings(&["connect", "sign in", "select"]));
    assert_eq!(end, "done");
}

#[test]
fn application_runs_its_migrations() {
    let app = Application::new()
        .with_migrations(Dir::new("", ENTRIES))
        .with_config(config(Some("me")));
    let (asked, end) = migrate(
        app.run_migrations(),
        with(connected(), vec![applied(&[]), executed(), executed()]),
    );
    assert_eq!(asked.len(), 6);
    assert_eq!(asked[4], apply("0001"));
    assert_eq!(asked[5], apply("0002"));
    assert_eq!(end, "done");
}

#[test]
fn application_reports_what_stopped_its_migrations() {
    let app = Application::new()
        .with_config(config(Some("me")))
        .with_migrations(Dir::new("", ENTRIES));
    let (_, end) = migrate(app.run_migrations(), vec![Reply::Done(Err(error("refused")))]);
    assert_eq!(
        end,
        "Database error: Failed to connect to SurrealDB URL 'memory': refused"
    );
    let (_, end) = migrate(
        app.run_migrations(),
        with(connected(), vec![applied(&[]), Reply::Executed(Err(error("syntax")))]),
    );
    assert_eq!(end, "Migration script failed: 0001, syntax");
}

#[test]
fn held_lock_is_freed_by_force_only() {
    let app = Application::new()
        .with_config(config(None))
        .with_migrations(Dir::new("", ENTRIES));
    let (asked, end) = unlock(app.unlock(false), with(connected(), vec![locks(true)]));
    assert_eq!(asked, strings(&["connect", "sign in", "select", "locks"]));
    assert_eq!(end, "Database is locked. Use --force to unlock.");
    let (asked, end) = unlock(app.unlock(true), with(connected(), vec![locks(true), executed()]));
    assert_eq!(asked, strings(&["connect", "sign in", "select", "locks", "free"]));
    assert_eq!(end, "done");
}

#[test]
fn free_lock_is_left_alone() {
    let app = Application::new()
        .with_config(config(None))
        .with_migrations(Dir::new("", ENTRIES));
    for force in [false, true] {
        for reply in [locks(false), Reply::Locks(Ok(Ok(vec![])))] {
            let (asked, end) = unlock(app.unlock(force), with(connected(), vec![reply]));
            assert_eq!(asked.len(), 4);
            assert_eq!(end, "done");
        }
    }
}

#[test]
fn unlocking_fails_with_the_database() {
    let app = Application::new()
        .with_config(config(None))
        .with_migrations(Dir::new("", ENTRIES));
    let (_, end) =
        unlock(app.unlock(true), with(connected(), vec![Reply::Locks(Err(error("lost")))]));
    assert_eq!(end, "SurrealDB error: lost");
    let (_, end) = unlock(
        app.unlock(true),
        with(connected(), vec![locks(true), Reply::Executed(Ok(Err(error("odd"))))]),
    );
    assert_eq!(end, "Database error: Failed to unlock database migration lock: odd");
    let (_, end) = unlock(app.unlock(true), vec![done(), Reply::Done(Err(error("denied")))]);
    assert_eq!(end, "Database error: Failed to sign in to SurrealDB: denied");
    assert_eq!(MaintenanceError::Locked.message(), "Database is locked. Use --force to unlock.");
}

#[test]
fn start_without_migrations_and_routes() {
    let app = Application::new().with_config(config(None));
    let (asked, end) = start(app.start(), connected());
    assert_eq!(asked, strings(&["connect", "sign in", "select"]));
    assert_eq!(end, "done");
    let (_, end) = start(app.start(), vec![Reply::Done(Err(error("refused")))]);
    assert_eq!(
        end,
        "Failed to connect to database: Database error: Failed to connect to SurrealDB URL \
         'memory': refused"
    );
}

#[test]
fn start_checks_the_schema() {
    let app = Application::new()
        .with_config(config(None))
        .with_migrations(Dir::new("", ENTRIES));
    let (asked, end) = start(app.start(), with(connected(), vec![applied(&["0002"])]));
    assert_eq!(asked, strings(&["connect", "sign in", "select", "last applied"]));
    assert_eq!(end, "done");
    let (_, end) = start(app.start(), with(connected(), vec![applied(&["0001"])]));
    assert_eq!(end, "Database is not up to date");
    let (_, end) =
        start(app.start(), with(connected(), vec![Reply::Applied(Err(error("lost")))]));
    assert_eq!(
        end,
        "Failed to check database migrations: Database error during migration: lost"
    );
}

#[test]
fn start_serves_the_routes() {
    let app = Application::new().route("/a", 1u8).route("/b", 2u8).with_config(config(None));
    let served: Vec<(String, u8)> =
        app.router.0.iter().map(|route| (route.path.clone(), route.method_router)).collect();
    assert_eq!(served, vec![("/a".to_string(), 1), ("/b".to_string(), 2)]);
    let replies = with(connected(), vec![Reply::Bound(Ok(())), Reply::Served(Ok(()))]);
    let (asked, end) = start(app.start(), replies);
    assert_eq!(
        asked,
        strings(&["connect", "sign in", "select", "bind 0.0.0.0:8080", "serve /a /b"])
    );
    assert_eq!(end, "done");
}

#[test]
fn start_serves_the_routes_of_an_up_to_date_schema() {
    let app = Application::new()
        .with_config(config(None))
        .with_migrations(Dir::new("", ENTRIES))
        .route("/a", ());
    let replies = with(
        connected(),
        vec![applied(&["0002"]), Reply::Bound(Ok(())), Reply::Served(Ok(()))],
    );
    let (asked, end) = start(app.start(), replies);
    assert_eq!(
        asked,
        strings(&[
            "connect", "sign in", "select", "last applied", "bind 0.0.0.0:8080", "serve /a",
        ])
    );
    assert_eq!(end, "done");
    let (asked, end) = start(app.start(), with(connected(), vec![applied(&[])]));
    assert_eq!(asked.len(), 4);
    assert_eq!(end, "Database is not up to date");
}

#[test]
fn start_reports_what_stopped_the_server() {
    let app = Application::new().with_config(config(None)).route("/a", ());
    let (_, end) =
        start(app.start(), with(connected(), vec![Reply::Bound(Err("in use".to_string()))]));
    assert_eq!(end, "Failed to bind to address 0.0.0.0:8080: in use");
    let (_, end) = start(
        app.start(),
        with(connected(), vec![Reply::Bound(Ok(())), Reply::Served(Err("broken".to_string()))]),
    );
    assert_eq!(end, "Server error: broken");
    assert!(matches!(
        app.start().resume(Reply::Done(Err(error("no")))).outcome(),
        Ok(Err(StartError::Connection(_)))
    ));
}

#[test]
fn address_of_the_server() {
    for port in [0, 1, 80, 8080, 65535] {
        let server = ServerConfig { host: "localhost".to_string(), port };
        assert_eq!(address(&server), format!("localhost:{}", port));
    }
}

#[test]
fn two_instances_take_turns() {
    let ids = ["one", "two"];
    let mut runs: Vec<_> = ids
        .iter()
        .map(|id| {
            Some(Migrations::new(Dir::new("", ENTRIES)).run_migrations(id.to_string()))
        })
        .collect();
    let mut holder: Option<usize> = None;
    let mut seconds: u128 = 0;
    let mut sent = vec![];
    for step in 0..40 {
        let i = (step / 3) % 2;
        let run = match runs[i].take() {
            None => continue,
            Some(run) => run,
        };
        let reply = match run.request().unwrap() {
            Request::FetchApplied(_) => applied(&["0000"]),
            Request::Upsert(_) => done(),
            Request::StartClock => Reply::ClockStarted,
            Request::UpdateLock(_) => {
                if holder.is_none() {
                    holder = Some(i);
                    granted()
                } else {
                    refused()
                }
            },
            Request::ReadClock => Reply::Elapsed { nanos: seconds * 1_000_000_000 },
            Request::Sleep { .. } => {
                seconds += 1;
                Reply::Slept
            },
            Request::Execute(statement) => {
                if statement.sql.starts_with("BEGIN;") {
                    assert_eq!(holder, Some(i));
                    sent.push(i);
                } else if holder == Some(i) {
                    holder = None;
                }
                executed()
            },
            other => panic!("{:?}", other),
        };
        runs[i] = match run.resume(reply).outcome() {
            Ok(result) => {
                assert!(result.is_ok());
                None
            },
            Err(run) => Some(run),
        };
    }
    assert!(runs.iter().all(|run| run.is_none()));
    assert!(holder.is_none());
    assert_eq!(sent, vec![0, 0, 1, 1]);
}

#[test]
fn migrated_schema_starts() {
    let (asked, outcome) = run(ENTRIES, vec![applied(&[]), executed(), executed()]);
    assert!(matches!(outcome, Some(Ok(()))));
    assert_eq!(asked.last().unwrap(), &apply("0002"));
    let app = Application::new()
        .with_config(config(None))
        .with_migrations(Dir::new("", ENTRIES));
    let (_, end) = start(app.start(), with(connected(), vec![applied(&["0002"])]));
    assert_eq!(end, "done");
}

/// A database with a lock table of at most one record, and nothing else.
struct LockTable {
    lock: Option<(bool, Option<String>)>,
}

impl LockTable {
    fn row(&self) -> Option<SchemaLock> {
        self.lock.as_ref().map(|(locked, instance_id)| SchemaLock {
            locked: *locked,
            instance_id: instance_id.clone(),
            ..SchemaLock::default()
        })
    }

    fn perform(&mut self, request: Request) -> Reply {
        match request {
            Request::Upsert(_) => {
                self.lock.get_or_insert((false, None));
                done()
            },
            Request::StartClock => Reply::ClockStarted,
            Request::UpdateLock(statement) => match self.lock {
                Some((false, _)) => {
                    self.lock = Some((true, Some(instance(&statement.bindings))));
                    Reply::Lock(Ok(Ok(self.row())))
                },
                _ => refused(),
            },
            Request::Execute(statement) => {
                if statement.bindings.is_empty() {
                    self.lock = self.lock.take().map(|(_, id)| (false, id));
                } else if self.lock == Some((true, Some(instance(&statement.bindings)))) {
                    self.lock = Some((false, Some(instance(&statement.bindings))));
                }
                executed()
            },
            Request::FetchLocks(_) => Reply::Locks(Ok(Ok(self.row().into_iter().collect()))),
            other => panic!("{:?}", other),
        }
    }

    fn is_locked(&mut self) -> bool {
        match self.perform(Database::is_locked_request()) {
            Reply::Locks(reply) => Database::is_locked(reply).unwrap(),
            other => panic!("{:?}", other),
        }
    }

    fn take(&mut self, id: &str) {
        let mut attempt = Migrations::acquire_lock(id);
        while let Some(request) = attempt.request() {
            let reply = self.perform(request);
            attempt = attempt.resume(reply);
        }
        assert!(matches!(attempt.stage, LockStage::Finished(Ok(true))));
    }
}

fn instance(bindings: &[Binding]) -> String {
    match &bindings[1].value {
        Value::Text(id) => id.clone(),
        other => panic!("{:?}", other),
    }
}

#[test]
fn lock_is_found_as_it_was_left() {
    let mut table = LockTable { lock: None };
    assert!(!table.is_locked());
    table.take("me");
    assert!(table.is_locked());
    table.perform(Migrations::release_lock_request("other"));
    assert!(table.is_locked());
    table.perform(Migrations::release_lock_request("me"));
    assert!(!table.is_locked());
    table.take("other");
    assert!(table.is_locked());
    table.perform(Database::force_unlock_request());
    assert!(!table.is_locked());
}

#[test]
fn locked_lock_is_left_as_it_is() {
    for id in ["me", "other"] {
        let mut table = LockTable { lock: Some((true, Some("me".to_string()))) };
        let mut attempt = Migrations::acquire_lock(id);
        let mut seconds: u128 = 0;
        while let Some(request) = attempt.request() {
            let reply = match request {
                Request::ReadClock => Reply::Elapsed { nanos: seconds * 1_000_000_000 },
                Request::Sleep { .. } => {
                    seconds += 1;
                    Reply::Slept
                },
                request => table.perform(request),
            };
            attempt = attempt.resume(reply);
            assert_eq!(table.lock, Some((true, Some("me".to_string()))));
        }
        assert!(matches!(attempt.stage, LockStage::Finished(Ok(false))));
        assert_eq!(seconds, 61);
    }
}

#[test]
fn release_is_asked_for_once() {
    for release in [executed(), Reply::Executed(Err(error("lost")))] {
        let mut run = Migrations::new(Dir::new("", ENTRIES)).run_migrations("me".to_string());
        for reply in [
            applied(&["0000"]),
            done(),
            Reply::ClockStarted,
            granted(),
            executed(),
            executed(),
        ] {
            assert_ne!(short(run.request().unwrap()), "release");
            run = run.resume(reply);
        }
        assert_eq!(short(run.request().unwrap()), "release");
        run = run.resume(release);
        assert!(run.request().is_none());
    }
}

#[test]
fn instances_of_one_id_take_turns_too() {
    let mut table = LockTable { lock: None };
    table.take("me");
    let attempt = Migrations::acquire_lock("me").resume(done()).resume(Reply::ClockStarted);
    let reply = table.perform(attempt.request().unwrap());
    assert!(matches!(reply, Reply::Lock(Ok(Ok(None)))));
    table.perform(Migrations::release_lock_request("me"));
    let reply = table.perform(attempt.request().unwrap());
    assert!(matches!(reply, Reply::Lock(Ok(Ok(Some(_))))));
}
