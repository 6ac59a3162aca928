use include_dir::{Dir, DirEntry, File};
use keystone::db::embedded::EmbeddedFile;
use keystone::db::lock::{LOCK_MAX_WAIT_NANOS, LOCK_RETRY_DELAY_SECS};
use keystone::db::migrations::{
    AppliedMigration, MigrationError, Migrations, SchemaLock, LOCK_ID,
};
use keystone::db::pending::{pending_scripts, Script};
use keystone::db::{DBError, SurrealError};
use keystone::path::{name_of, stem_and_extension};
use keystone::text::{comes_before, eq_ignore_ascii_case, to_decimal};

const ENTRIES: &[DirEntry<'static>] = &[
    DirEntry::File(File::new("0003_roles.surql", b"DEFINE TABLE role;")),
    DirEntry::Dir(Dir::new(
        "old",
        &[DirEntry::File(File::new("old/0009_hidden.surql", b"DEFINE TABLE hidden;"))],
    )),
    DirEntry::File(File::new("README.md", b"# Migrations")),
    DirEntry::File(File::new("0001_initial.surql", "DEFINE TABLE ü;".as_bytes())),
    DirEntry::File(File::new("0002_users.surql", b"DEFINE TABLE user;")),
];

const NOT_TEXT: &[DirEntry<'static>] = &[
    DirEntry::File(File::new("0002.surql", b"\xff\xfe")),
    DirEntry::File(File::new("0001.surql", b"DEFINE TABLE a;")),
    DirEntry::File(File::new("0003.surql", b"\xc3")),
    DirEntry::File(File::new("0002.txt", b"\xff")),
];

fn migrations() -> Migrations {
    Migrations::new(Dir::new("", ENTRIES))
}

fn pairs(scripts: Vec<Script>) -> Vec<(String, String)> {
    scripts.into_iter().map(|script| (script.id, script.content)).collect()
}

fn pair(id: &str, content: &str) -> (String, String) {
    (id.to_string(), content.to_string())
}

fn file(path: &str, text: &str) -> EmbeddedFile {
    EmbeddedFile { path: path.to_string(), text: Some(text.to_string()) }
}

fn applied(id: &str) -> Vec<AppliedMigration> {
    vec![AppliedMigration { migration: id.to_string() }]
}

fn error(message: &str) -> SurrealError {
    SurrealError { message: message.to_string() }
}

#[test]
fn test_migration_error_display() {
    let db_error = MigrationError::LockFailed("Test lock error".to_string());
    assert_eq!(db_error.message(), "Failed to acquire migration lock: Test lock error");

    let invalid_id_error = MigrationError::InvalidId("invalid_file.txt".to_string());
    assert_eq!(
        invalid_id_error.message(),
        "Could not parse migration ID from filename: invalid_file.txt"
    );

    let invalid_utf8_error = MigrationError::InvalidUtf8("file.sql".to_string());
    assert_eq!(
        invalid_utf8_error.message(),
        "Migration file content is not valid UTF-8: file.sql"
    );
}

#[test]
fn test_schema_lock_default() {
    let lock = SchemaLock::default();
    assert!(!lock.locked);
    assert!(lock.locked_at.is_none());
    assert!(lock.instance_id.is_none());
    assert_eq!(lock.id.table, "schema_lock");
    assert_eq!(lock.id.key, "singleton");
}

#[test]
fn test_migration_id_parsing() {
    // Test valid migration filenames
    let valid_files = vec!["001_initial.sql", "002_add_users.sql", "999_final_migration.sql"];

    for filename in valid_files {
        let id_part = filename.split('_').next().unwrap();
        assert!(id_part.parse::<u32>().is_ok());
        // The id of a migration is the whole stem, whatever it begins with.
        let (stem, extension) = stem_and_extension(filename).unwrap();
        assert_eq!(format!("{}.sql", stem), filename);
        assert_eq!(extension, Some("sql"));
    }
}

#[test]
fn test_invalid_migration_filenames() {
    let invalid_files = vec!["invalid.sql", "abc_migration.sql", "migration_001.sql", "001.txt"];

    for filename in invalid_files {
        let id_part = filename.split('_').next().unwrap();
        // These should either fail to parse as numbers or not follow the pattern
        let is_valid_id = id_part.parse::<u32>().is_ok() && filename.ends_with(".sql");
        if filename == "001.txt" {
            assert!(!is_valid_id); // Wrong extension
        }
        // Only `.surql` files are migrations.
        let files = vec![file(filename, "DEFINE TABLE x;")];
        assert!(pending_scripts(&files, &None).unwrap().is_empty());
    }
}

#[test]
fn test_lock_constants() {
    assert_eq!(LOCK_ID.0, "schema_lock");
    assert_eq!(LOCK_ID.1, "singleton");
}

#[test]
fn test_migration_error_from_db_error() {
    let db_error = DBError::Database("Test error".to_string());
    let migration_error = MigrationError::SchemaError(Box::new(db_error));

    assert!(migration_error.message().contains("Failed to create table from Schema"));
}

#[test]
fn test_migration_script_failed_error() {
    let surreal_error = SurrealError { message: "Script failed".to_string() };
    let migration_error = MigrationError::ScriptFailed {
        id: "001_test".to_string(),
        source: Box::new(surreal_error),
    };

    let error_msg = migration_error.message();
    assert!(error_msg.contains("Migration script failed: 001_test"));
}

#[test]
fn remaining_migration_error_messages() {
    let failed = MigrationError::DBError { source: Box::new(error("lost")) };
    assert_eq!(failed.message(), "Database error during migration: lost");
    let failed = MigrationError::from(Box::new(DBError::NotFound("table".to_string())));
    assert_eq!(failed.message(), "Failed to create table from Schema: Item not found: table");
    let failed =
        MigrationError::ScriptFailed { id: "0001".to_string(), source: Box::new(error("syntax")) };
    assert_eq!(failed.message(), "Migration script failed: 0001, syntax");
}

#[test]
fn waiting_for_the_lock() {
    assert_eq!(LOCK_RETRY_DELAY_SECS, 1);
    assert_eq!(LOCK_MAX_WAIT_NANOS, 60_000_000_000);
}

#[test]
fn all_scripts_are_pending_on_a_new_schema() {
    assert_eq!(
        pairs(migrations().get_pending_migrations(&None).unwrap()),
        vec![
            pair("0001_initial", "DEFINE TABLE ü;"),
            pair("0002_users", "DEFINE TABLE user;"),
            pair("0003_roles", "DEFINE TABLE role;"),
        ]
    );
}

#[test]
fn only_newer_scripts_are_pending() {
    let pending = |last: &str| {
        pairs(migrations().get_pending_migrations(&Some(last.to_string())).unwrap())
    };
    assert_eq!(
        pending("0001_initial"),
        vec![pair("0002_users", "DEFINE TABLE user;"), pair("0003_roles", "DEFINE TABLE role;")]
    );
    assert_eq!(pending("0002"), pending("0001_initial"));
    assert_eq!(pending("0003_roles"), vec![]);
    assert_eq!(pending("1"), vec![]);
    assert_eq!(pending("").len(), 3);
}

#[test]
fn copies_hold_the_same_migrations() {
    let copy = migrations().clone();
    assert_eq!(
        pairs(copy.get_pending_migrations(&None).unwrap()),
        pairs(migrations().get_pending_migrations(&None).unwrap())
    );
}

#[test]
fn first_script_that_is_not_text_is_reported() {
    let migrations = Migrations::new(Dir::new("", NOT_TEXT));
    let reported = |last: Option<&str>| {
        migrations.get_pending_migrations(&last.map(|id| id.to_string())).unwrap_err().message()
    };
    assert_eq!(reported(None), "Migration file content is not valid UTF-8: 0002.surql");
    assert_eq!(reported(Some("0001")), "Migration file content is not valid UTF-8: 0002.surql");
    assert_eq!(reported(Some("0002")), "Migration file content is not valid UTF-8: 0003.surql");
    assert!(migrations.get_pending_migrations(&Some("0003".to_string())).unwrap().is_empty());
}

#[test]
fn scripts_of_one_id_keep_their_order() {
    let files = vec![
        file("b/1.surql", "first"),
        file("a/2.surql", "last"),
        file("a/1.surql", "second"),
        file("0.surql", "zero"),
    ];
    assert_eq!(
        pairs(pending_scripts(&files, &None).unwrap()),
        vec![pair("0", "zero"), pair("1", "first"), pair("1", "second"), pair("2", "last")]
    );
}

#[test]
fn ids_are_ordered_as_strings() {
    let files = vec![file("10.surql", "ten"), file("9.surql", "nine"), file("1é.surql", "one")];
    assert_eq!(
        pairs(pending_scripts(&files, &None).unwrap()),
        vec![pair("10", "ten"), pair("1é", "one"), pair("9", "nine")]
    );
}

#[test]
fn extension_is_matched_exactly() {
    let files = vec![
        file("1.SURQL", ""),
        file("2.surql.bak", ""),
        file(".surql", ""),
        file("surql", ""),
        file("3.surqlx", ""),
        file("4..surql", "kept"),
    ];
    assert_eq!(pairs(pending_scripts(&files, &None).unwrap()), vec![pair("4.", "kept")]);
}

#[test]
fn last_applied_migration() {
    let last = |reply| Migrations::get_last_applied_migration(reply);
    assert_eq!(last(Ok(Ok(vec![]))).unwrap(), None);
    assert_eq!(last(Ok(Ok(applied("0002")))).unwrap(), Some("0002".to_string()));
    let two = vec![
        AppliedMigration { migration: "0007".to_string() },
        AppliedMigration { migration: "0008".to_string() },
    ];
    assert_eq!(last(Ok(Ok(two))).unwrap(), Some("0007".to_string()));
    for reply in [Ok(Err(error("odd"))), Err(error("odd"))] {
        assert_eq!(
            last(reply).unwrap_err().message(),
            "Database error during migration: odd"
        );
    }
    assert_eq!(
        format!("{:?}", Migrations::get_last_applied_migration_request()),
        "FetchApplied(Statement { sql: \"SELECT * FROM schema_migration ORDER BY applied_at DESC \
         LIMIT 1;\", bindings: [] })"
    );
}

#[test]
fn pending_or_not() {
    assert!(migrations().has_pending_migrations(Ok(Ok(vec![]))).unwrap());
    assert!(migrations().has_pending_migrations(Ok(Ok(applied("0002_users")))).unwrap());
    assert!(!migrations().has_pending_migrations(Ok(Ok(applied("0003_roles")))).unwrap());
    assert!(matches!(
        migrations().has_pending_migrations(Err(error("lost"))),
        Err(MigrationError::DBError { .. })
    ));
    assert!(matches!(
        Migrations::new(Dir::new("", NOT_TEXT)).has_pending_migrations(Ok(Ok(vec![]))),
        Err(MigrationError::InvalidUtf8(_))
    ));
}

#[test]
fn release_of_the_lock() {
    assert_eq!(
        format!("{:?}", Migrations::release_lock_request("me")),
        "Execute(Statement { sql: \"\\n            UPDATE $lock_id SET locked = false WHERE \
         locked = true AND instance_id = $instance_id;\\n        \", bindings: [Binding { name: \
         \"lock_id\", value: Record(RecordKey { table: \"schema_lock\", key: \"singleton\" }) }, \
         Binding { name: \"instance_id\", value: Text(\"me\") }] })"
    );
    assert!(Migrations::release_lock(Ok(Ok(()))).is_ok());
    assert!(Migrations::release_lock(Ok(Err(error("ignored")))).is_ok());
    assert!(matches!(
        Migrations::release_lock(Err(error("lost"))),
        Err(MigrationError::DBError { source }) if source.message == "lost"
    ));
}

#[test]
fn names_stems_and_extensions() {
    for path in [
        "", "/", "//", ".", "..", "a", "a.b", "a.b.c", ".a", ".a.b", "a.", "..a", "...", "a/b.c",
        "a.b/c", "a/b/", "a/b.c//", "a/.", "a/..", "a/../b.c", "/x.surql", "ü/ö.ä", "a/./", "./a.b",
        "a//b.c", "./.", "a/b.c/./.",
    ] {
        let std_path = std::path::Path::new(path);
        let expected = std_path.file_name().map(|s| s.to_string_lossy().to_string());
        assert_eq!(name_of(path).map(|s| s.to_string()), expected);
        let (stem, extension) = match stem_and_extension(path) {
            None => (None, None),
            Some((stem, extension)) => {
                (Some(stem.to_string()), extension.map(|s| s.to_string()))
            },
        };
        assert_eq!(stem, std_path.file_stem().map(|s| s.to_string_lossy().to_string()));
        assert_eq!(extension, std_path.extension().map(|s| s.to_string_lossy().to_string()));
    }
}

#[test]
fn order_of_strings() {
    let words = ["", "0", "00", "01", "1", "10", "9", "A", "a", "aa", "z", "é", "€", "\u{ffff}", "😀"];
    for (i, a) in words.iter().enumerate() {
        for (j, b) in words.iter().enumerate() {
            assert_eq!(comes_before(a, b), i < j);
            assert_eq!(comes_before(a, b), a < b);
        }
    }
}

#[test]
fn case_of_ascii_letters() {
    for (a, b) in [("aZ", "Az"), ("a", "b"), ("a", "ab"), ("", ""), ("É", "é"), ("@", "`"), ("[", "{")] {
        assert_eq!(eq_ignore_ascii_case(a, b), a.eq_ignore_ascii_case(b));
    }
}

#[test]
fn numbers_in_base_ten() {
    for n in [0, 7, 10, 80, 443, 999, 1000, 8080, 65535] {
        assert_eq!(to_decimal(n), n.to_string());
    }
}
