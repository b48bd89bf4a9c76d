use journal_store::bootstrap::{
    bootstrap_from_file, bootstrap_from_url, bootstrap_step, build_db_url, join_path,
    parent_split, BootstrapEvent, BootstrapState,
};
use journal_store::errors::BootstrapError;

#[test]
fn parent_split_takes_last_separator() {
    assert_eq!(
        parent_split("data/journal/main.db"),
        Some(("data/journal".to_string(), "main.db".to_string()))
    );
    assert_eq!(parent_split("/main.db"), Some(("".to_string(), "main.db".to_string())));
    assert_eq!(parent_split("main.db"), None);
    assert_eq!(parent_split(""), None);
}

#[test]
fn join_path_inserts_one_separator() {
    assert_eq!(join_path("/home/me", "j.db"), "/home/me/j.db".to_string());
    assert_eq!(join_path("/", "j.db"), "/j.db".to_string());
    assert_eq!(join_path("", "j.db"), "/j.db".to_string());
}

#[test]
fn db_url_prefixes_the_path() {
    assert_eq!(build_db_url("/home/me/j.db"), "sqlite:///home/me/j.db".to_string());
}

#[test]
fn existing_file_bootstrap_reaches_ready() {
    let st = bootstrap_from_file("notes/j.db".to_string());
    assert_eq!(st, BootstrapState::ProbeFile { path: "notes/j.db".to_string() });

    let st = bootstrap_step(st, BootstrapEvent::FileProbed { exists: true });
    assert_eq!(st, BootstrapState::CanonicalizeFile { path: "notes/j.db".to_string() });

    let st = bootstrap_step(
        st,
        BootstrapEvent::Canonicalized { outcome: Ok("/home/me/notes/j.db".to_string()) },
    );
    assert_eq!(st, BootstrapState::ProbeDatabase {
        db_url: "sqlite:///home/me/notes/j.db".to_string(),
    });

    // The database already exists: it is not created again.
    let st = bootstrap_step(st, BootstrapEvent::DatabaseProbed { outcome: Ok(true) });
    assert_eq!(st, BootstrapState::Connect { db_url: "sqlite:///home/me/notes/j.db".to_string() });

    let st = bootstrap_step(st, BootstrapEvent::Connected { outcome: Ok(()) });
    assert_eq!(st, BootstrapState::Migrate { db_url: "sqlite:///home/me/notes/j.db".to_string() });

    let st = bootstrap_step(st, BootstrapEvent::Migrated { outcome: Ok(()) });
    assert_eq!(st, BootstrapState::Ready { db_url: "sqlite:///home/me/notes/j.db".to_string() });
}

#[test]
fn missing_file_bootstrap_prepares_parent_and_creates_database() {
    let st = bootstrap_from_file("notes/j.db".to_string());
    let st = bootstrap_step(st, BootstrapEvent::FileProbed { exists: false });
    assert_eq!(st, BootstrapState::PrepareParent {
        parent: "notes".to_string(),
        name: "j.db".to_string(),
    });

    let st = bootstrap_step(st, BootstrapEvent::DirectoryMade { outcome: Ok(()) });
    assert_eq!(st, BootstrapState::CanonicalizeParent {
        parent: "notes".to_string(),
        name: "j.db".to_string(),
    });

    let st = bootstrap_step(
        st,
        BootstrapEvent::Canonicalized { outcome: Ok("/home/me/notes".to_string()) },
    );
    assert_eq!(st, BootstrapState::ProbeDatabase {
        db_url: "sqlite:///home/me/notes/j.db".to_string(),
    });

    let st = bootstrap_step(st, BootstrapEvent::DatabaseProbed { outcome: Ok(false) });
    assert_eq!(st, BootstrapState::CreateDatabase {
        db_url: "sqlite:///home/me/notes/j.db".to_string(),
    });

    let st = bootstrap_step(st, BootstrapEvent::DatabaseCreated { outcome: Ok(()) });
    assert_eq!(st, BootstrapState::Connect { db_url: "sqlite:///home/me/notes/j.db".to_string() });
}

#[test]
fn bare_file_name_skips_parent_preparation() {
    let st = bootstrap_from_file("j.db".to_string());
    let st = bootstrap_step(st, BootstrapEvent::FileProbed { exists: false });
    assert_eq!(st, BootstrapState::ProbeDatabase { db_url: "sqlite://j.db".to_string() });
}

#[test]
fn url_bootstrap_starts_at_database_probe() {
    let st = bootstrap_from_url("sqlite://x.db".to_string());
    assert_eq!(st, BootstrapState::ProbeDatabase { db_url: "sqlite://x.db".to_string() });
}

#[test]
fn each_failure_maps_to_its_bootstrap_error() {
    let cases = [
        (
            BootstrapState::CanonicalizeFile { path: "p".to_string() },
            BootstrapEvent::Canonicalized { outcome: Err("no such dir".to_string()) },
            BootstrapError::PathResolution("no such dir".to_string()),
        ),
        (
            BootstrapState::PrepareParent { parent: "p".to_string(), name: "n".to_string() },
            BootstrapEvent::DirectoryMade { outcome: Err("denied".to_string()) },
            BootstrapError::DirCreation("denied".to_string()),
        ),
        (
            BootstrapState::ProbeDatabase { db_url: "u".to_string() },
            BootstrapEvent::DatabaseProbed { outcome: Err("bad url".to_string()) },
            BootstrapError::DatabaseCreation("bad url".to_string()),
        ),
        (
            BootstrapState::CreateDatabase { db_url: "u".to_string() },
            BootstrapEvent::DatabaseCreated { outcome: Err("readonly fs".to_string()) },
            BootstrapError::DatabaseCreation("readonly fs".to_string()),
        ),
        (
            BootstrapState::Connect { db_url: "u".to_string() },
            BootstrapEvent::Connected { outcome: Err("refused".to_string()) },
            BootstrapError::Connection("refused".to_string()),
        ),
        (
            BootstrapState::Migrate { db_url: "u".to_string() },
            BootstrapEvent::Migrated { outcome: Err("bad script".to_string()) },
            BootstrapError::Migration("bad script".to_string()),
        ),
    ];
    for (state, event, expected) in cases {
        let st = bootstrap_step(state, event);
        assert_eq!(st, BootstrapState::Failed { error: expected });
    }
}

#[test]
fn second_bootstrap_over_same_database_repeats_only_idempotent_steps() {
    // The database now exists, so a second bootstrap probes it, skips
    // creation, and re-runs only the connection and the idempotent
    // migrations.
    let st = bootstrap_from_url("sqlite:///home/me/notes/j.db".to_string());
    let st = bootstrap_step(st, BootstrapEvent::DatabaseProbed { outcome: Ok(true) });
    assert_eq!(st, BootstrapState::Connect { db_url: "sqlite:///home/me/notes/j.db".to_string() });
    let st = bootstrap_step(st, BootstrapEvent::Connected { outcome: Ok(()) });
    let st = bootstrap_step(st, BootstrapEvent::Migrated { outcome: Ok(()) });
    assert_eq!(st, BootstrapState::Ready { db_url: "sqlite:///home/me/notes/j.db".to_string() });
}

#[test]
fn failed_is_terminal() {
    let failed = BootstrapState::Failed {
        error: BootstrapError::Connection("refused".to_string()),
    };
    let st = bootstrap_step(failed, BootstrapEvent::Migrated { outcome: Ok(()) });
    assert_eq!(st, BootstrapState::Failed {
        error: BootstrapError::Connection("refused".to_string()),
    });
}
