//! The decision core of database bootstrap.
//!
//! Producing a ready store from a file path takes a fixed sequence of
//! decisions around operations only the operating system and the database
//! engine can perform: probe the file, canonicalize it (or create and
//! canonicalize its parent directory and rejoin the file name), build the
//! connection string, probe for the database, create it if missing, connect,
//! and apply the pending schema migrations in order.
//!
//! The decisions are verified here as a state machine: each
//! [`BootstrapState`] names the one outside action to perform next, an I/O
//! shell performs it and reports a [`BootstrapEvent`], and [`bootstrap_step`]
//! chooses the next state. [`step_rel`] pins every transition down, so what
//! the shell contributes is only the outcomes, never a decision. Any failure
//! ends the machine in [`BootstrapState::Failed`], which is terminal: a
//! store is never produced from a partially bootstrapped database.
//!
//! The pure string work (splitting a path at its last separator, joining a
//! canonical directory to a file name, building the connection string) is
//! verified below as well.

use vstd::prelude::*;
use vstd::string::StrSliceExecFns;
use vstd::string::StringExecFns;

use crate::errors::BootstrapError;

verus! {

/// Index of the last path separator in `s`, if any.
pub open spec fn last_slash(s: Seq<char>) -> Option<int>
    decreases s.len(),
{
    if s.len() == 0 {
        None
    } else if s[s.len() - 1] == '/' {
        Some(s.len() - 1)
    } else {
        last_slash(s.drop_last())
    }
}

/// `last_slash` finds a separator that nothing follows.
proof fn lemma_last_slash_at(s: Seq<char>, i: int)
    requires
        0 <= i < s.len(),
        s[i] == '/',
        forall|k: int| i < k < s.len() ==> s[k] != '/',
    ensures
        last_slash(s) == Some(i),
    decreases s.len(),
{
    if i < s.len() - 1 {
        assert(forall|k: int| i < k < s.drop_last().len() ==> s.drop_last()[k] != '/');
        lemma_last_slash_at(s.drop_last(), i);
    }
}

/// A string without separators has no last separator.
proof fn lemma_last_slash_none(s: Seq<char>)
    requires
        forall|k: int| 0 <= k < s.len() ==> s[k] != '/',
    ensures
        last_slash(s) is None,
    decreases s.len(),
{
    if s.len() > 0 {
        lemma_last_slash_none(s.drop_last());
    }
}

/// Splits a path at its last separator into the parent directory and the
/// file name; `None` when the path has no separator.
pub fn parent_split(path: &str) -> (r: Option<(String, String)>)
    ensures
        (r is Some) <==> (last_slash(path@) is Some),
        r matches Some(pn) ==> pn.0@ == path@.subrange(0, last_slash(path@)->Some_0) && pn.1@
            == path@.subrange(last_slash(path@)->Some_0 + 1, path@.len() as int),
{
    let n = path.unicode_len();
    let mut j: usize = n;
    while j > 0
        invariant
            j <= n,
            n == path@.len(),
            forall|k: int| j <= k < n ==> path@[k] != '/',
        decreases j,
    {
        if path.get_char(j - 1) == '/' {
            let i = j - 1;
            proof {
                lemma_last_slash_at(path@, i as int);
            }
            let parent = path.substring_char(0, i).to_owned();
            let name = path.substring_char(i + 1, n).to_owned();
            return Some((parent, name));
        }
        j = j - 1;
    }
    proof {
        lemma_last_slash_none(path@);
    }
    None
}

/// A canonical directory joined to a file name: a separator goes between
/// them unless the directory already ends in one (the file system root
/// does).
pub open spec fn joined(dir: Seq<char>, name: Seq<char>) -> Seq<char> {
    if dir.len() > 0 && dir[dir.len() - 1] == '/' {
        dir + name
    } else {
        dir + "/"@ + name
    }
}

/// Joins a directory path and a file name.
pub fn join_path(dir: &str, name: &str) -> (r: String)
    ensures
        r@ == joined(dir@, name@),
{
    let n = dir.unicode_len();
    let mut out = dir.to_owned();
    if n == 0 || dir.get_char(n - 1) != '/' {
        out.append("/");
    }
    out.append(name);
    out
}

/// The connection string addressing the database file at `path`.
pub open spec fn db_url_of(path: Seq<char>) -> Seq<char> {
    "sqlite://"@ + path
}

/// Builds the connection string addressing the database file at `path`.
pub fn build_db_url(path: &str) -> (r: String)
    ensures
        r@ == db_url_of(path@),
{
    let mut out = "sqlite://".to_owned();
    out.append(path);
    out
}

/// One state of the bootstrap machine. Every non-terminal state names the
/// single outside action to perform next; [`Ready`](Self::Ready) and
/// [`Failed`](Self::Failed) are terminal.
#[derive(Debug, PartialEq, Eq)]
pub enum BootstrapState {
    /// Ask the file system whether the database file exists.
    ProbeFile { path: String },
    /// Resolve the existing file to an absolute, canonical path.
    CanonicalizeFile { path: String },
    /// Create the missing file's parent directory (and any missing
    /// ancestors).
    PrepareParent { parent: String, name: String },
    /// Resolve the now-existing parent directory to a canonical path.
    CanonicalizeParent { parent: String, name: String },
    /// Ask the engine whether a database exists at the address.
    ProbeDatabase { db_url: String },
    /// Create the missing database.
    CreateDatabase { db_url: String },
    /// Open a pooled connection.
    Connect { db_url: String },
    /// Apply the pending schema migrations, in order.
    Migrate { db_url: String },
    /// Bootstrap finished: a store handle over `db_url` may be produced.
    Ready { db_url: String },
    /// Bootstrap failed; no store is produced.
    Failed { error: BootstrapError },
}

/// The reported outcome of one outside action; error text is the underlying
/// cause, preserved for diagnostics.
#[derive(Debug, PartialEq, Eq)]
pub enum BootstrapEvent {
    FileProbed { exists: bool },
    Canonicalized { outcome: Result<String, String> },
    DirectoryMade { outcome: Result<(), String> },
    DatabaseProbed { outcome: Result<bool, String> },
    DatabaseCreated { outcome: Result<(), String> },
    Connected { outcome: Result<(), String> },
    Migrated { outcome: Result<(), String> },
}

/// The transition relation of the bootstrap machine: exactly which state
/// follows `pre` on `ev`. An event that does not answer `pre`'s action (and
/// any event in a terminal state) leaves the state unchanged.
pub open spec fn step_rel(pre: BootstrapState, ev: BootstrapEvent, post: BootstrapState) -> bool {
    match (pre, ev) {
        (BootstrapState::ProbeFile { path }, BootstrapEvent::FileProbed { exists }) => {
            if exists {
                post matches BootstrapState::CanonicalizeFile { path: p } && p@ == path@
            } else {
                match last_slash(path@) {
                    Some(i) => post matches BootstrapState::PrepareParent { parent, name }
                        && parent@ == path@.subrange(0, i) && name@ == path@.subrange(
                        i + 1,
                        path@.len() as int,
                    ),
                    None => post matches BootstrapState::ProbeDatabase { db_url } && db_url@
                        == db_url_of(path@),
                }
            }
        },
        (
            BootstrapState::CanonicalizeFile { path },
            BootstrapEvent::Canonicalized { outcome },
        ) => match outcome {
            Ok(full) => post matches BootstrapState::ProbeDatabase { db_url } && db_url@
                == db_url_of(full@),
            Err(cause) => post == (BootstrapState::Failed {
                error: BootstrapError::PathResolution(cause),
            }),
        },
        (
            BootstrapState::PrepareParent { parent, name },
            BootstrapEvent::DirectoryMade { outcome },
        ) => match outcome {
            Ok(_) => post matches BootstrapState::CanonicalizeParent { parent: p, name: n } && p@
                == parent@ && n@ == name@,
            Err(cause) => post == (BootstrapState::Failed {
                error: BootstrapError::DirCreation(cause),
            }),
        },
        (
            BootstrapState::CanonicalizeParent { parent, name },
            BootstrapEvent::Canonicalized { outcome },
        ) => match outcome {
            Ok(full) => post matches BootstrapState::ProbeDatabase { db_url } && db_url@
                == db_url_of(joined(full@, name@)),
            Err(cause) => post == (BootstrapState::Failed {
                error: BootstrapError::PathResolution(cause),
            }),
        },
        (
            BootstrapState::ProbeDatabase { db_url },
            BootstrapEvent::DatabaseProbed { outcome },
        ) => match outcome {
            Ok(true) => post matches BootstrapState::Connect { db_url: u } && u@ == db_url@,
            Ok(false) => post matches BootstrapState::CreateDatabase { db_url: u } && u@
                == db_url@,
            Err(cause) => post == (BootstrapState::Failed {
                error: BootstrapError::DatabaseCreation(cause),
            }),
        },
        (
            BootstrapState::CreateDatabase { db_url },
            BootstrapEvent::DatabaseCreated { outcome },
        ) => match outcome {
            Ok(_) => post matches BootstrapState::Connect { db_url: u } && u@ == db_url@,
            Err(cause) => post == (BootstrapState::Failed {
                error: BootstrapError::DatabaseCreation(cause),
            }),
        },
        (BootstrapState::Connect { db_url }, BootstrapEvent::Connected { outcome }) => match
        outcome {
            Ok(_) => post matches BootstrapState::Migrate { db_url: u } && u@ == db_url@,
            Err(cause) => post == (BootstrapState::Failed {
                error: BootstrapError::Connection(cause),
            }),
        },
        (BootstrapState::Migrate { db_url }, BootstrapEvent::Migrated { outcome }) => match
        outcome {
            Ok(_) => post matches BootstrapState::Ready { db_url: u } && u@ == db_url@,
            Err(cause) => post == (BootstrapState::Failed {
                error: BootstrapError::Migration(cause),
            }),
        },
        (pre_other, _) => post == pre_other,
    }
}

/// The first state of a bootstrap from a database file path.
pub fn bootstrap_from_file(path: String) -> (r: BootstrapState)
    ensures
        r == (BootstrapState::ProbeFile { path }),
{
    BootstrapState::ProbeFile { path }
}

/// The first state of a bootstrap from a raw connection string.
pub fn bootstrap_from_url(db_url: String) -> (r: BootstrapState)
    ensures
        r == (BootstrapState::ProbeDatabase { db_url }),
{
    BootstrapState::ProbeDatabase { db_url }
}

/// Advances the bootstrap machine by one reported outcome.
pub fn bootstrap_step(state: BootstrapState, event: BootstrapEvent) -> (r: BootstrapState)
    ensures
        step_rel(state, event, r),
{
    match (state, event) {
        (BootstrapState::ProbeFile { path }, BootstrapEvent::FileProbed { exists }) => {
            if exists {
                BootstrapState::CanonicalizeFile { path }
            } else {
                match parent_split(path.as_str()) {
                    Some((parent, name)) => BootstrapState::PrepareParent { parent, name },
                    None => BootstrapState::ProbeDatabase { db_url: build_db_url(path.as_str()) },
                }
            }
        },
        (
            BootstrapState::CanonicalizeFile { path: _ },
            BootstrapEvent::Canonicalized { outcome },
        ) => match outcome {
            Ok(full) => BootstrapState::ProbeDatabase { db_url: build_db_url(full.as_str()) },
            Err(cause) => BootstrapState::Failed { error: BootstrapError::PathResolution(cause) },
        },
        (
            BootstrapState::PrepareParent { parent, name },
            BootstrapEvent::DirectoryMade { outcome },
        ) => match outcome {
            Ok(_) => BootstrapState::CanonicalizeParent { parent, name },
            Err(cause) => BootstrapState::Failed { error: BootstrapError::DirCreation(cause) },
        },
        (
            BootstrapState::CanonicalizeParent { parent: _, name },
            BootstrapEvent::Canonicalized { outcome },
        ) => match outcome {
            Ok(full) => {
                let target = join_path(full.as_str(), name.as_str());
                BootstrapState::ProbeDatabase { db_url: build_db_url(target.as_str()) }
            },
            Err(cause) => BootstrapState::Failed { error: BootstrapError::PathResolution(cause) },
        },
        (
            BootstrapState::ProbeDatabase { db_url },
            BootstrapEvent::DatabaseProbed { outcome },
        ) => match outcome {
            Ok(true) => BootstrapState::Connect { db_url },
            Ok(false) => BootstrapState::CreateDatabase { db_url },
            Err(cause) => BootstrapState::Failed {
                error: BootstrapError::DatabaseCreation(cause),
            },
        },
        (
            BootstrapState::CreateDatabase { db_url },
            BootstrapEvent::DatabaseCreated { outcome },
        ) => match outcome {
            Ok(_) => BootstrapState::Connect { db_url },
            Err(cause) => BootstrapState::Failed {
                error: BootstrapError::DatabaseCreation(cause),
            },
        },
        (BootstrapState::Connect { db_url }, BootstrapEvent::Connected { outcome }) => match
        outcome {
            Ok(_) => BootstrapState::Migrate { db_url },
            Err(cause) => BootstrapState::Failed { error: BootstrapError::Connection(cause) },
        },
        (BootstrapState::Migrate { db_url }, BootstrapEvent::Migrated { outcome }) => match
        outcome {
            Ok(_) => BootstrapState::Ready { db_url },
            Err(cause) => BootstrapState::Failed { error: BootstrapError::Migration(cause) },
        },
        (other, _) => other,
    }
}

/// Multi-step reachability: `post` follows from `pre` by the reported
/// outcomes `evs`, applied in order.
pub open spec fn runs_to(
    pre: BootstrapState,
    evs: Seq<BootstrapEvent>,
    post: BootstrapState,
) -> bool
    decreases evs.len(),
{
    if evs.len() == 0 {
        post == pre
    } else {
        exists|mid: BootstrapState|
            #[trigger] step_rel(pre, evs[0], mid) && runs_to(mid, evs.skip(1), post)
    }
}

/// Whether `ev` reports a successfully applied migration set.
pub open spec fn is_successful_migration(ev: BootstrapEvent) -> bool {
    ev matches BootstrapEvent::Migrated { outcome } && outcome is Ok
}

/// Whether `ev` reports a successfully created database.
pub open spec fn is_successful_creation(ev: BootstrapEvent) -> bool {
    ev matches BootstrapEvent::DatabaseCreated { outcome } && outcome is Ok
}

/// An existing database is never re-created: probing and finding one moves
/// straight to connecting, so a second bootstrap over the same database
/// repeats only the idempotent steps.
pub proof fn lemma_existing_database_not_recreated(
    url: String,
    ev: BootstrapEvent,
    post: BootstrapState,
)
    requires
        ev == (BootstrapEvent::DatabaseProbed { outcome: Ok(true) }),
        step_rel(BootstrapState::ProbeDatabase { db_url: url }, ev, post),
    ensures
        post matches BootstrapState::Connect { db_url } && db_url@ == url@,
        !(post matches BootstrapState::CreateDatabase { .. }),
{
}

/// A missing database is created before anything connects to it.
pub proof fn lemma_missing_database_created(url: String, ev: BootstrapEvent, post: BootstrapState)
    requires
        ev == (BootstrapEvent::DatabaseProbed { outcome: Ok(false) }),
        step_rel(BootstrapState::ProbeDatabase { db_url: url }, ev, post),
    ensures
        post matches BootstrapState::CreateDatabase { db_url } && db_url@ == url@,
{
}

/// A missing file's parent directory is prepared before the database is
/// addressed: the machine moves to directory creation, carrying exactly the
/// parent path and file name split at the last separator.
pub proof fn lemma_missing_file_prepares_parent(
    path: String,
    ev: BootstrapEvent,
    post: BootstrapState,
)
    requires
        ev == (BootstrapEvent::FileProbed { exists: false }),
        last_slash(path@) is Some,
        step_rel(BootstrapState::ProbeFile { path }, ev, post),
    ensures
        post matches BootstrapState::PrepareParent { parent, name } && parent@ == path@.subrange(
            0,
            last_slash(path@)->Some_0,
        ) && name@ == path@.subrange(last_slash(path@)->Some_0 + 1, path@.len() as int),
{
}

/// The machine reaches `Ready` only by a successful migration step: no
/// bootstrap completes without the schema brought up to date.
pub proof fn lemma_ready_only_after_migration(
    pre: BootstrapState,
    ev: BootstrapEvent,
    post: BootstrapState,
)
    requires
        step_rel(pre, ev, post),
        post matches BootstrapState::Ready { .. },
        !(pre matches BootstrapState::Ready { .. }),
    ensures
        pre matches BootstrapState::Migrate { .. },
        ev matches BootstrapEvent::Migrated { outcome } && outcome is Ok,
{
}

/// `Failed` is terminal: no event leads out of it, so a failed bootstrap
/// never produces a store.
pub proof fn lemma_failed_is_terminal(error: BootstrapError, ev: BootstrapEvent, post: BootstrapState)
    requires
        step_rel(BootstrapState::Failed { error }, ev, post),
    ensures
        post == (BootstrapState::Failed { error }),
{
}

/// However many steps a bootstrap takes, it completes only through a
/// successful migration: every run that ends `Ready` contains a reported
/// `Migrated` success. Re-running bootstrap therefore always brings the
/// schema up to date before a store is produced.
pub proof fn lemma_no_ready_without_migration(
    pre: BootstrapState,
    evs: Seq<BootstrapEvent>,
    post: BootstrapState,
)
    requires
        runs_to(pre, evs, post),
        post matches BootstrapState::Ready { .. },
        !(pre matches BootstrapState::Ready { .. }),
    ensures
        exists|k: int| 0 <= k < evs.len() && is_successful_migration(#[trigger] evs[k]),
    decreases evs.len(),
{
    let mid = choose|mid: BootstrapState|
        #[trigger] step_rel(pre, evs[0], mid) && runs_to(mid, evs.skip(1), post);
    if mid matches BootstrapState::Ready { .. } {
        lemma_ready_only_after_migration(pre, evs[0], mid);
        assert(is_successful_migration(evs[0]));
    } else {
        lemma_no_ready_without_migration(mid, evs.skip(1), post);
        let k = choose|k: int|
            0 <= k < evs.skip(1).len() && is_successful_migration(#[trigger] evs.skip(1)[k]);
        assert(evs.skip(1)[k] == evs[k + 1]);
        assert(is_successful_migration(evs[k + 1]));
    }
}

/// A bootstrap that has to create a missing database completes only once
/// the creation succeeded: every run from `CreateDatabase` that ends `Ready`
/// contains a reported creation success.
pub proof fn lemma_no_ready_without_creation(
    url: String,
    evs: Seq<BootstrapEvent>,
    post: BootstrapState,
)
    requires
        runs_to(BootstrapState::CreateDatabase { db_url: url }, evs, post),
        post matches BootstrapState::Ready { .. },
    ensures
        exists|k: int| 0 <= k < evs.len() && is_successful_creation(#[trigger] evs[k]),
    decreases evs.len(),
{
    let pre = BootstrapState::CreateDatabase { db_url: url };
    let mid = choose|mid: BootstrapState|
        #[trigger] step_rel(pre, evs[0], mid) && runs_to(mid, evs.skip(1), post);
    match mid {
        BootstrapState::Connect { .. } => {
            assert(is_successful_creation(evs[0]));
        },
        BootstrapState::Failed { error } => {
            lemma_failed_runs_nowhere(error, evs.skip(1), post);
        },
        _ => {
            assert(mid == pre);
            lemma_no_ready_without_creation(url, evs.skip(1), post);
            let k = choose|k: int|
                0 <= k < evs.skip(1).len() && is_successful_creation(#[trigger] evs.skip(1)[k]);
            assert(evs.skip(1)[k] == evs[k + 1]);
            assert(is_successful_creation(evs[k + 1]));
        },
    }
}

/// A failed bootstrap stays failed over any further run: no sequence of
/// outcomes turns it into a store.
pub proof fn lemma_failed_runs_nowhere(
    error: BootstrapError,
    evs: Seq<BootstrapEvent>,
    post: BootstrapState,
)
    requires
        runs_to(BootstrapState::Failed { error }, evs, post),
    ensures
        post == (BootstrapState::Failed { error }),
    decreases evs.len(),
{
    if evs.len() > 0 {
        let mid = choose|mid: BootstrapState|
            #[trigger] step_rel(BootstrapState::Failed { error }, evs[0], mid) && runs_to(
                mid,
                evs.skip(1),
                post,
            );
        lemma_failed_is_terminal(error, evs[0], mid);
        lemma_failed_runs_nowhere(error, evs.skip(1), post);
    }
}

} // verus!
