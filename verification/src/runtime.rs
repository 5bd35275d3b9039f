//! Where a running shell keeps its per-user runtime files.
//!
//! One directory holds everything the shell owns while it runs: the bridge
//! socket the Host plugin dials, the lock that turns a second launch into a
//! handoff, and the activation socket that carries that handoff.

use crate::path;
use crate::task::{Deed, Task};
use crate::text;
use vstd::prelude::*;

verus! {

/// The environment the path resolvers read.
#[derive(Debug, Clone, PartialEq, Eq)]
pub struct Env {
    /// `DSH_SHELL_SOCKET`.
    pub socket: Option<String>,
    /// `DSH_SHELL_LOCK`.
    pub lock: Option<String>,
    /// `DSH_SHELL_ACTIVATE`.
    pub activate: Option<String>,
    /// `XDG_RUNTIME_DIR`.
    pub run_dir: Option<String>,
    /// The per-user temporary directory.
    pub temp_dir: String,
}

/// The name of a runtime file, which tells users apart.
pub open spec fn runtime_name(uid: u32, suffix: Seq<char>) -> Seq<char> {
    "dsh-shell-"@ + text::decimal_digits(uid as nat) + suffix
}

/// The name of a runtime file.
pub(crate) fn file_name(uid: u32, suffix: &str) -> (name: String)
    ensures
        name@ == runtime_name(uid, suffix@),
{
    let s = text::plus(text::own("dsh-shell-"), text::decimal(uid as u64).as_str());
    text::plus(s, suffix)
}

/// The directory of the runtime files: `XDG_RUNTIME_DIR`, or the temporary
/// directory where the variable is unset or blank.
pub open spec fn run_dir_of(run_dir: Option<Seq<char>>, temp_dir: Seq<char>) -> Seq<char> {
    match run_dir {
        Some(dir) if text::trimmed(dir).len() > 0 => dir,
        _ => temp_dir,
    }
}

/// The path of a runtime file: an explicit one wins.
pub open spec fn runtime_path(
    explicit: Option<Seq<char>>,
    dir: Seq<char>,
    uid: u32,
    suffix: Seq<char>,
) -> Seq<char> {
    match explicit {
        Some(explicit) => explicit,
        None => path::joined(dir, runtime_name(uid, suffix)),
    }
}

impl Env {
    /// `XDG_RUNTIME_DIR` is the right home on Linux: per-user, mode 0700, and
    /// cleared on logout. macOS has no equivalent, so the per-user temp
    /// directory stands in.
    ///
    /// An exported-but-empty variable is treated as unset: it would otherwise
    /// put one user's runtime files in a directory every user shares.
    pub fn run_dir(&self) -> (dir: String)
        ensures
            dir@ == run_dir_of(text::held(self.run_dir), self.temp_dir@),
    {
        if let Some(dir) = &self.run_dir {
            if !text::trim(dir.as_str()).as_str().is_empty() {
                return dir.clone();
            }
        }
        self.temp_dir.clone()
    }

    fn resolve(&self, explicit: &Option<String>, uid: u32, suffix: &str) -> (path: String)
        ensures
            path@ == runtime_path(
                text::held(*explicit),
                run_dir_of(text::held(self.run_dir), self.temp_dir@),
                uid,
                suffix@,
            ),
    {
        match explicit {
            Some(explicit) => explicit.clone(),
            None => path::join(self.run_dir().as_str(), file_name(uid, suffix).as_str()),
        }
    }

    /// The bridge socket the Host plugin connects to.
    pub fn socket_path(&self, uid: u32) -> (path: String)
        ensures
            path@ == runtime_path(
                text::held(self.socket),
                run_dir_of(text::held(self.run_dir), self.temp_dir@),
                uid,
                ".sock"@,
            ),
    {
        self.resolve(&self.socket, uid, ".sock")
    }

    /// The single-instance lock file. The file only needs to exist; what matters
    /// is the lock held *on* it.
    pub fn lock_path(&self, uid: u32) -> (path: String)
        ensures
            path@ == runtime_path(
                text::held(self.lock),
                run_dir_of(text::held(self.run_dir), self.temp_dir@),
                uid,
                ".lock"@,
            ),
    {
        self.resolve(&self.lock, uid, ".lock")
    }

    /// The activation socket a second launch dials to reach the running shell.
    pub fn activate_path(&self, uid: u32) -> (path: String)
        ensures
            path@ == runtime_path(
                text::held(self.activate),
                run_dir_of(text::held(self.run_dir), self.temp_dir@),
                uid,
                ".activate.sock"@,
            ),
    {
        self.resolve(&self.activate, uid, ".activate.sock")
    }
}

/// The bridge socket the Host plugin connects to.
///
/// `DSH_SHELL_SOCKET` overrides it. The plugin honours the same variable, so
/// setting it moves both ends together.
pub fn socket_path(env: &Env, uid: u32) -> (path: String)
    ensures
        path@ == runtime_path(
            text::held(env.socket),
            run_dir_of(text::held(env.run_dir), env.temp_dir@),
            uid,
            ".sock"@,
        ),
{
    env.socket_path(uid)
}

/// The single-instance lock file.
pub fn lock_path(env: &Env, uid: u32) -> (path: String)
    ensures
        path@ == runtime_path(
            text::held(env.lock),
            run_dir_of(text::held(env.run_dir), env.temp_dir@),
            uid,
            ".lock"@,
        ),
{
    env.lock_path(uid)
}

/// The activation socket a second launch dials to reach the running shell.
pub fn activate_path(env: &Env, uid: u32) -> (path: String)
    ensures
        path@ == runtime_path(
            text::held(env.activate),
            run_dir_of(text::held(env.run_dir), env.temp_dir@),
            uid,
            ".activate.sock"@,
        ),
{
    env.activate_path(uid)
}

/// The task that makes the directory of a file, where it has one.
pub open spec fn parent_deed(p: Seq<char>) -> Option<Deed> {
    match path::parent_of(p) {
        Some(dir) => Some(Deed::MakeDirs(dir)),
        None => None,
    }
}

/// Ensure the directory for `path` exists, so a bind or create cannot fail on a
/// missing parent.
pub fn ensure_parent(path: &str) -> (task: Option<Task>)
    ensures
        match task {
            Some(task) => parent_deed(path@) == Some(task@),
            None => parent_deed(path@) is None,
        },
{
    match path::parent(path) {
        Some(dir) => Some(Task::MakeDirs(dir)),
        None => None,
    }
}

/// The files a clean exit removes: the two sockets.
///
/// The lock file is deliberately not among them. Unlinking it would be a race: a
/// launch that opened the path just before would hold a lock on an inode that no
/// longer has a name, while a later launch would create and lock a fresh one —
/// leaving two shells each believing it was the only one.
pub fn cleanup(env: &Env, uid: u32) -> (files: Vec<String>)
    ensures
        text::views(files@) == seq![
            runtime_path(
                text::held(env.socket),
                run_dir_of(text::held(env.run_dir), env.temp_dir@),
                uid,
                ".sock"@,
            ),
            runtime_path(
                text::held(env.activate),
                run_dir_of(text::held(env.run_dir), env.temp_dir@),
                uid,
                ".activate.sock"@,
            ),
        ],
{
    let mut files: Vec<String> = Vec::new();
    files.push(env.socket_path(uid));
    files.push(env.activate_path(uid));
    assert(text::views(files@) =~= seq![files@[0]@, files@[1]@]);
    files
}

// --------------------------------------------------------------------- laws

/// In one directory the three runtime files of a user have three names: the lock
/// and a socket never share a file.
pub proof fn runtime_files_are_distinct(dir: Seq<char>, uid: u32)
    ensures
        runtime_path(None, dir, uid, ".sock"@) != runtime_path(None, dir, uid, ".lock"@),
        runtime_path(None, dir, uid, ".lock"@) != runtime_path(None, dir, uid, ".activate.sock"@),
        runtime_path(None, dir, uid, ".sock"@) != runtime_path(None, dir, uid, ".activate.sock"@),
{
    reveal_strlit("dsh-shell-");
    reveal_strlit(".sock");
    reveal_strlit(".lock");
    reveal_strlit(".activate.sock");
    let socket = runtime_path(None, dir, uid, ".sock"@);
    let lock = runtime_path(None, dir, uid, ".lock"@);
    let activate = runtime_path(None, dir, uid, ".activate.sock"@);
    assert(socket[socket.len() - 4] == 's');
    assert(lock[lock.len() - 4] == 'l');
    assert(activate[activate.len() - 4] == 's');
    assert(activate.len() == socket.len() + 9);
}

/// The runtime files of two users have different names.
pub proof fn runtime_files_are_per_user(dir: Seq<char>, one: u32, other: u32, suffix: Seq<char>)
    requires
        one != other,
    ensures
        runtime_path(None, dir, one, suffix) != runtime_path(None, dir, other, suffix),
{
    reveal_strlit("dsh-shell-");
    let x = text::decimal_digits(one as nat);
    let y = text::decimal_digits(other as nat);
    let one_name = runtime_name(one, suffix);
    let other_name = runtime_name(other, suffix);
    assert(one_name[0] == 'd' && other_name[0] == 'd');
    let a = path::joined(dir, one_name);
    let b = path::joined(dir, other_name);
    if a == b {
        let k = if dir.len() > 0 && dir.last() != '/' {
            dir.len() as int + 1
        } else {
            dir.len() as int
        };
        assert(a.skip(k) =~= one_name);
        assert(b.skip(k) =~= other_name);
        let n = "dsh-shell-"@.len() as int;
        assert(one_name.subrange(n, one_name.len() - suffix.len()) =~= x);
        assert(other_name.subrange(n, other_name.len() - suffix.len()) =~= y);
        text::lemma_decimal(one as nat);
        text::lemma_decimal(other as nat);
    }
}

/// Where the three files of a user lie: an explicit path wins for its own file alone, and
/// otherwise a file of the user's own lies in the runtime directory, each with its own
/// ending.
pub proof fn runtime_files_have_their_places(
    env: &Env,
    uid: u32,
    dir: String,
    socket: String,
    lock: String,
    activate: String,
)
    requires
        call_ensures(Env::run_dir, (env,), dir),
        call_ensures(Env::socket_path, (env, uid), socket),
        call_ensures(Env::lock_path, (env, uid), lock),
        call_ensures(Env::activate_path, (env, uid), activate),
    ensures
        ({
            let name = "dsh-shell-"@ + text::decimal_digits(uid as nat);
            &&& env.socket matches Some(e) ==> socket@ == e@
            &&& env.lock matches Some(e) ==> lock@ == e@
            &&& env.activate matches Some(e) ==> activate@ == e@
            &&& env.socket is None ==> socket@ == path::joined(dir@, name + ".sock"@)
            &&& env.lock is None ==> lock@ == path::joined(dir@, name + ".lock"@)
            &&& env.activate is None ==> activate@ == path::joined(dir@, name + ".activate.sock"@)
        }),
{
}

/// The runtime directory is that of the session where it is named and not blank, and the
/// temporary directory of the user otherwise.
pub proof fn a_blank_runtime_directory_counts_as_unset(env: &Env, dir: String)
    requires
        call_ensures(Env::run_dir, (env,), dir),
    ensures
        ({
            let named = env.run_dir matches Some(d) && exists|k: int|
                0 <= k < d@.len() && !text::is_white(#[trigger] d@[k]);
            &&& named ==> (env.run_dir matches Some(d) && dir@ == d@)
            &&& !named ==> dir@ == env.temp_dir@
        }),
{
    if let Some(d) = env.run_dir {
        text::blank_is_trimmed_away(d@);
    }
}

/// The functions for an environment and its methods agree.
pub proof fn paths_agree(env: &Env, uid: u32, one: String, other: String)
    ensures
        call_ensures(socket_path, (env, uid), one) && call_ensures(
            Env::socket_path,
            (env, uid),
            other,
        ) ==> one@ == other@,
        call_ensures(lock_path, (env, uid), one) && call_ensures(Env::lock_path, (env, uid), other)
            ==> one@ == other@,
        call_ensures(activate_path, (env, uid), one) && call_ensures(
            Env::activate_path,
            (env, uid),
            other,
        ) ==> one@ == other@,
{
}

/// A clean exit removes the two sockets and leaves the lock: a lock file that is unlinked
/// could be locked twice.
pub proof fn a_clean_exit_leaves_the_lock(
    env: &Env,
    uid: u32,
    files: Vec<String>,
    socket: String,
    activate: String,
)
    requires
        call_ensures(cleanup, (env, uid), files),
        call_ensures(Env::socket_path, (env, uid), socket),
        call_ensures(Env::activate_path, (env, uid), activate),
    ensures
        files@.len() == 2,
        files@[0]@ == socket@,
        files@[1]@ == activate@,
{
    let shown = text::views(files@);
    assert(shown == seq![socket@, activate@]);
    assert(shown.len() == 2);
    assert(shown[0] == files@[0]@ && shown[1] == files@[1]@);
}

/// What makes room for a file is the making of its directory, and nothing where it has
/// none.
pub proof fn the_directory_of_a_file_is_made(path: &str, task: Option<Task>)
    requires
        call_ensures(ensure_parent, (path,), task),
    ensures
        task is Some <==> path::parent_of(path@) is Some,
        task matches Some(t) ==> (path::parent_of(path@) matches Some(dir) && t@ == Deed::MakeDirs(
            dir,
        )),
{
}

} // verus!
