//! Somewhere a human can actually read the shell's diagnostics.
//!
//! The shell is a GUI app, and a GUI app's stdout goes nowhere. So the same
//! records also go to `$DSH_HOME/cache/dsh-shell/dsh-shell.log`.

use crate::path;
use crate::text;
use vstd::prelude::*;

verus! {

/// A file of the shell's own, below DSH's home.
pub open spec fn shell_file(home: Seq<char>, name: Seq<char>) -> Seq<char> {
    path::joined(path::joined(path::joined(home, "cache"@), "dsh-shell"@), name)
}

/// A file of the shell's own, below DSH's home.
pub(crate) fn in_shell_dir(home: &str, name: &str) -> (file: String)
    ensures
        file@ == shell_file(home@, name@),
{
    let cache = path::join(home, "cache");
    let dir = path::join(cache.as_str(), "dsh-shell");
    path::join(dir.as_str(), name)
}

/// DSH's home where `DSH_HOME` does not say: `.dsh` below the user's home.
pub open spec fn default_home(home: Option<Seq<char>>) -> Option<Seq<char>> {
    match home {
        Some(home) => Some(path::joined(home, ".dsh"@)),
        None => None,
    }
}

/// Where the log lives: an explicit path wins, then DSH's home, then `.dsh` below the
/// user's home. A blank explicit path and a blank `DSH_HOME` count as unset.
pub open spec fn log_path(
    explicit: Option<Seq<char>>,
    dsh_home: Option<Seq<char>>,
    home: Option<Seq<char>>,
) -> Option<Seq<char>> {
    match explicit {
        Some(explicit) if text::trimmed(explicit).len() > 0 => Some(explicit),
        _ => {
            let dsh = match dsh_home {
                Some(dir) if text::trimmed(dir).len() > 0 => Some(dir),
                _ => default_home(home),
            };
            match dsh {
                Some(dsh) => Some(shell_file(dsh, "dsh-shell.log"@)),
                None => None,
            }
        },
    }
}

/// Where the shell's own log lives.
///
/// `DSH_SHELL_LOG` (`explicit`) overrides the whole path, which is what lets a
/// test run write somewhere disposable instead of into the user's real log.
pub fn path_from(explicit: Option<String>, dsh_home: Option<String>, home: Option<String>) -> (log:
    Option<String>)
    ensures
        text::held(log) == log_path(
            text::held(explicit),
            text::held(dsh_home),
            text::held(home),
        ),
{
    if let Some(explicit) = explicit {
        // An exported-but-empty variable is treated as unset.
        if !text::trim(explicit.as_str()).as_str().is_empty() {
            return Some(explicit);
        }
    }
    if let Some(dir) = &dsh_home {
        if !text::trim(dir.as_str()).as_str().is_empty() {
            return Some(in_shell_dir(dir.as_str(), "dsh-shell.log"));
        }
    }
    match home {
        Some(home) => {
            let dsh = path::join(home.as_str(), ".dsh");
            Some(in_shell_dir(dsh.as_str(), "dsh-shell.log"))
        },
        None => None,
    }
}

// --------------------------------------------------------------------- laws

/// A file of the shell's own lies in `cache/dsh-shell` below the home of DSH.
pub proof fn shell_files_are_spelled_out(home: Seq<char>, name: Seq<char>)
    requires
        home.len() > 0,
        home.last() != '/',
        name.len() > 0,
        name[0] != '/',
    ensures
        shell_file(home, name) == home + "/cache/dsh-shell/"@ + name,
{
    reveal_strlit("cache");
    reveal_strlit("dsh-shell");
    reveal_strlit("/cache/dsh-shell/");
    path::joining_puts_one_separator(home, "cache"@);
    let cache = path::joined(home, "cache"@);
    assert(cache.last() == 'e');
    path::joining_puts_one_separator(cache, "dsh-shell"@);
    let dir = path::joined(cache, "dsh-shell"@);
    assert(dir.last() == 'l');
    path::joining_puts_one_separator(dir, name);
    assert(seq!['/'] + "cache"@ + seq!['/'] + "dsh-shell"@ + seq!['/'] =~= "/cache/dsh-shell/"@);
    assert(shell_file(home, name) =~= home + (seq!['/'] + "cache"@ + seq!['/'] + "dsh-shell"@
        + seq!['/']) + name);
}

/// Where the log is kept: an explicit path that is not blank wins, as it is; then a home
/// of DSH that is not blank; then `.dsh` in the home of the user; and without any of them
/// nowhere.
pub proof fn the_log_has_its_place(
    explicit: Option<String>,
    dsh_home: Option<String>,
    home: Option<String>,
    log: Option<String>,
)
    requires
        call_ensures(path_from, (explicit, dsh_home, home), log),
    ensures
        ({
            let chosen = explicit matches Some(e) && exists|k: int|
                0 <= k < e@.len() && !text::is_white(#[trigger] e@[k]);
            let housed = dsh_home matches Some(d) && exists|k: int|
                0 <= k < d@.len() && !text::is_white(#[trigger] d@[k]);
            &&& chosen ==> (explicit matches Some(e) && text::held(log) == Some(e@))
            &&& !chosen && housed ==> (dsh_home matches Some(d) && text::held(log) == Some(
                shell_file(d@, "dsh-shell.log"@),
            ))
            &&& !chosen && !housed ==> (match home {
                Some(h) => text::held(log) == Some(
                    shell_file(path::joined(h@, ".dsh"@), "dsh-shell.log"@),
                ),
                None => log is None,
            })
        }),
{
    if let Some(e) = explicit {
        text::blank_is_trimmed_away(e@);
    }
    if let Some(d) = dsh_home {
        text::blank_is_trimmed_away(d@);
    }
}

} // verus!
