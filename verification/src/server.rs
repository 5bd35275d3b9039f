//! Launching and supervising the DSH web server.
//!
//! The shell does not reimplement the host. It starts `dsh web`, waits for the
//! line that carries the authenticated URL, and points the webview at it.
//!
//! That startup line is the whole contract:
//!
//! ```text
//! dsh web: http://127.0.0.1:4180/?token=...
//! ```
//!
//! The token is minted per process and exchanged for a signed cookie on first
//! load, so the shell must read the URL rather than guess a port.

use crate::install;
use crate::path;
use crate::text;
use crate::version::Version;
use vstd::prelude::*;

verus! {

/// The marker of the startup line.
pub const MARKER: &'static str = "dsh web:";

/// How many seconds the host may take to print its URL.
pub const STARTUP_SECONDS: u64 = 120;

/// What stands before the first white space.
pub open spec fn leading_word(s: Seq<char>) -> Seq<char>
    decreases s.len(),
{
    if s.len() == 0 || text::is_white(s[0]) {
        Seq::<char>::empty()
    } else {
        seq![s[0]] + leading_word(s.skip(1))
    }
}

/// The URL in a startup line: the word after the marker, where it is one.
pub open spec fn url_in(line: Seq<char>) -> Option<Seq<char>> {
    match text::position(line, MARKER@) {
        Some(i) => {
            let url = leading_word(text::trimmed(line.skip(i + MARKER@.len())));
            if text::begins_with(url, "http://"@) || text::begins_with(url, "https://"@) {
                Some(url)
            } else {
                None
            }
        },
        None => None,
    }
}

fn first_word(s: &str) -> (word: String)
    ensures
        word@ == leading_word(s@),
{
    let v = text::chars_of(s);
    let mut i: usize = 0;
    assert(v@.skip(0) == v@);
    assert(v@.take(0) + leading_word(v@) =~= leading_word(v@));
    while i < v.len() && !text::white(v[i])
        invariant
            i <= v@.len(),
            v@.take(i as int) + leading_word(v@.skip(i as int)) == leading_word(v@),
        decreases v@.len() - i,
    {
        let ghost rest = v@.skip(i as int);
        assert(rest.skip(1) == v@.skip(i + 1));
        assert(v@.take(i + 1) == v@.take(i as int).push(v@[i as int]));
        assert(v@.take(i as int) + (seq![rest[0]] + leading_word(rest.skip(1))) =~= v@.take(i + 1)
            + leading_word(v@.skip(i + 1)));
        i += 1;
    }
    assert(v@.take(i as int) + leading_word(v@.skip(i as int)) =~= v@.take(i as int));
    assert(v@.subrange(0, i as int) == v@.take(i as int));
    text::slice(&v, 0, i)
}

/// Pull the authenticated URL out of a startup line.
pub fn extract_url(line: &str) -> (url: Option<String>)
    ensures
        text::held(url) == url_in(line@),
{
    let v = text::chars_of(line);
    let marker = text::chars_of(MARKER);
    let len: usize = v.len();
    match text::find_in(&v, &marker, 0) {
        Some(i) => {
            let end: usize = i + marker.len();
            let tail = text::slice(&v, end, len);
            assert(v@.subrange(end as int, v@.len() as int) == v@.skip(end as int));
            let rest = text::trim(tail.as_str());
            let url = first_word(rest.as_str());
            if text::starts_with(url.as_str(), "http://") || text::starts_with(
                url.as_str(),
                "https://",
            ) {
                Some(url)
            } else {
                None
            }
        },
        None => None,
    }
}

// ---------------------------------------------------------- the startup wait

/// What reading the host's output brought.
#[derive(Debug, PartialEq, Eq)]
pub enum HostEvent {
    /// A line.
    Line(String),
    /// The end of the output.
    Closed,
    /// A read error.
    Broken(String),
    /// The time for the URL is up.
    Late,
}

/// What to do next.
#[derive(Debug, PartialEq, Eq)]
pub enum HostAction {
    /// Read on.
    Read,
    /// The host is ready at this URL; keep draining its output.
    Ready(String),
    /// Give up.
    Fail(String),
    /// Stop the host and give up.
    StopAndFail(String),
}

/// The arguments that start the host on `port`.
///
/// The shell owns the window, so no browser is to be opened as well.
pub fn start_args(port: u16) -> (args: Vec<String>)
    ensures
        text::views(args@) == seq![
            "web"@,
            "--no-open"@,
            "--port"@,
            text::decimal_digits(port as nat),
        ],
{
    let mut args: Vec<String> = Vec::new();
    args.push(text::own("web"));
    args.push(text::own("--no-open"));
    args.push(text::own("--port"));
    args.push(text::decimal(port as u64));
    assert(text::views(args@) =~= seq![
        "web"@,
        "--no-open"@,
        "--port"@,
        text::decimal_digits(port as nat),
    ]);
    args
}

/// How a wait for the host can end.
pub ghost enum Startup {
    Ready(Seq<char>),
    Failed(Seq<char>),
}

/// What an event means for the wait; nothing where it goes on.
pub open spec fn verdict(event: HostEvent) -> Option<Startup> {
    match event {
        HostEvent::Line(line) => match url_in(line@) {
            Some(url) => Some(Startup::Ready(url)),
            None => None,
        },
        HostEvent::Closed => Some(Startup::Failed("dsh web exited before printing a URL"@)),
        HostEvent::Broken(err) => Some(Startup::Failed("reading dsh web output: "@ + err@)),
        HostEvent::Late => Some(
            Startup::Failed(
                "dsh web did not print a URL within "@ + text::decimal_digits(
                    STARTUP_SECONDS as nat,
                ) + "s"@,
            ),
        ),
    }
}

/// Take the next step of the wait for the host's URL.
pub fn start(event: HostEvent) -> (action: HostAction)
    ensures
        match verdict(event) {
            None => action == HostAction::Read,
            Some(Startup::Ready(url)) => action matches HostAction::Ready(u) && u@ == url,
            Some(Startup::Failed(reason)) => match event {
                HostEvent::Late => action matches HostAction::StopAndFail(r) && r@ == reason,
                _ => action matches HostAction::Fail(r) && r@ == reason,
            },
        },
{
    match event {
        HostEvent::Line(line) => match extract_url(line.as_str()) {
            Some(url) => HostAction::Ready(url),
            None => HostAction::Read,
        },
        HostEvent::Closed => HostAction::Fail(text::own("dsh web exited before printing a URL")),
        HostEvent::Broken(err) => HostAction::Fail(
            text::plus(text::own("reading dsh web output: "), err.as_str()),
        ),
        HostEvent::Late => {
            let s = text::plus(
                text::own("dsh web did not print a URL within "),
                text::decimal(STARTUP_SECONDS).as_str(),
            );
            HostAction::StopAndFail(text::plus(s, "s"))
        },
    }
}

/// Why the host could not be started at all.
pub fn not_started(launcher: &str, err: &str) -> (reason: String)
    ensures
        reason@ == "could not start `"@ + launcher@ + " web`: "@ + err@,
{
    let s = text::plus(text::own("could not start `"), launcher);
    text::plus(text::plus(s, " web`: "), err)
}

/// How the wait ends for a course of events: with the first that decides.
pub open spec fn startup(events: Seq<HostEvent>) -> Option<Startup>
    decreases events.len(),
{
    if events.len() == 0 {
        None
    } else {
        match verdict(events[0]) {
            Some(end) => Some(end),
            None => startup(events.skip(1)),
        }
    }
}

/// Whatever else the host prints first, the line with the URL is what starts the
/// shell.
pub proof fn chatter_does_not_matter(chatter: Seq<HostEvent>, line: String, url: Seq<char>)
    requires
        forall|i: int|
            0 <= i < chatter.len() ==> (#[trigger] chatter[i] matches HostEvent::Line(l)
                && url_in(l@) is None),
        url_in(line@) == Some(url),
    ensures
        startup(chatter.push(HostEvent::Line(line))) == Some(Startup::Ready(url)),
    decreases chatter.len(),
{
    let events = chatter.push(HostEvent::Line(line));
    if chatter.len() > 0 {
        assert(chatter[0] matches HostEvent::Line(l) && url_in(l@) is None);
        assert(events.skip(1) =~= chatter.skip(1).push(HostEvent::Line(line)));
        assert forall|i: int| 0 <= i < chatter.skip(1).len() implies (
        #[trigger] chatter.skip(1)[i] matches HostEvent::Line(l) && url_in(l@) is None) by {
            assert(chatter.skip(1)[i] == chatter[i + 1]);
        }
        chatter_does_not_matter(chatter.skip(1), line, url);
    }
}

/// What follows a word begins with white space, or nothing follows.
spec fn ends_word(tail: Seq<char>) -> bool {
    tail.len() == 0 || text::is_white(tail[0])
}

/// A word in front of a text is its leading word.
proof fn lemma_leading_word(word: Seq<char>, tail: Seq<char>)
    requires
        forall|i: int| 0 <= i < word.len() ==> !text::is_white(#[trigger] word[i]),
        ends_word(tail),
    ensures
        leading_word(word + tail) == word,
    decreases word.len(),
{
    if word.len() == 0 {
        assert(word + tail =~= tail);
        assert(leading_word(tail) =~= word);
    } else {
        let rest = word.skip(1);
        assert forall|i: int| 0 <= i < rest.len() implies !text::is_white(#[trigger] rest[i]) by {
            assert(rest[i] == word[i + 1]);
        }
        lemma_leading_word(rest, tail);
        assert((word + tail).skip(1) =~= rest + tail);
        assert((word + tail)[0] == word[0]);
        assert(seq![word[0]] + rest =~= word);
    }
}

/// Trimming the end of a text leaves a word in front of it alone.
proof fn lemma_trimmed_tail(word: Seq<char>, tail: Seq<char>) -> (kept: Seq<char>)
    requires
        word.len() > 0,
        !text::is_white(word.last()),
        ends_word(tail),
    ensures
        ends_word(kept),
        text::trim_end(word + tail) == word + kept,
    decreases tail.len(),
{
    let s = word + tail;
    if tail.len() == 0 {
        assert(s =~= word);
        tail
    } else if text::is_white(s.last()) {
        assert(s.drop_last() =~= word + tail.drop_last());
        lemma_trimmed_tail(word, tail.drop_last())
    } else {
        tail
    }
}

/// The URL that the host prints is read off its line, whatever follows it there.
pub proof fn printed_url_is_found(url: Seq<char>, tail: Seq<char>)
    requires
        text::begins_with(url, "http://"@) || text::begins_with(url, "https://"@),
        forall|i: int| 0 <= i < url.len() ==> !text::is_white(#[trigger] url[i]),
        tail.len() == 0 || text::is_white(tail[0]),
    ensures
        url_in(MARKER@ + seq![' '] + url + tail) == Some(url),
{
    reveal_strlit("dsh web:");
    reveal_strlit("http://");
    reveal_strlit("https://");
    let line = MARKER@ + seq![' '] + url + tail;
    assert(text::occurs_at(line, MARKER@, 0)) by {
        assert(line.subrange(0, MARKER@.len() as int) =~= MARKER@);
    }
    text::lemma_found(line, MARKER@, 0, 0);
    let rest = line.skip(MARKER@.len() as int);
    assert(rest =~= seq![' '] + (url + tail));
    text::lemma_trimmed_ends(url + tail, ' ');
    assert((url + tail)[0] == url[0]);
    assert(!text::is_white(url[url.len() - 1]));
    let kept = lemma_trimmed_tail(url, tail);
    assert(text::trimmed(rest) == url + kept);
    lemma_leading_word(url, kept);
}

// ------------------------------------------------------------ search path

/// The parts of a list that are not empty.
pub open spec fn filled(parts: Seq<Seq<char>>) -> Seq<Seq<char>>
    decreases parts.len(),
{
    if parts.len() == 0 {
        parts
    } else if parts.last().len() > 0 {
        filled(parts.drop_last()).push(parts.last())
    } else {
        filled(parts.drop_last())
    }
}

/// The directory of a path, as a list of one or none.
pub open spec fn dir_of(p: Option<Seq<char>>) -> Seq<Seq<char>> {
    match p {
        Some(p) => match path::parent_of(p) {
            Some(dir) => seq![dir],
            None => Seq::<Seq<char>>::empty(),
        },
        None => Seq::<Seq<char>>::empty(),
    }
}

/// PATH with the directories of the launcher and of `node` in front. Empty parts
/// are left out, so that no leading colon puts the working directory on the
/// search path.
pub open spec fn augmented_path(launcher: Seq<char>, existing: Seq<char>, node: Option<Seq<char>>) -> Seq<
    char,
> {
    text::joined(
        filled(dir_of(Some(launcher)) + dir_of(node) + seq![existing]),
        ":"@,
    )
}

fn push_filled(parts: &mut Vec<String>, part: String)
    ensures
        text::views(final(parts)@) == (if part@.len() > 0 {
            text::views(old(parts)@).push(part@)
        } else {
            text::views(old(parts)@)
        }),
{
    let ghost before = text::views(parts@);
    if !part.as_str().is_empty() {
        parts.push(part);
        assert(text::views(parts@) =~= before.push(part@));
    }
}

/// PATH with the launcher's directory and any nearby `node` prepended.
///
/// `dsh` is a `#!/usr/bin/env node` script and a GUI-launched app has no `node`
/// on PATH. The directory holding the launcher usually holds `node` too; `node`
/// may also live elsewhere, so its directory is added as well.
pub fn path_with_node_list(launcher: &str, existing: String, node: Option<String>) -> (search: String)
    ensures
        search@ == augmented_path(launcher@, existing@, text::held(node)),
{
    let ghost first = dir_of(Some(launcher@));
    let ghost second = dir_of(text::held(node));
    let ghost all = first + second + seq![existing@];
    let mut parts: Vec<String> = Vec::new();
    assert(text::views(parts@) =~= Seq::<Seq<char>>::empty());
    assert(filled(Seq::<Seq<char>>::empty()) == Seq::<Seq<char>>::empty());
    if let Some(dir) = path::parent(launcher) {
        push_filled(&mut parts, dir);
        assert(first.drop_last() =~= Seq::<Seq<char>>::empty());
    }
    assert(text::views(parts@) =~= filled(first));
    if let Some(node) = &node {
        if let Some(dir) = path::parent(node.as_str()) {
            push_filled(&mut parts, dir);
            assert((first + second).drop_last() =~= first);
        }
    }
    assert(second.len() == 0 ==> first + second =~= first);
    assert(text::views(parts@) =~= filled(first + second));
    assert(all.drop_last() =~= first + second);
    push_filled(&mut parts, existing);
    assert(text::views(parts@) =~= filled(all));
    text::join(&parts, ":")
}

proof fn lemma_filled_first(parts: Seq<Seq<char>>)
    requires
        parts.len() > 0,
        parts[0].len() > 0,
    ensures
        filled(parts).len() > 0,
        filled(parts)[0] == parts[0],
    decreases parts.len(),
{
    if parts.len() > 1 {
        lemma_filled_first(parts.drop_last());
    } else {
        assert(filled(parts.drop_last()).len() == 0);
        assert(filled(parts) =~= parts);
    }
}

/// The launcher's own directory comes first: a stale `node` further along PATH
/// does not win.
pub proof fn launcher_directory_comes_first(
    launcher: Seq<char>,
    dir: Seq<char>,
    existing: Seq<char>,
    node: Option<Seq<char>>,
)
    requires
        path::parent_of(launcher) == Some(dir),
        dir.len() > 0,
    ensures
        text::begins_with(augmented_path(launcher, existing, node), dir),
{
    let parts = dir_of(Some(launcher)) + dir_of(node) + seq![existing];
    assert(parts[0] == dir);
    lemma_filled_first(parts);
    text::lemma_joined_first(filled(parts), ":"@);
}

proof fn lemma_filled_has_no_gap(parts: Seq<Seq<char>>)
    ensures
        forall|i: int| 0 <= i < filled(parts).len() ==> (#[trigger] filled(parts)[i]).len() > 0,
    decreases parts.len(),
{
    if parts.len() > 0 {
        let before = filled(parts.drop_last());
        lemma_filled_has_no_gap(parts.drop_last());
        assert forall|i: int| 0 <= i < filled(parts).len() implies (
        #[trigger] filled(parts)[i]).len() > 0 by {
            if i < before.len() {
                assert(filled(parts)[i] == before[i]);
            }
        }
    }
}

/// No part of the augmented PATH is empty, so nothing puts the working directory
/// on the search path.
pub proof fn augmented_path_has_no_gap(
    launcher: Seq<char>,
    existing: Seq<char>,
    node: Option<Seq<char>>,
)
    ensures
        exists|parts: Seq<Seq<char>>|
            {
                &&& augmented_path(launcher, existing, node) == text::joined(parts, ":"@)
                &&& forall|i: int| 0 <= i < parts.len() ==> (#[trigger] parts[i]).len() > 0
            },
{
    let all = dir_of(Some(launcher)) + dir_of(node) + seq![existing];
    lemma_filled_has_no_gap(all);
    let parts = filled(all);
    assert(augmented_path(launcher, existing, node) == text::joined(parts, ":"@));
}

// ---------------------------------------------------- finding the launcher

/// `base` with each of `tails` placed in it.
pub open spec fn placed(base: Seq<char>, tails: Seq<Seq<char>>) -> Seq<Seq<char>> {
    Seq::new(tails.len(), |i: int| path::joined(base, tails[i]))
}

/// Each of `bases` with the program `name` in its `bin` directory.
pub open spec fn programs_in(bases: Seq<Seq<char>>, name: Seq<char>) -> Seq<Seq<char>> {
    Seq::new(bases.len(), |i: int| path::joined(path::joined(bases[i], "bin"@), name))
}

/// Where a launcher is installed under the home directory.
pub open spec fn launcher_tails() -> Seq<Seq<char>> {
    seq![
        ".bun/bin/dsh"@,
        ".local/bin/dsh"@,
        ".volta/bin/dsh"@,
        "node_modules/.bin/dsh"@,
        ".npm-global/bin/dsh"@,
    ]
}

/// Where a `node` is installed under the home directory.
pub open spec fn node_tails() -> Seq<Seq<char>> {
    seq![
        ".local/bin/node"@,
        ".bun/bin/node"@,
        ".volta/bin/node"@,
        ".hermes/node/bin/node"@,
    ]
}

/// The directories of version managers, under the home directory. Each of their
/// entries is one installed version.
pub open spec fn manager_tails() -> Seq<Seq<char>> {
    seq![".nvm/versions/node"@, ".fnm/node-versions"@]
}

/// The launcher shipped inside the app bundle that `exe` runs from:
/// `Contents/MacOS/<exe>` has it in `Contents/Resources/bin/dsh`.
pub open spec fn bundled_launcher(exe: Option<Seq<char>>) -> Seq<Seq<char>> {
    match exe {
        Some(exe) => match path::parent_of(exe) {
            Some(macos) => match path::parent_of(macos) {
                Some(contents) => seq![
                    path::joined(
                        path::joined(path::joined(contents, "Resources"@), "bin"@),
                        "dsh"@,
                    ),
                ],
                None => Seq::<Seq<char>>::empty(),
            },
            None => Seq::<Seq<char>>::empty(),
        },
        None => Seq::<Seq<char>>::empty(),
    }
}

fn push_programs(places: &mut Vec<String>, bases: &Vec<String>, name: &str)
    ensures
        text::views(final(places)@) == text::views(old(places)@) + programs_in(
            text::views(bases@),
            name@,
        ),
{
    let ghost before = text::views(places@);
    let ghost all = programs_in(text::views(bases@), name@);
    let mut i: usize = 0;
    assert(before + all.take(0) =~= before);
    while i < bases.len()
        invariant
            i <= bases@.len(),
            all == programs_in(text::views(bases@), name@),
            text::views(places@) == before + all.take(i as int),
        decreases bases@.len() - i,
    {
        let ghost now = places@;
        let bin = path::join(bases[i].as_str(), "bin");
        places.push(path::join(bin.as_str(), name));
        assert(text::views(places@) =~= text::views(now).push(all[i as int]));
        assert(all.take(i + 1) == all.take(i as int).push(all[i as int]));
        assert(before + all.take(i + 1) =~= (before + all.take(i as int)).push(all[i as int]));
        i += 1;
    }
    assert(all.take(i as int) == all);
}

fn push_placed(places: &mut Vec<String>, base: &str, tail: &str)
    ensures
        text::views(final(places)@) == text::views(old(places)@).push(
            path::joined(base@, tail@),
        ),
{
    let ghost before = text::views(places@);
    places.push(path::join(base, tail));
    assert(text::views(places@) =~= before.push(path::joined(base@, tail@)));
}

/// The directories of version managers under `home`, whose entries
/// [`launcher_candidates`] and [`node_candidates`] take.
pub fn manager_roots(home: &str) -> (roots: Vec<String>)
    ensures
        text::views(roots@) == placed(home@, manager_tails()),
{
    let mut roots: Vec<String> = Vec::new();
    push_placed(&mut roots, home, ".nvm/versions/node");
    push_placed(&mut roots, home, ".fnm/node-versions");
    assert(text::views(roots@) =~= placed(home@, manager_tails()));
    roots
}

/// The places a launcher may be, in the order they are tried: inside the app
/// bundle, in the well-known locations under the home directory, and in each
/// version that a version manager has installed.
pub open spec fn launcher_places(
    exe: Option<Seq<char>>,
    home: Option<Seq<char>>,
    managed: Seq<Seq<char>>,
) -> Seq<Seq<char>> {
    bundled_launcher(exe) + (match home {
        Some(home) => placed(home, launcher_tails()) + programs_in(managed, "dsh"@),
        None => Seq::<Seq<char>>::empty(),
    })
}

/// The places a launcher may be, in the order they are tried.
pub fn launcher_candidates(exe: Option<String>, home: Option<String>, managed: &Vec<String>) -> (places:
    Vec<String>)
    ensures
        text::views(places@) == launcher_places(
            text::held(exe),
            text::held(home),
            text::views(managed@),
        ),
{
    let mut places: Vec<String> = Vec::new();
    assert(text::views(places@) =~= Seq::<Seq<char>>::empty());
    if let Some(exe) = &exe {
        if let Some(macos) = path::parent(exe.as_str()) {
            if let Some(contents) = path::parent(macos.as_str()) {
                let resources = path::join(contents.as_str(), "Resources");
                let bin = path::join(resources.as_str(), "bin");
                push_placed(&mut places, bin.as_str(), "dsh");
            }
        }
    }
    let ghost bundled = bundled_launcher(text::held(exe));
    assert(text::views(places@) =~= bundled);
    if let Some(home) = &home {
        push_placed(&mut places, home.as_str(), ".bun/bin/dsh");
        push_placed(&mut places, home.as_str(), ".local/bin/dsh");
        push_placed(&mut places, home.as_str(), ".volta/bin/dsh");
        push_placed(&mut places, home.as_str(), "node_modules/.bin/dsh");
        push_placed(&mut places, home.as_str(), ".npm-global/bin/dsh");
        assert(text::views(places@) =~= bundled + placed(home@, launcher_tails()));
        push_programs(&mut places, managed, "dsh");
    }
    assert(text::views(places@) =~= launcher_places(
        text::held(exe),
        text::held(home),
        text::views(managed@),
    ));
    places
}

/// Resolve the `dsh` launcher.
///
/// An explicit override that is not blank always wins. Then the first of
/// `candidates` that is a file is taken — a GUI-launched app inherits a bare
/// PATH, where a `dsh` installed through a version manager is invisible — and
/// `configured`, found through PATH, is what is left.
pub fn resolve_launcher(
    configured: &str,
    explicit: Option<String>,
    candidates: &Vec<String>,
    is_file: &Vec<bool>,
) -> (launcher: String)
    ensures
        launcher@ == (match explicit {
            Some(explicit) if text::trimmed(explicit@).len() > 0 => explicit@,
            _ => match install::first_present(text::views(candidates@), is_file@) {
                Some(found) => found,
                None => configured@,
            },
        }),
{
    if let Some(explicit) = explicit {
        if !text::trim(explicit.as_str()).as_str().is_empty() {
            return explicit;
        }
    }
    match install::pick_present(candidates, is_file) {
        Some(found) => found,
        None => text::own(configured),
    }
}

/// The places a `node` may be, in the order they are tried.
pub fn node_candidates(home: &str, managed: &Vec<String>) -> (places: Vec<String>)
    ensures
        text::views(places@) == placed(home@, node_tails()) + programs_in(
            text::views(managed@),
            "node"@,
        ),
{
    let mut places: Vec<String> = Vec::new();
    push_placed(&mut places, home, ".local/bin/node");
    push_placed(&mut places, home, ".bun/bin/node");
    push_placed(&mut places, home, ".volta/bin/node");
    push_placed(&mut places, home, ".hermes/node/bin/node");
    assert(text::views(places@) =~= placed(home@, node_tails()));
    push_programs(&mut places, managed, "node");
    places
}

/// Find a `node` binary in the usual places, or on PATH. Without a home directory
/// there are no usual places.
pub fn which_node(
    home: Option<String>,
    candidates: &Vec<String>,
    is_file: &Vec<bool>,
    on_path: bool,
) -> (node: Option<String>)
    ensures
        text::held(node) == (match install::first_present(text::views(candidates@), is_file@) {
            Some(found) if home is Some => Some(found),
            _ => if on_path {
                Some("node"@)
            } else {
                None
            },
        }),
{
    if home.is_some() {
        if let Some(found) = install::pick_present(candidates, is_file) {
            return Some(found);
        }
    }
    if on_path {
        Some(text::own("node"))
    } else {
        None
    }
}

// --------------------------------------------- starting, with one way back

/// How far a launch of the host has come.
#[derive(Debug, PartialEq, Eq)]
pub enum Launch {
    /// The host is being started for the first time.
    First,
    /// The upgraded DSH would not start, for this reason; it is being rolled
    /// back.
    RollingBack(String),
    /// The host is being started again, on the restored tree.
    Second,
    /// Over.
    Finished,
}

/// What came back from outside.
#[derive(Debug)]
pub enum LaunchEvent {
    /// The host runs.
    Started,
    /// The host would not start. `on_trial` is the version that a note says was
    /// applied and has not proven itself, where the install could be located.
    Failed { error: String, on_trial: Option<Version> },
    /// How the rollback ended.
    RolledBack(Result<(), String>),
}

/// What to do next.
#[derive(Debug, PartialEq, Eq)]
pub enum LaunchAction {
    /// Clear the note of an upgrade on trial, and show the host.
    Serve,
    /// Roll the upgrade back.
    RollBack,
    /// Clear the note of the upgrade on trial, and start the host again.
    Retry,
    /// Show why no host runs.
    Report(String),
    /// Nothing: the event answers no open question.
    Wait,
}

/// Why a launch failed whose rollback failed too: the latter is the actionable
/// one.
pub open spec fn rollback_failed(error: Seq<char>, rollback_error: Seq<char>) -> Seq<char> {
    "the upgraded DSH would not start ("@ + error + "), and rolling back failed too: "@
        + rollback_error
}

/// Take the next step of starting the host, undoing a bad upgrade if it will not
/// come up.
///
/// Exactly one rollback attempt is made, so a failure that is not the upgrade's
/// fault still reports its real error instead of cycling.
pub fn spawn_host(state: Launch, event: LaunchEvent) -> (step: (Launch, LaunchAction))
    ensures
        step.0@ == launch_leg(state@, event),
        match (state, event) {
            (Launch::First, LaunchEvent::Started) => step == (
                Launch::Finished,
                LaunchAction::Serve,
            ),
            (Launch::Second, LaunchEvent::Started) => step == (
                Launch::Finished,
                LaunchAction::Serve,
            ),
            (Launch::First, LaunchEvent::Failed { error, on_trial: Some(_) }) => step == (
                Launch::RollingBack(error),
                LaunchAction::RollBack,
            ),
            (Launch::First, LaunchEvent::Failed { error, on_trial: None }) => step == (
                Launch::Finished,
                LaunchAction::Report(error),
            ),
            (Launch::Second, LaunchEvent::Failed { error, .. }) => step == (
                Launch::Finished,
                LaunchAction::Report(error),
            ),
            (Launch::RollingBack(_), LaunchEvent::RolledBack(Ok(_))) => step == (
                Launch::Second,
                LaunchAction::Retry,
            ),
            (Launch::RollingBack(error), LaunchEvent::RolledBack(Err(rollback_error))) => {
                &&& step.0 == Launch::Finished
                &&& step.1 matches LaunchAction::Report(reason)
                &&& reason@ == rollback_failed(error@, rollback_error@)
            },
            _ => step == (state, LaunchAction::Wait),
        },
{
    match (state, event) {
        (Launch::First, LaunchEvent::Started) => (Launch::Finished, LaunchAction::Serve),
        (Launch::Second, LaunchEvent::Started) => (Launch::Finished, LaunchAction::Serve),
        (Launch::First, LaunchEvent::Failed { error, on_trial }) => match on_trial {
            Some(_) => (Launch::RollingBack(error), LaunchAction::RollBack),
            None => (Launch::Finished, LaunchAction::Report(error)),
        },
        (Launch::Second, LaunchEvent::Failed { error, .. }) => (
            Launch::Finished,
            LaunchAction::Report(error),
        ),
        (Launch::RollingBack(error), LaunchEvent::RolledBack(outcome)) => match outcome {
            Ok(_) => (Launch::Second, LaunchAction::Retry),
            Err(rollback_error) => {
                let s = text::plus(
                    text::own("the upgraded DSH would not start ("),
                    error.as_str(),
                );
                let s = text::plus(s, "), and rolling back failed too: ");
                let reason = text::plus(s, rollback_error.as_str());
                (Launch::Finished, LaunchAction::Report(reason))
            },
        },
        (state, _) => (state, LaunchAction::Wait),
    }
}

/// The stage of a launch, without what it carries along.
pub ghost enum LaunchLeg {
    First,
    RollingBack,
    Second,
    Finished,
}

impl View for Launch {
    type V = LaunchLeg;

    open spec fn view(&self) -> LaunchLeg {
        match self {
            Launch::First => LaunchLeg::First,
            Launch::RollingBack(_) => LaunchLeg::RollingBack,
            Launch::Second => LaunchLeg::Second,
            Launch::Finished => LaunchLeg::Finished,
        }
    }
}

/// The stage that follows an event, and whether it asks for a rollback or for
/// another start.
pub open spec fn launch_leg(leg: LaunchLeg, event: LaunchEvent) -> LaunchLeg {
    match (leg, event) {
        (LaunchLeg::First, LaunchEvent::Started) => LaunchLeg::Finished,
        (LaunchLeg::Second, LaunchEvent::Started) => LaunchLeg::Finished,
        (LaunchLeg::First, LaunchEvent::Failed { on_trial: Some(_), .. }) => LaunchLeg::RollingBack,
        (LaunchLeg::First, LaunchEvent::Failed { on_trial: None, .. }) => LaunchLeg::Finished,
        (LaunchLeg::Second, LaunchEvent::Failed { .. }) => LaunchLeg::Finished,
        (LaunchLeg::RollingBack, LaunchEvent::RolledBack(Ok(_))) => LaunchLeg::Second,
        (LaunchLeg::RollingBack, LaunchEvent::RolledBack(Err(_))) => LaunchLeg::Finished,
        _ => leg,
    }
}

/// How often a course of events makes a launch enter the stage `target`.
pub open spec fn times_entered(leg: LaunchLeg, target: LaunchLeg, events: Seq<LaunchEvent>) -> nat
    decreases events.len(),
{
    if events.len() == 0 {
        0
    } else {
        let next = launch_leg(leg, events[0]);
        let entered: nat = if next == target && leg != target {
            1
        } else {
            0
        };
        entered + times_entered(next, target, events.skip(1))
    }
}

proof fn lemma_launch_is_over(target: LaunchLeg, events: Seq<LaunchEvent>)
    ensures
        target !is Finished ==> times_entered(LaunchLeg::Finished, target, events) == 0,
    decreases events.len(),
{
    if events.len() > 0 {
        lemma_launch_is_over(target, events.skip(1));
    }
}

proof fn lemma_second_start_is_last(target: LaunchLeg, events: Seq<LaunchEvent>)
    ensures
        target is RollingBack || target is Second ==> times_entered(
            LaunchLeg::Second,
            target,
            events,
        ) == 0,
    decreases events.len(),
{
    if events.len() > 0 {
        lemma_second_start_is_last(target, events.skip(1));
        lemma_launch_is_over(target, events.skip(1));
    }
}

proof fn lemma_one_retry_after_rollback(events: Seq<LaunchEvent>)
    ensures
        times_entered(LaunchLeg::RollingBack, LaunchLeg::Second, events) <= 1,
        times_entered(LaunchLeg::RollingBack, LaunchLeg::RollingBack, events) == 0,
    decreases events.len(),
{
    if events.len() > 0 {
        lemma_one_retry_after_rollback(events.skip(1));
        lemma_second_start_is_last(LaunchLeg::Second, events.skip(1));
        lemma_second_start_is_last(LaunchLeg::RollingBack, events.skip(1));
        lemma_launch_is_over(LaunchLeg::Second, events.skip(1));
        lemma_launch_is_over(LaunchLeg::RollingBack, events.skip(1));
    }
}

/// Whatever happens, a launch rolls back at most once and starts the host at
/// most a second time.
pub proof fn one_rollback_and_one_retry(events: Seq<LaunchEvent>)
    ensures
        times_entered(LaunchLeg::First, LaunchLeg::RollingBack, events) <= 1,
        times_entered(LaunchLeg::First, LaunchLeg::Second, events) <= 1,
    decreases events.len(),
{
    if events.len() > 0 {
        one_rollback_and_one_retry(events.skip(1));
        lemma_one_retry_after_rollback(events.skip(1));
        lemma_launch_is_over(LaunchLeg::Second, events.skip(1));
        lemma_launch_is_over(LaunchLeg::RollingBack, events.skip(1));
    }
}

// --------------------------------------------------------------------- laws

/// Every version that a version manager has installed is looked at: with a home
/// directory, the last places tried for a launcher are `bin/dsh` of each of them, in
/// their order, and before them stand the well-known places under the home directory.
pub proof fn every_managed_version_is_tried(
    exe: Option<String>,
    home: Option<String>,
    managed: &Vec<String>,
    places: Vec<String>,
    i: int,
)
    requires
        call_ensures(launcher_candidates, (exe, home, managed), places),
        home is Some,
        0 <= i < managed@.len(),
    ensures
        places@.len() >= managed@.len() + 5,
        places@[places@.len() - managed@.len() + i]@ == path::joined(
            path::joined(managed@[i]@, "bin"@),
            "dsh"@,
        ),
        text::views(places@).contains(
            path::joined(path::joined(managed@[i]@, "bin"@), "dsh"@),
        ),
{
    let shown = text::views(places@);
    let tail = programs_in(text::views(managed@), "dsh"@);
    assert(shown == launcher_places(text::held(exe), text::held(home), text::views(managed@)));
    assert(launcher_tails().len() == 5);
    let k = places@.len() - managed@.len() + i;
    assert(shown[k] == places@[k]@);
    assert(shown[k] == tail[i]);
}

/// The places tried for a launcher, by their number: one inside the app bundle where the
/// program runs from one, and with a home directory five well-known ones under it, in
/// this order, and one for each managed version. Without a home there is nothing but the
/// bundle.
pub proof fn launcher_places_come_in_order(
    exe: Option<String>,
    home: Option<String>,
    managed: &Vec<String>,
    places: Vec<String>,
)
    requires
        call_ensures(launcher_candidates, (exe, home, managed), places),
    ensures
        ({
            let bundled: int = if exe matches Some(e) && path::parent_of(e@) matches Some(macos)
                && path::parent_of(macos) is Some {
                1
            } else {
                0
            };
            &&& bundled == 1 ==> places@[0]@ == path::joined(
                path::joined(
                    path::joined(path::parent_of(path::parent_of(exe->0@)->0)->0, "Resources"@),
                    "bin"@,
                ),
                "dsh"@,
            )
            &&& home is None ==> places@.len() == bundled
            &&& home matches Some(home) ==> {
                &&& places@.len() == bundled + 5 + managed@.len()
                &&& places@[bundled]@ == path::joined(home@, ".bun/bin/dsh"@)
                &&& places@[bundled + 1]@ == path::joined(home@, ".local/bin/dsh"@)
                &&& places@[bundled + 2]@ == path::joined(home@, ".volta/bin/dsh"@)
                &&& places@[bundled + 3]@ == path::joined(home@, "node_modules/.bin/dsh"@)
                &&& places@[bundled + 4]@ == path::joined(home@, ".npm-global/bin/dsh"@)
            }
        }),
{
    let shown = text::views(places@);
    let bundled = bundled_launcher(text::held(exe)).len() as int;
    assert(shown == launcher_places(text::held(exe), text::held(home), text::views(managed@)));
    assert(launcher_tails().len() == 5);
    if bundled > 0 {
        assert(shown.len() >= 1 && shown[0] == places@[0]@);
        assert(shown[0] == bundled_launcher(text::held(exe))[0]);
    }
    if let Some(home) = home {
        let tails = launcher_tails();
        assert(shown[bundled] == places@[bundled]@ && shown[bundled] == path::joined(
            home@,
            tails[0],
        ));
        assert(shown[bundled + 1] == places@[bundled + 1]@ && shown[bundled + 1] == path::joined(
            home@,
            tails[1],
        ));
        assert(shown[bundled + 2] == places@[bundled + 2]@ && shown[bundled + 2] == path::joined(
            home@,
            tails[2],
        ));
        assert(shown[bundled + 3] == places@[bundled + 3]@ && shown[bundled + 3] == path::joined(
            home@,
            tails[3],
        ));
        assert(shown[bundled + 4] == places@[bundled + 4]@ && shown[bundled + 4] == path::joined(
            home@,
            tails[4],
        ));
    }
}

/// A program that runs from `Contents/MacOS` of an app bundle tries the launcher in
/// `Contents/Resources/bin` of that bundle before any other.
pub proof fn the_bundled_launcher_comes_first(
    contents: Seq<char>,
    name: Seq<char>,
    exe: String,
    home: Option<String>,
    managed: &Vec<String>,
    places: Vec<String>,
)
    requires
        call_ensures(launcher_candidates, (Some(exe), home, managed), places),
        path::one_name(name),
        contents.len() > 0 && contents.last() != '/' && path::settled(contents) == contents,
        exe@ == path::joined(path::joined(contents, "MacOS"@), name),
    ensures
        places@.len() > 0,
        places@[0]@ == contents + "/Resources/bin/dsh"@,
{
    reveal_strlit("MacOS");
    reveal_strlit("Resources");
    reveal_strlit("bin");
    reveal_strlit("dsh");
    reveal_strlit("/Resources/bin/dsh");
    let macos = path::joined(contents, "MacOS"@);
    path::parent_of_joined(contents, "MacOS"@);
    path::parent_of_joined(macos, name);
    let resources = path::joined(contents, "Resources"@);
    path::joining_puts_one_separator(contents, "Resources"@);
    assert(resources.last() == 's');
    path::joining_puts_one_separator(resources, "bin"@);
    let bin = path::joined(resources, "bin"@);
    assert(bin.last() == 'n');
    path::joining_puts_one_separator(bin, "dsh"@);
    assert(path::joined(bin, "dsh"@) =~= contents + "/Resources/bin/dsh"@);
    let shown = text::views(places@);
    assert(shown == launcher_places(Some(exe@), text::held(home), text::views(managed@)));
    let bundled = bundled_launcher(Some(exe@));
    assert(bundled == seq![path::joined(bin, "dsh"@)]);
    assert(shown.len() >= bundled.len() && shown[0] == bundled[0]);
    assert(shown[0] == places@[0]@);
}

/// The places tried for a `node`: four well-known ones under the home directory, in this
/// order, and then `bin/node` of every managed version, in theirs.
pub proof fn node_places_come_in_order(
    home: &str,
    managed: &Vec<String>,
    places: Vec<String>,
    i: int,
)
    requires
        call_ensures(node_candidates, (home, managed), places),
    ensures
        places@.len() == 4 + managed@.len(),
        places@[0]@ == path::joined(home@, ".local/bin/node"@),
        places@[1]@ == path::joined(home@, ".bun/bin/node"@),
        places@[2]@ == path::joined(home@, ".volta/bin/node"@),
        places@[3]@ == path::joined(home@, ".hermes/node/bin/node"@),
        0 <= i < managed@.len() ==> places@[4 + i]@ == path::joined(
            path::joined(managed@[i]@, "bin"@),
            "node"@,
        ),
{
    let shown = text::views(places@);
    let tails = node_tails();
    assert(shown == placed(home@, tails) + programs_in(text::views(managed@), "node"@));
    assert(tails.len() == 4);
    assert(shown[0] == places@[0]@ && shown[0] == path::joined(home@, tails[0]));
    assert(shown[1] == places@[1]@ && shown[1] == path::joined(home@, tails[1]));
    assert(shown[2] == places@[2]@ && shown[2] == path::joined(home@, tails[2]));
    assert(shown[3] == places@[3]@ && shown[3] == path::joined(home@, tails[3]));
    if 0 <= i < managed@.len() {
        assert(shown[4 + i] == places@[4 + i]@);
        assert(shown[4 + i] == programs_in(text::views(managed@), "node"@)[i]);
    }
}

/// The version managers whose versions are tried are two: nvm and fnm, each in its
/// directory under the home directory.
pub proof fn two_version_managers_are_known(home: &str, roots: Vec<String>)
    requires
        call_ensures(manager_roots, (home,), roots),
    ensures
        roots@.len() == 2,
        roots@[0]@ == path::joined(home@, ".nvm/versions/node"@),
        roots@[1]@ == path::joined(home@, ".fnm/node-versions"@),
{
    let shown = text::views(roots@);
    assert(shown == placed(home@, manager_tails()));
    assert(manager_tails().len() == 2);
    assert(shown[0] == roots@[0]@ && shown[0] == path::joined(home@, manager_tails()[0]));
    assert(shown[1] == roots@[1]@ && shown[1] == path::joined(home@, manager_tails()[1]));
}

/// Which launcher runs: an explicit one that is not blank, whatever else is there; or
/// else the first candidate that is a file; or else the configured name.
pub proof fn the_launcher_is_the_first_that_is_there(
    configured: &str,
    explicit: Option<String>,
    candidates: &Vec<String>,
    is_file: &Vec<bool>,
    launcher: String,
    i: int,
)
    requires
        call_ensures(resolve_launcher, (configured, explicit, candidates, is_file), launcher),
    ensures
        ({
            let chosen = explicit matches Some(e) && exists|k: int|
                0 <= k < e@.len() && !text::is_white(#[trigger] e@[k]);
            &&& chosen ==> (explicit matches Some(e) && launcher@ == e@)
            &&& !chosen && 0 <= i < candidates@.len() && i < is_file@.len() && is_file@[i] && (
            forall|k: int| 0 <= k < i ==> !#[trigger] is_file@[k]) ==> launcher@
                == candidates@[i]@
            &&& !chosen && (forall|k: int|
                0 <= k < candidates@.len() && k < is_file@.len() ==> !#[trigger] is_file@[k])
                ==> launcher@ == configured@
        }),
{
    if let Some(e) = explicit {
        text::blank_is_trimmed_away(e@);
    }
    let shown = text::views(candidates@);
    install::the_first_present_is_chosen(shown, is_file@);
    if 0 <= i < candidates@.len() && i < is_file@.len() && is_file@[i] && (forall|k: int|
        0 <= k < i ==> !#[trigger] is_file@[k]) {
        if let Some(found) = install::first_present(shown, is_file@) {
            let j = choose|j: int|
                {
                    &&& 0 <= j < shown.len() && j < is_file@.len()
                    &&& #[trigger] is_file@[j]
                    &&& shown[j] == found
                    &&& forall|k: int| 0 <= k < j ==> !#[trigger] is_file@[k]
                };
            assert(i == j);
        }
    }
}

/// Which `node` runs the launcher: the first of the usual places that is a file, where
/// there is a home directory; or else the one on `PATH`, where it answers; or else none.
pub proof fn the_node_is_the_first_that_is_there(
    home: Option<String>,
    candidates: &Vec<String>,
    is_file: &Vec<bool>,
    on_path: bool,
    node: Option<String>,
    i: int,
)
    requires
        call_ensures(which_node, (home, candidates, is_file, on_path), node),
    ensures
        home is Some && 0 <= i < candidates@.len() && i < is_file@.len() && is_file@[i] && (forall|
            k: int,
        |
            0 <= k < i ==> !#[trigger] is_file@[k]) ==> text::held(node) == Some(candidates@[i]@),
        home is None || (forall|k: int|
            0 <= k < candidates@.len() && k < is_file@.len() ==> !#[trigger] is_file@[k])
            ==> text::held(node) == (if on_path {
            Some("node"@)
        } else {
            None
        }),
{
    let shown = text::views(candidates@);
    install::the_first_present_is_chosen(shown, is_file@);
    if 0 <= i < candidates@.len() && i < is_file@.len() && is_file@[i] && (forall|k: int|
        0 <= k < i ==> !#[trigger] is_file@[k]) {
        if let Some(found) = install::first_present(shown, is_file@) {
            let j = choose|j: int|
                {
                    &&& 0 <= j < shown.len() && j < is_file@.len()
                    &&& #[trigger] is_file@[j]
                    &&& shown[j] == found
                    &&& forall|k: int| 0 <= k < j ==> !#[trigger] is_file@[k]
                };
            assert(i == j);
        }
    }
}

/// The search path for a launcher, spelled out: its own directory, the directory of
/// `node` where there is one, and what was there before, with colons between them. What
/// is empty leaves no colon behind.
pub proof fn search_path_is_in_front(
    launcher: Seq<char>,
    dir: Seq<char>,
    existing: Seq<char>,
    node: Seq<char>,
    node_dir: Seq<char>,
)
    requires
        path::parent_of(launcher) == Some(dir),
        path::parent_of(node) == Some(node_dir),
    ensures
        ({
            let colon = seq![':'];
            &&& dir.len() > 0 && node_dir.len() > 0 && existing.len() > 0 ==> augmented_path(
                launcher,
                existing,
                Some(node),
            ) == dir + colon + node_dir + colon + existing
            &&& dir.len() > 0 && node_dir.len() > 0 && existing.len() == 0 ==> augmented_path(
                launcher,
                existing,
                Some(node),
            ) == dir + colon + node_dir
            &&& dir.len() == 0 && node_dir.len() > 0 && existing.len() > 0 ==> augmented_path(
                launcher,
                existing,
                Some(node),
            ) == node_dir + colon + existing
            &&& dir.len() > 0 && node_dir.len() == 0 && existing.len() > 0 ==> augmented_path(
                launcher,
                existing,
                Some(node),
            ) == dir + colon + existing
            &&& dir.len() == 0 && node_dir.len() > 0 && existing.len() == 0 ==> augmented_path(
                launcher,
                existing,
                Some(node),
            ) == node_dir
            &&& dir.len() > 0 && node_dir.len() == 0 && existing.len() == 0 ==> augmented_path(
                launcher,
                existing,
                Some(node),
            ) == dir
            &&& dir.len() == 0 && node_dir.len() == 0 ==> augmented_path(
                launcher,
                existing,
                Some(node),
            ) == existing
            &&& dir.len() > 0 && existing.len() > 0 ==> augmented_path(launcher, existing, None)
                == dir + colon + existing
            &&& dir.len() > 0 && existing.len() == 0 ==> augmented_path(launcher, existing, None)
                == dir
            &&& dir.len() == 0 ==> augmented_path(launcher, existing, None) == existing
        }),
{
    reveal_strlit(":");
    assert(":"@ =~= seq![':']);
    lemma_three_parts(dir, node_dir, existing);
    lemma_two_parts(dir, existing);
    lemma_two_parts(dir, node_dir);
    lemma_two_parts(node_dir, existing);
    assert(dir_of(Some(launcher)) + dir_of(Some(node)) + seq![existing] =~= seq![
        dir,
        node_dir,
        existing,
    ]);
    assert(dir_of(Some(launcher)) + dir_of(None) + seq![existing] =~= seq![dir, existing]);
}

proof fn lemma_one_part(a: Seq<char>)
    ensures
        filled(seq![a]) == (if a.len() > 0 {
            seq![a]
        } else {
            Seq::<Seq<char>>::empty()
        }),
{
    assert(seq![a].drop_last() =~= Seq::<Seq<char>>::empty());
    assert(filled(Seq::<Seq<char>>::empty()) =~= Seq::<Seq<char>>::empty());
    assert(filled(seq![a]) =~= (if a.len() > 0 {
        seq![a]
    } else {
        Seq::<Seq<char>>::empty()
    }));
}

proof fn lemma_two_parts(a: Seq<char>, b: Seq<char>)
    ensures
        filled(seq![a, b]) == filled(seq![a]) + filled(seq![b]),
        a.len() > 0 && b.len() > 0 ==> text::joined(filled(seq![a, b]), ":"@) == a + ":"@ + b,
        a.len() > 0 && b.len() == 0 ==> text::joined(filled(seq![a, b]), ":"@) == a,
        a.len() == 0 ==> text::joined(filled(seq![a, b]), ":"@) == b,
{
    lemma_one_part(a);
    lemma_one_part(b);
    assert(seq![a, b].drop_last() =~= seq![a]);
    assert(filled(seq![a, b]) =~= filled(seq![a]) + filled(seq![b]));
    if a.len() > 0 && b.len() > 0 {
        assert(filled(seq![a, b]) =~= seq![a, b]);
        assert(text::joined(seq![a], ":"@) == a);
    } else if a.len() > 0 {
        assert(filled(seq![a, b]) =~= seq![a]);
    } else if b.len() > 0 {
        assert(filled(seq![a, b]) =~= seq![b]);
    } else {
        assert(filled(seq![a, b]) =~= Seq::<Seq<char>>::empty());
        assert(b =~= Seq::<char>::empty());
    }
}

proof fn lemma_three_parts(a: Seq<char>, b: Seq<char>, c: Seq<char>)
    ensures
        a.len() > 0 && b.len() > 0 && c.len() > 0 ==> text::joined(filled(seq![a, b, c]), ":"@) == a
            + ":"@ + b + ":"@ + c,
        c.len() == 0 ==> text::joined(filled(seq![a, b, c]), ":"@) == text::joined(
            filled(seq![a, b]),
            ":"@,
        ),
        a.len() == 0 ==> text::joined(filled(seq![a, b, c]), ":"@) == text::joined(
            filled(seq![b, c]),
            ":"@,
        ),
        b.len() == 0 ==> text::joined(filled(seq![a, b, c]), ":"@) == text::joined(
            filled(seq![a, c]),
            ":"@,
        ),
        a.len() > 0 && b.len() > 0 ==> text::joined(filled(seq![a, b]), ":"@) == a + ":"@ + b,
        b.len() > 0 && c.len() > 0 ==> text::joined(filled(seq![b, c]), ":"@) == b + ":"@ + c,
        a.len() > 0 && c.len() > 0 ==> text::joined(filled(seq![a, c]), ":"@) == a + ":"@ + c,
{
    lemma_one_part(a);
    lemma_one_part(b);
    lemma_one_part(c);
    lemma_two_parts(a, b);
    lemma_two_parts(b, c);
    lemma_two_parts(a, c);
    assert(seq![a, b, c].drop_last() =~= seq![a, b]);
    let all = filled(seq![a, b, c]);
    assert(all =~= filled(seq![a, b]) + filled(seq![c]));
    if c.len() == 0 {
        assert(all =~= filled(seq![a, b]));
    }
    if a.len() == 0 {
        assert(all =~= filled(seq![b, c]));
    }
    if b.len() == 0 {
        assert(all =~= filled(seq![a, c]));
    }
    if a.len() > 0 && b.len() > 0 && c.len() > 0 {
        assert(filled(seq![a, b]) =~= seq![a, b]);
        assert(all =~= seq![a, b, c]);
        assert(text::joined(all, ":"@) =~= a + ":"@ + b + ":"@ + c);
    }
}

proof fn lemma_leading_word_is(s: Seq<char>) -> (n: int)
    ensures
        0 <= n <= s.len(),
        leading_word(s) == s.take(n),
        forall|i: int| 0 <= i < n ==> !text::is_white(#[trigger] s[i]),
        n == s.len() || text::is_white(s[n]),
    decreases s.len(),
{
    if s.len() == 0 || text::is_white(s[0]) {
        assert(s.take(0) =~= Seq::<char>::empty());
        0
    } else {
        let n = lemma_leading_word_is(s.skip(1));
        assert(seq![s[0]] + s.skip(1).take(n) =~= s.take(n + 1));
        assert forall|i: int| 0 <= i < n + 1 implies !text::is_white(#[trigger] s[i]) by {
            if i > 0 {
                assert(s.skip(1)[i - 1] == s[i]);
            }
        }
        if n < s.len() - 1 {
            assert(s.skip(1)[n] == s[n + 1]);
        }
        n + 1
    }
}

/// A URL that is read off a line stands behind the first marker of that line with
/// nothing but white space between them, is free of white space, is followed by white
/// space or by nothing, and is one for HTTP or HTTPS.
pub proof fn read_urls_stand_behind_the_marker(line: &str, url: Option<String>)
    requires
        call_ensures(extract_url, (line,), url),
    ensures
        url matches Some(url) ==> {
            &&& text::begins_with(url@, "http://"@) || text::begins_with(url@, "https://"@)
            &&& forall|k: int| 0 <= k < url@.len() ==> !text::is_white(#[trigger] url@[k])
            &&& text::position(line@, "dsh web:"@) matches Some(i)
            &&& exists|j: int|
                {
                    &&& i + 8 <= j && j + url@.len() <= line@.len()
                    &&& #[trigger] line@.subrange(j, j + url@.len()) == url@
                    &&& forall|k: int| i + 8 <= k < j ==> text::is_white(#[trigger] line@[k])
                    &&& j + url@.len() == line@.len() || text::is_white(line@[j + url@.len()])
                }
        },
{
    reveal_strlit("dsh web:");
    assert(MARKER@.len() == 8);
    if let Some(url) = url {
        let i = text::position(line@, MARKER@)->Some_0;
        text::lemma_find(line@, MARKER@, 0);
        let rest = line@.skip(i + 8);
        text::trimmed_is_the_inside(rest);
        let (lo, hi) = choose|lo: int, hi: int|
            {
                &&& 0 <= lo <= hi <= rest.len()
                &&& text::trimmed(rest) == #[trigger] rest.subrange(lo, hi)
                &&& forall|k: int| 0 <= k < lo ==> text::is_white(#[trigger] rest[k])
                &&& forall|k: int| hi <= k < rest.len() ==> text::is_white(#[trigger] rest[k])
            };
        let inside = text::trimmed(rest);
        let n = lemma_leading_word_is(inside);
        let j = i + 8 + lo;
        assert(line@.subrange(j, j + n) =~= url@);
        assert forall|k: int| i + 8 <= k < j implies text::is_white(#[trigger] line@[k]) by {
            assert(rest[k - i - 8] == line@[k]);
        }
        assert forall|k: int| 0 <= k < url@.len() implies !text::is_white(#[trigger] url@[k]) by {
            assert(url@[k] == inside[k]);
        }
        if j + n < line@.len() {
            if n < inside.len() {
                assert(inside[n] == line@[j + n]);
            } else {
                assert(rest[hi] == line@[j + n]);
            }
        }
    }
}

proof fn lemma_gap_is_trimmed(gap: Seq<char>, s: Seq<char>)
    requires
        forall|i: int| 0 <= i < gap.len() ==> text::is_white(#[trigger] gap[i]),
        s.len() > 0,
        !text::is_white(s[0]),
    ensures
        text::trim_start(gap + s) == s,
    decreases gap.len(),
{
    let all = gap + s;
    if gap.len() == 0 {
        assert(all =~= s);
    } else {
        assert(text::is_white(gap[0]));
        let rest = gap.skip(1);
        assert forall|i: int| 0 <= i < rest.len() implies text::is_white(#[trigger] rest[i]) by {
            assert(rest[i] == gap[i + 1]);
        }
        lemma_gap_is_trimmed(rest, s);
        assert(all.skip(1) =~= rest + s);
        assert(all[0] == gap[0]);
    }
}

/// A URL for HTTP or HTTPS that stands behind the first marker of a line is read off
/// it, whatever comes before the marker, however much white space comes between, and
/// whatever follows a white space behind it.
pub proof fn urls_are_read_wherever_they_stand(
    front: Seq<char>,
    gap: Seq<char>,
    url: Seq<char>,
    tail: Seq<char>,
)
    requires
        text::position(front + "dsh web:"@ + gap + url + tail, "dsh web:"@) == Some(
            front.len() as int,
        ),
        forall|i: int| 0 <= i < gap.len() ==> text::is_white(#[trigger] gap[i]),
        text::begins_with(url, "http://"@) || text::begins_with(url, "https://"@),
        forall|i: int| 0 <= i < url.len() ==> !text::is_white(#[trigger] url[i]),
        tail.len() == 0 || text::is_white(tail[0]),
    ensures
        url_in(front + "dsh web:"@ + gap + url + tail) == Some(url),
{
    reveal_strlit("dsh web:");
    reveal_strlit("http://");
    reveal_strlit("https://");
    let line = front + "dsh web:"@ + gap + url + tail;
    let rest = line.skip(0int + front.len() + MARKER@.len());
    assert(rest =~= gap + (url + tail));
    assert((url + tail)[0] == url[0]);
    lemma_gap_is_trimmed(gap, url + tail);
    assert(!text::is_white(url[url.len() - 1]));
    let kept = lemma_trimmed_tail(url, tail);
    assert(text::trimmed(rest) == url + kept);
    lemma_leading_word(url, kept);
}

/// What each event of the wait leads to. The wait ends well exactly with a line that
/// carries a URL, and goes on exactly with one that carries none; the host is stopped
/// only where its time is up, and every failure says what happened.
pub proof fn the_wait_ends_with_the_url(event: HostEvent, action: HostAction)
    requires
        call_ensures(start, (event,), action),
    ensures
        action is Ready <==> (event matches HostEvent::Line(line) && url_in(line@) is Some),
        action is Read <==> (event matches HostEvent::Line(line) && url_in(line@) is None),
        action is Fail <==> event is Closed || event is Broken,
        action is StopAndFail <==> event is Late,
        action matches HostAction::Ready(url) ==> (event matches HostEvent::Line(line) && url_in(
            line@,
        ) == Some(url@)),
        action matches HostAction::StopAndFail(reason) ==> reason@
            == "dsh web did not print a URL within 120s"@,
        event matches HostEvent::Broken(err) ==> (action matches HostAction::Fail(reason) && reason@
            == "reading dsh web output: "@ + err@),
        event is Closed ==> (action matches HostAction::Fail(reason) && reason@
            == "dsh web exited before printing a URL"@),
{
    if event is Late {
        reveal_strlit("dsh web did not print a URL within ");
        reveal_strlit("s");
        reveal_strlit("dsh web did not print a URL within 120s");
        assert(text::decimal_digits(120) =~= seq!['1', '2', '0']) by {
            reveal_with_fuel(text::decimal_digits, 4);
            assert(text::digit(1) == '1' && text::digit(2) == '2' && text::digit(0) == '0');
        }
        assert("dsh web did not print a URL within "@ + text::decimal_digits(120) + "s"@
            =~= "dsh web did not print a URL within 120s"@);
    }
}

/// The host is started as `web`, is told to open no browser, and gets the port in
/// decimal.
pub proof fn the_host_opens_no_browser(port: u16, args: Vec<String>)
    requires
        call_ensures(start_args, (port,), args),
    ensures
        args@.len() == 4,
        args@[0]@ == "web"@,
        args@[1]@ == "--no-open"@,
        args@[2]@ == "--port"@,
        text::number(args@[3]@) == Some(port as u64),
{
    let shown = text::views(args@);
    assert(shown == seq!["web"@, "--no-open"@, "--port"@, text::decimal_digits(port as nat)]);
    assert(shown.len() == 4);
    assert(shown[0] == args@[0]@ && shown[1] == args@[1]@ && shown[2] == args@[2]@ && shown[3]
        == args@[3]@);
    text::decimal_then_number(port as u64);
}

/// What each event of a launch leads to. A host that runs is shown; the first start that
/// fails is followed by a rollback exactly where an upgrade is on trial; the host is
/// started again exactly after a rollback that succeeded; and any other failure is
/// reported with its own reason.
pub proof fn a_bad_upgrade_is_rolled_back(
    state: Launch,
    event: LaunchEvent,
    step: (Launch, LaunchAction),
)
    requires
        call_ensures(spawn_host, (state, event), step),
    ensures
        step.1 is Serve <==> event is Started && (state is First || state is Second),
        step.1 is RollBack <==> state is First && (event matches LaunchEvent::Failed {
            on_trial,
            ..
        } && on_trial is Some),
        step.1 is Retry <==> state is RollingBack && (event matches LaunchEvent::RolledBack(outcome)
            && outcome is Ok),
        step.1 is Serve || step.1 is Report ==> step.0 is Finished,
        step.1 is RollBack ==> (event matches LaunchEvent::Failed { error, .. } && step.0
            == Launch::RollingBack(error)),
        step.1 is Retry ==> step.0 is Second,
        step.1 is Wait ==> step.0 == state,
        state is Finished ==> step.1 is Wait,
        event matches LaunchEvent::Failed { error, on_trial } ==> (state is Second || (state is First
            && on_trial is None) ==> step.1 == LaunchAction::Report(error)),
{
}

/// Where the rollback of an upgrade that would not start fails too, the report gives both
/// reasons.
pub proof fn a_failed_rollback_reports_both_reasons(
    error: String,
    rollback_error: String,
    step: (Launch, LaunchAction),
)
    requires
        call_ensures(
            spawn_host,
            (
                Launch::RollingBack(error),
                LaunchEvent::RolledBack(Err::<(), String>(rollback_error)),
            ),
            step,
        ),
    ensures
        step.0 is Finished,
        step.1 matches LaunchAction::Report(reason) && reason@
            == "the upgraded DSH would not start ("@ + error@ + "), and rolling back failed too: "@
            + rollback_error@,
{
}

/// What a launcher runs with as its search path: its own directory in front, then that of
/// `node`, then what was there before, with colons between them and none to spare.
pub proof fn launchers_find_their_node(
    dir: Seq<char>,
    name: Seq<char>,
    launcher: &str,
    existing: String,
    node_dir: Seq<char>,
    node_name: Seq<char>,
    node: String,
    with_node: String,
    without: String,
)
    requires
        call_ensures(path_with_node_list, (launcher, existing, Some(node)), with_node),
        call_ensures(path_with_node_list, (launcher, existing, None::<String>), without),
        path::one_name(name),
        path::one_name(node_name),
        launcher@ == path::joined(dir, name),
        node@ == path::joined(node_dir, node_name),
        dir.len() > 0 && path::settled(dir) == dir,
        node_dir.len() > 0 && path::settled(node_dir) == node_dir,
    ensures
        existing@.len() > 0 ==> with_node@ == dir + seq![':'] + node_dir + seq![':'] + existing@,
        existing@.len() == 0 ==> with_node@ == dir + seq![':'] + node_dir,
        existing@.len() > 0 ==> without@ == dir + seq![':'] + existing@,
        existing@.len() == 0 ==> without@ == dir,
{
    path::parent_of_joined(dir, name);
    path::parent_of_joined(node_dir, node_name);
    search_path_is_in_front(launcher@, dir, existing@, node@, node_dir);
}

/// A launcher that is a bare name adds nothing to the search path, and so does a `node`
/// that is one.
pub proof fn bare_names_add_nothing(
    launcher: &str,
    existing: String,
    node: String,
    search: String,
)
    requires
        call_ensures(path_with_node_list, (launcher, existing, Some(node)), search),
        path::one_name(launcher@),
        path::one_name(node@),
    ensures
        search@ == existing@,
{
    let none = Seq::<char>::empty();
    assert(!launcher@.contains('/') && !node@.contains('/'));
    assert(launcher@.contains(launcher@[0]) && node@.contains(node@[0]));
    assert(path::joined(none, launcher@) =~= launcher@);
    assert(path::joined(none, node@) =~= node@);
    path::parent_of_joined(none, launcher@);
    path::parent_of_joined(none, node@);
    assert(path::settled(none) == none);
    let parts = dir_of(Some(launcher@)) + dir_of(Some(node@)) + seq![existing@];
    assert(parts =~= seq![none, none, existing@]);
    lemma_three_parts(none, none, existing@);
    lemma_two_parts(none, existing@);
}

/// A launcher at the root, or an empty one, has no directory to add.
pub proof fn a_launcher_without_a_directory_adds_nothing(
    launcher: &str,
    existing: String,
    search: String,
)
    requires
        call_ensures(path_with_node_list, (launcher, existing, None::<String>), search),
        path::parent_of(launcher@) is None,
    ensures
        search@ == existing@,
{
    let parts = dir_of(Some(launcher@)) + dir_of(None) + seq![existing@];
    assert(parts =~= seq![existing@]);
    lemma_one_part(existing@);
    text::joining_separates_the_parts(Seq::<Seq<char>>::empty(), existing@, ":"@);
    assert(existing@.len() == 0 ==> existing@ =~= Seq::<char>::empty());
}

/// Why a host could not be started at all names the launcher and what went wrong.
pub proof fn a_host_that_cannot_start_is_named(launcher: &str, err: &str, reason: String)
    requires
        call_ensures(not_started, (launcher, err), reason),
    ensures
        reason@ == "could not start `"@ + launcher@ + " web`: "@ + err@,
{
}

} // verus!
