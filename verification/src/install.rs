//! Where the DSH that the shell runs lives on disk.

use crate::path;
use crate::text;
use crate::version;
use crate::version::Version;
use vstd::prelude::*;

verus! {

/// The npm scope every DSH package lives under.
pub const SCOPE: &'static str = "@deepseek-ai";

/// The package whose version *is* the DSH version.
pub const ROOT_PACKAGE: &'static str = "dsh";

/// Directory under the install prefix that upgrades are built in.
pub const STAGING_DIR: &'static str = "dsh-shell-staging";

/// Directory name holding the previous scope during an upgrade.
pub const BACKUP_DIR: &'static str = "previous";

/// Where the DSH that this shell runs actually lives.
#[derive(Debug, Clone, PartialEq, Eq)]
pub struct Install {
    /// The path to *execute* to run this DSH — the launcher as the shell found
    /// it, symlink and all, because that symlink is what carries the executable
    /// bit.
    pub launcher: String,
    /// The launcher with symlinks resolved, used only to read the layout off.
    pub resolved: String,
    /// The `node_modules/@deepseek-ai` directory holding the running packages.
    pub scope: String,
    /// The global prefix (`~/.bun/install/global`), where a staged tree is built
    /// beside the live one so the final rename stays on one filesystem.
    pub prefix: String,
    /// The package manager to stage with, resolved once.
    pub bun: Option<String>,
}

/// The scope and the prefix of the install that a resolved launcher belongs to:
/// `<prefix>/node_modules/@deepseek-ai/dsh/lib/bin.js`. Any other shape — a bundled
/// runtime, a source checkout — belongs to none.
pub open spec fn layout(resolved: Seq<char>) -> Option<(Seq<char>, Seq<char>)> {
    let lib = climbed(Some(resolved), "bin.js"@);
    match climbed(climbed(lib, "lib"@), ROOT_PACKAGE@) {
        Some(scope) => match climbed(climbed(Some(scope), SCOPE@), "node_modules"@) {
            Some(prefix) => Some((scope, prefix)),
            None => None,
        },
        None => None,
    }
}

/// The directory of a path whose last component is `name`; none for any other.
pub open spec fn climbed(p: Option<Seq<char>>, name: Seq<char>) -> Option<Seq<char>> {
    match p {
        Some(p) => if path::name_of(p) == Some(name) {
            path::parent_of(p)
        } else {
            None
        },
        None => None,
    }
}

fn climb(p: Option<String>, name: &str) -> (dir: Option<String>)
    ensures
        text::held(dir) == climbed(text::held(p), name@),
{
    match p {
        Some(p) => match path::file_name(p.as_str()) {
            Some(last) => if text::same(last.as_str(), name) {
                path::parent(p.as_str())
            } else {
                None
            },
            None => None,
        },
        None => None,
    }
}

/// The scope and the prefix behind a resolved launcher.
pub fn locate(resolved: &str) -> (found: Option<(String, String)>)
    ensures
        match found {
            Some((scope, prefix)) => layout(resolved@) == Some((scope@, prefix@)),
            None => layout(resolved@) is None,
        },
{
    let lib = climb(Some(text::own(resolved)), "bin.js");
    match climb(climb(lib, "lib"), ROOT_PACKAGE) {
        Some(scope) => {
            let modules = climb(Some(scope.clone()), SCOPE);
            match climb(modules, "node_modules") {
                Some(prefix) => Some((scope, prefix)),
                None => None,
            }
        },
        None => None,
    }
}

/// What an install is: its five paths.
pub ghost struct Place {
    pub launcher: Seq<char>,
    pub resolved: Seq<char>,
    pub scope: Seq<char>,
    pub prefix: Seq<char>,
    pub bun: Option<Seq<char>>,
}

impl View for Install {
    type V = Place;

    open spec fn view(&self) -> Place {
        Place {
            launcher: self.launcher@,
            resolved: self.resolved@,
            scope: self.scope@,
            prefix: self.prefix@,
            bun: text::held(self.bun),
        }
    }
}

/// Where upgrades under `prefix` are built.
pub open spec fn staging_of(prefix: Seq<char>) -> Seq<char> {
    path::joined(prefix, STAGING_DIR@)
}

/// Where the tree for version `v` is built.
pub open spec fn stage_of(prefix: Seq<char>, v: version::Release) -> Seq<char> {
    path::joined(staging_of(prefix), version::version_text(v))
}

/// The scope directory of the tree built for version `v`.
pub open spec fn staged_scope_of(prefix: Seq<char>, v: version::Release) -> Seq<char> {
    path::joined(path::joined(stage_of(prefix, v), "node_modules"@), SCOPE@)
}

/// The launcher of a tree, by its scope directory.
pub open spec fn launcher_in(scope: Seq<char>) -> Seq<char> {
    path::joined(path::joined(path::joined(scope, ROOT_PACKAGE@), "lib"@), "bin.js"@)
}

/// Whether the live tree of an install lies outside its staging directory, as it does
/// for every install that [`Install::discover`] finds.
pub open spec fn live_is_outside(place: Place) -> bool {
    !path::inside(place.scope, staging_of(place.prefix))
}

impl Install {
    /// The install behind `launcher`, or `None` when the layout is not one this
    /// module understands — a bundled runtime or a source checkout, both of
    /// which have their own update story.
    ///
    /// `resolved` is the launcher with symlinks followed, and `bun` the package
    /// manager that [`resolve_bun`] settled on. The shape being looked for is
    /// `<prefix>/node_modules/@deepseek-ai/dsh/lib/bin.js`.
    pub fn discover(launcher: &str, resolved: &str, bun: Option<String>) -> (install: Option<
        Install,
    >)
        ensures
            match install {
                Some(install) => {
                    &&& layout(resolved@) == Some((install.scope@, install.prefix@))
                    &&& install.launcher@ == launcher@
                    &&& install.resolved@ == resolved@
                    &&& text::held(install.bun) == text::held(bun)
                    &&& live_is_outside(install@)
                },
                None => layout(resolved@) is None,
            },
    {
        match locate(resolved) {
            Some((scope, prefix)) => {
                let install = Install {
                    launcher: text::own(launcher),
                    resolved: text::own(resolved),
                    scope,
                    prefix,
                    bun,
                };
                proof {
                    live_and_staged_trees_lie_apart(install@);
                }
                Some(install)
            },
            None => None,
        }
    }

    /// A copy of this install.
    pub fn copy(&self) -> (copy: Install)
        ensures
            copy@ == self@,
    {
        Install {
            launcher: self.launcher.clone(),
            resolved: self.resolved.clone(),
            scope: self.scope.clone(),
            prefix: self.prefix.clone(),
            bun: match &self.bun {
                Some(bun) => Some(bun.clone()),
                None => None,
            },
        }
    }

    /// The directory that upgrades of this install are built in.
    pub fn staging_dir(&self) -> (dir: String)
        ensures
            dir@ == staging_of(self.prefix@),
    {
        path::join(self.prefix.as_str(), STAGING_DIR)
    }

    /// Where a staged tree for `version` is built.
    ///
    /// Under the install prefix rather than the shell's own cache, because the
    /// final step renames this directory over the live scope and `rename` only
    /// works within one filesystem.
    pub fn stage_dir(&self, version: &Version) -> (dir: String)
        ensures
            dir@ == stage_of(self.prefix@, version@),
    {
        path::join(self.staging_dir().as_str(), version.to_string().as_str())
    }

    /// Where the previous scope is parked during an upgrade.
    pub fn backup_dir(&self) -> (dir: String)
        ensures
            dir@ == path::joined(staging_of(self.prefix@), BACKUP_DIR@),
    {
        path::join(self.staging_dir().as_str(), BACKUP_DIR)
    }

    /// Where a tree that failed on its first launch is parked.
    pub fn failed_dir(&self) -> (dir: String)
        ensures
            dir@ == path::joined(staging_of(self.prefix@), "failed-at"@),
    {
        path::join(self.staging_dir().as_str(), "failed-at")
    }

    /// The staged equivalent of [`Install::launcher`].
    pub fn staged_launcher(&self, version: &Version) -> (launcher: String)
        ensures
            launcher@ == launcher_in(staged_scope_of(self.prefix@, version@)),
    {
        let scope = self.staged_scope(version);
        let dsh = path::join(scope.as_str(), ROOT_PACKAGE);
        let lib = path::join(dsh.as_str(), "lib");
        path::join(lib.as_str(), "bin.js")
    }

    /// The staged scope directory, ready to be renamed into place.
    pub fn staged_scope(&self, version: &Version) -> (scope: String)
        ensures
            scope@ == staged_scope_of(self.prefix@, version@),
    {
        let modules = path::join(self.stage_dir(version).as_str(), "node_modules");
        path::join(modules.as_str(), SCOPE)
    }

    /// The program and arguments that run the tree staged for `version`.
    ///
    /// A staged tree has no executable shim of its own, so the package manager runs
    /// the staged script, which is what the shim of an installed tree does. The shim
    /// beside the package manager belongs to the live tree and proves nothing here.
    pub fn staged_command(&self, version: &Version, script_is_file: bool) -> (command: Result<
        (String, Vec<String>),
        String,
    >)
        ensures
            match command {
                Ok((program, args)) => {
                    &&& script_is_file
                    &&& text::held(self.bun) == Some(program@)
                    &&& text::views(args@) =~= seq![
                        "run"@,
                        launcher_in(staged_scope_of(self.prefix@, version@)),
                    ]
                },
                Err(err) => if !script_is_file {
                    err@ == "nothing to run at "@ + launcher_in(
                        staged_scope_of(self.prefix@, version@),
                    )
                } else {
                    &&& self.bun is None
                    &&& err@ == "no package manager available to run the staged tree"@
                },
            },
    {
        let script = self.staged_launcher(version);
        if !script_is_file {
            return Err(text::plus(text::own("nothing to run at "), script.as_str()));
        }
        match &self.bun {
            Some(bun) => {
                let mut args: Vec<String> = Vec::new();
                args.push(text::own("run"));
                args.push(script);
                Ok((bun.clone(), args))
            },
            None => Err(text::own("no package manager available to run the staged tree")),
        }
    }
}

/// The package manager beside a launcher, which is how it installs itself.
pub open spec fn beside(launcher: Seq<char>) -> Option<Seq<char>> {
    match path::parent_of(launcher) {
        Some(bin) => Some(path::joined(bin, "bun"@)),
        None => None,
    }
}

/// The package manager beside a launcher, where the launcher has a directory.
pub fn bun_beside(launcher: &str) -> (bun: Option<String>)
    ensures
        text::held(bun) == beside(launcher@),
{
    match path::parent(launcher) {
        Some(bin) => Some(path::join(bin.as_str(), "bun")),
        None => None,
    }
}

/// The places a package manager may be that answers neither beside the launcher
/// nor on `PATH`, in the order they are tried: among the install's own binaries,
/// then under the home directory.
pub open spec fn bun_places(prefix: Seq<char>, home: Option<Seq<char>>) -> Seq<Seq<char>> {
    let own = seq![path::joined(path::joined(path::joined(prefix, "node_modules"@), ".bin"@), "bun"@)];
    let under_home = match home {
        Some(home) => seq![path::joined(path::joined(path::joined(home, ".bun"@), "bin"@), "bun"@)],
        None => Seq::<Seq<char>>::empty(),
    };
    own + under_home
}

/// The places a package manager may be, after the one beside the launcher and the
/// one on `PATH`.
pub fn bun_candidates(prefix: &str, home: Option<String>) -> (places: Vec<String>)
    ensures
        text::views(places@) == bun_places(prefix@, text::held(home)),
{
    let mut places: Vec<String> = Vec::new();
    let modules = path::join(prefix, "node_modules");
    let bin = path::join(modules.as_str(), ".bin");
    places.push(path::join(bin.as_str(), "bun"));
    if let Some(home) = home {
        let dot = path::join(home.as_str(), ".bun");
        let bin = path::join(dot.as_str(), "bin");
        places.push(path::join(bin.as_str(), "bun"));
    }
    assert(text::views(places@) =~= bun_places(prefix@, text::held(home)));
    places
}

/// The first candidate that is present.
pub open spec fn first_present(candidates: Seq<Seq<char>>, present: Seq<bool>) -> Option<Seq<char>>
    decreases candidates.len(),
{
    if candidates.len() == 0 || present.len() == 0 {
        None
    } else if present[0] {
        Some(candidates[0])
    } else {
        first_present(candidates.skip(1), present.skip(1))
    }
}

/// The first of `candidates` that is present; `present` answers for each of them
/// in turn, and a candidate without an answer is absent.
pub fn pick_present(candidates: &Vec<String>, present: &Vec<bool>) -> (chosen: Option<String>)
    ensures
        text::held(chosen) == first_present(text::views(candidates@), present@),
{
    let ghost all = text::views(candidates@);
    let mut i: usize = 0;
    assert(all.skip(0) == all && present@.skip(0) == present@);
    while i < candidates.len() && i < present.len()
        invariant
            i <= candidates@.len(),
            i <= present@.len(),
            all == text::views(candidates@),
            first_present(all, present@) == first_present(
                all.skip(i as int),
                present@.skip(i as int),
            ),
        decreases candidates@.len() - i,
    {
        if present[i] {
            return Some(candidates[i].clone());
        }
        assert(all.skip(i as int).skip(1) == all.skip(i + 1));
        assert(present@.skip(i as int).skip(1) == present@.skip(i + 1));
        i += 1;
    }
    None
}

/// The package manager to stage with: the one beside the launcher, then a `bun` that
/// answers on `PATH`, then a sibling of the live install. `None` disables upgrading
/// rather than failing at the last step.
///
/// `beside_is_file` answers for [`bun_beside`], and `is_file` for each of
/// [`bun_candidates`] in turn.
pub fn resolve_bun(
    launcher: &str,
    prefix: &str,
    home: Option<String>,
    beside_is_file: bool,
    on_path: bool,
    is_file: &Vec<bool>,
) -> (bun: Option<String>)
    ensures
        text::held(bun) == (if beside_is_file && beside(launcher@) is Some {
            beside(launcher@)
        } else if on_path {
            Some("bun"@)
        } else {
            first_present(bun_places(prefix@, text::held(home)), is_file@)
        }),
{
    if beside_is_file {
        if let Some(found) = bun_beside(launcher) {
            return Some(found);
        }
    }
    if on_path {
        return Some(text::own("bun"));
    }
    pick_present(&bun_candidates(prefix, home), is_file)
}

// --------------------------------------------------------------------- laws

/// The text of a version begins with a digit.
pub proof fn lemma_version_text_starts(v: version::Release)
    ensures
        version::version_text(v).len() > 0,
        text::is_digit(version::version_text(v)[0]),
{
    let major = text::decimal_digits(v.major as nat);
    text::lemma_decimal(v.major as nat);
    assert(text::is_digit(major[0]));
    assert(version::version_text(v)[0] == major[0]);
}

/// A staged tree is built below the install prefix, so that renaming it into
/// place stays on one filesystem.
pub proof fn stage_is_inside_prefix(prefix: Seq<char>, v: version::Release)
    ensures
        path::inside(staging_of(prefix), prefix),
        path::inside(stage_of(prefix, v), prefix),
        path::inside(staged_scope_of(prefix, v), prefix),
{
    reveal_strlit("dsh-shell-staging");
    reveal_strlit("node_modules");
    reveal_strlit("@deepseek-ai");
    lemma_version_text_starts(v);
    path::joined_is_inside(prefix, STAGING_DIR@);
    path::joined_is_inside(staging_of(prefix), version::version_text(v));
    path::inside_is_transitive(stage_of(prefix, v), staging_of(prefix), prefix);
    let modules = path::joined(stage_of(prefix, v), "node_modules"@);
    path::joined_is_inside(stage_of(prefix, v), "node_modules"@);
    path::inside_is_transitive(modules, stage_of(prefix, v), prefix);
    path::joined_is_inside(modules, SCOPE@);
    path::inside_is_transitive(staged_scope_of(prefix, v), modules, prefix);
}

/// The launcher of a tree lies below the scope directory of that tree: the tree
/// that is proved to start is the tree that is moved into place.
pub proof fn launcher_is_inside_scope(scope: Seq<char>)
    ensures
        path::inside(launcher_in(scope), scope),
{
    reveal_strlit("dsh");
    reveal_strlit("lib");
    reveal_strlit("bin.js");
    let dsh = path::joined(scope, ROOT_PACKAGE@);
    let lib = path::joined(dsh, "lib"@);
    path::joined_is_inside(scope, ROOT_PACKAGE@);
    path::joined_is_inside(dsh, "lib"@);
    path::joined_is_inside(lib, "bin.js"@);
    path::inside_is_transitive(lib, dsh, scope);
    path::inside_is_transitive(launcher_in(scope), lib, scope);
}

/// The layout of a package-manager install is recognised below any prefix.
pub proof fn global_layout_is_recognised(prefix: Seq<char>)
    ensures
        ({
            let scope = path::joined(path::joined(prefix, "node_modules"@), SCOPE@);
            layout(launcher_in(scope)) == Some((scope, path::settled(prefix)))
        }),
{
    reveal_strlit("dsh");
    reveal_strlit("lib");
    reveal_strlit("bin.js");
    reveal_strlit("node_modules");
    reveal_strlit("@deepseek-ai");
    let modules = path::joined(prefix, "node_modules"@);
    let scope = path::joined(modules, SCOPE@);
    let dsh = path::joined(scope, ROOT_PACKAGE@);
    let lib = path::joined(dsh, "lib"@);
    path::parent_of_joined(prefix, "node_modules"@);
    path::name_of_joined(prefix, "node_modules"@);
    path::parent_of_joined(modules, SCOPE@);
    path::name_of_joined(modules, SCOPE@);
    path::parent_of_joined(scope, ROOT_PACKAGE@);
    path::name_of_joined(scope, ROOT_PACKAGE@);
    path::parent_of_joined(dsh, "lib"@);
    path::name_of_joined(dsh, "lib"@);
    path::parent_of_joined(lib, "bin.js"@);
    path::name_of_joined(lib, "bin.js"@);
}

/// The live tree of every recognised install and its staging directory lie apart:
/// neither is below the other.
pub proof fn live_and_staged_trees_lie_apart(place: Place)
    requires
        layout(place.resolved) == Some((place.scope, place.prefix)),
    ensures
        live_is_outside(place),
        !path::inside(staging_of(place.prefix), place.scope),
{
    reveal_strlit("dsh-shell-staging");
    reveal_strlit("node_modules");
    let staging = staging_of(place.prefix);
    let scope = path::settled(place.scope);
    let above = scope.take(path::base_start(scope));
    let modules = path::settled(above);
    path::lemma_settled_prefix(place.scope);
    path::lemma_base_bounds(scope);
    path::lemma_settled_prefix(above);
    path::lemma_settled_twice(above);
    path::lemma_base_bounds(modules);
    // What stands in front of `node_modules` is the prefix, perhaps with separators
    // and dots behind it.
    let front = modules.take(path::base_start(modules));
    assert(modules.skip(path::base_start(modules)) == "node_modules"@);
    path::lemma_settled_prefix(front);
    path::lemma_settled_off(front);
    assert(place.prefix == path::settled(front));
    // The first character of the staging directory's name is not what stands at its
    // place in the path of the live tree.
    let at = staging.len() - STAGING_DIR@.len();
    assert(staging[at] == 'd');
    assert(at <= front.len());
    assert(modules[at] != 'd') by {
        if at < front.len() {
            assert(front[at] == modules[at]);
        } else {
            assert(modules[at] == modules.skip(path::base_start(modules))[0]);
        }
    }
    assert(place.scope[at] == modules[at]) by {
        assert(above.take(modules.len() as int)[at] == above[at]);
        assert(scope[at] == above[at]);
        assert(place.scope.take(scope.len() as int)[at] == place.scope[at]);
    }
    if path::inside(place.scope, staging) {
        assert(place.scope[at] == place.scope.take(staging.len() as int)[at]);
    }
    if path::inside(staging, place.scope) {
        assert(staging[at] == staging.take(place.scope.len() as int)[at]);
    }
}

/// Where the trees of an install stand, spelled out: below the prefix, in a directory of
/// the shell's own, the new tree under its version, the previous one and the failed one
/// each under a name of its own.
pub proof fn trees_have_their_places(
    install: &Install,
    version: &Version,
    stage: String,
    scope: String,
    launcher: String,
    backup: String,
    failed: String,
    shown: String,
)
    requires
        install.prefix@.len() > 0,
        install.prefix@.last() != '/',
        call_ensures(Install::stage_dir, (install, version), stage),
        call_ensures(Install::staged_scope, (install, version), scope),
        call_ensures(Install::staged_launcher, (install, version), launcher),
        call_ensures(Install::backup_dir, (install,), backup),
        call_ensures(Install::failed_dir, (install,), failed),
        call_ensures(Version::to_string, (version,), shown),
        shown@.last() != '/',
    ensures
        stage@ == install.prefix@ + "/dsh-shell-staging/"@ + shown@,
        scope@ == stage@ + "/node_modules/@deepseek-ai"@,
        launcher@ == scope@ + "/dsh/lib/bin.js"@,
        backup@ == install.prefix@ + "/dsh-shell-staging/previous"@,
        failed@ == install.prefix@ + "/dsh-shell-staging/failed-at"@,
{
    lemma_version_text_starts(version@);
    let staging = staging_of(install.prefix@);
    lemma_staging_spelled(install.prefix@);
    path::joining_puts_one_separator(staging, shown@);
    path::joining_puts_one_separator(staging, BACKUP_DIR@);
    path::joining_puts_one_separator(staging, "failed-at"@);
    assert(stage@ =~= install.prefix@ + "/dsh-shell-staging/"@ + shown@);
    assert(stage@.last() == shown@.last());
    lemma_scope_spelled(stage@);
    lemma_launcher_spelled(scope@);
}

proof fn lemma_staging_spelled(prefix: Seq<char>)
    requires
        prefix.len() > 0,
        prefix.last() != '/',
    ensures
        staging_of(prefix) + seq!['/'] == prefix + "/dsh-shell-staging/"@,
        staging_of(prefix).last() != '/',
        staging_of(prefix) + seq!['/'] + BACKUP_DIR@ == prefix + "/dsh-shell-staging/previous"@,
        staging_of(prefix) + seq!['/'] + "failed-at"@ == prefix + "/dsh-shell-staging/failed-at"@,
        BACKUP_DIR@.len() > 0 && BACKUP_DIR@[0] != '/',
        "failed-at"@.len() > 0 && "failed-at"@[0] != '/',
{
    reveal_strlit("dsh-shell-staging");
    reveal_strlit("/dsh-shell-staging/");
    path::joining_puts_one_separator(prefix, STAGING_DIR@);
    let staging = staging_of(prefix);
    assert(seq!['/'] + STAGING_DIR@ + seq!['/'] =~= "/dsh-shell-staging/"@);
    assert(staging + seq!['/'] =~= prefix + (seq!['/'] + STAGING_DIR@ + seq!['/']));
    reveal_strlit("/dsh-shell-staging/previous");
    reveal_strlit("/dsh-shell-staging/failed-at");
    reveal_strlit("previous");
    reveal_strlit("failed-at");
    assert("/dsh-shell-staging/"@ + BACKUP_DIR@ =~= "/dsh-shell-staging/previous"@);
    assert("/dsh-shell-staging/"@ + "failed-at"@ =~= "/dsh-shell-staging/failed-at"@);
    assert(staging + seq!['/'] + BACKUP_DIR@ =~= prefix + ("/dsh-shell-staging/"@ + BACKUP_DIR@));
    assert(staging + seq!['/'] + "failed-at"@ =~= prefix + ("/dsh-shell-staging/"@
        + "failed-at"@));
}

proof fn lemma_scope_spelled(stage: Seq<char>)
    requires
        stage.len() > 0,
        stage.last() != '/',
    ensures
        path::joined(path::joined(stage, "node_modules"@), SCOPE@) == stage
            + "/node_modules/@deepseek-ai"@,
        path::joined(path::joined(stage, "node_modules"@), SCOPE@).last() != '/',
{
    reveal_strlit("node_modules");
    reveal_strlit("@deepseek-ai");
    reveal_strlit("/node_modules/@deepseek-ai");
    path::joining_puts_one_separator(stage, "node_modules"@);
    let modules = path::joined(stage, "node_modules"@);
    assert(modules.last() == 's');
    path::joining_puts_one_separator(modules, SCOPE@);
    assert(seq!['/'] + "node_modules"@ + seq!['/'] + SCOPE@ =~= "/node_modules/@deepseek-ai"@);
    assert(path::joined(modules, SCOPE@) =~= stage + (seq!['/'] + "node_modules"@ + seq!['/']
        + SCOPE@));
}

proof fn lemma_launcher_spelled(scope: Seq<char>)
    requires
        scope.len() > 0,
        scope.last() != '/',
    ensures
        launcher_in(scope) == scope + "/dsh/lib/bin.js"@,
{
    reveal_strlit("dsh");
    reveal_strlit("lib");
    reveal_strlit("bin.js");
    reveal_strlit("/dsh/lib/bin.js");
    path::joining_puts_one_separator(scope, ROOT_PACKAGE@);
    let dsh = path::joined(scope, ROOT_PACKAGE@);
    assert(dsh.last() == 'h');
    path::joining_puts_one_separator(dsh, "lib"@);
    let lib = path::joined(dsh, "lib"@);
    assert(lib.last() == 'b');
    path::joining_puts_one_separator(lib, "bin.js"@);
    assert(seq!['/'] + ROOT_PACKAGE@ + seq!['/'] + "lib"@ + seq!['/'] + "bin.js"@
        =~= "/dsh/lib/bin.js"@);
    assert(launcher_in(scope) =~= scope + (seq!['/'] + ROOT_PACKAGE@ + seq!['/'] + "lib"@ + seq![
        '/',
    ] + "bin.js"@));
}

/// Where the trees of an install stand, whatever its prefix: each place is one name placed
/// in the one before it.
pub proof fn trees_are_placed_name_by_name(
    install: &Install,
    version: &Version,
    staging: String,
    stage: String,
    scope: String,
    launcher: String,
    backup: String,
    failed: String,
    shown: String,
)
    requires
        call_ensures(Install::staging_dir, (install,), staging),
        call_ensures(Install::stage_dir, (install, version), stage),
        call_ensures(Install::staged_scope, (install, version), scope),
        call_ensures(Install::staged_launcher, (install, version), launcher),
        call_ensures(Install::backup_dir, (install,), backup),
        call_ensures(Install::failed_dir, (install,), failed),
        call_ensures(Version::to_string, (version,), shown),
    ensures
        staging@ == path::joined(install.prefix@, "dsh-shell-staging"@),
        stage@ == path::joined(staging@, shown@),
        scope@ == path::joined(path::joined(stage@, "node_modules"@), "@deepseek-ai"@),
        launcher@ == path::joined(
            path::joined(path::joined(scope@, "dsh"@), "lib"@),
            "bin.js"@,
        ),
        backup@ == path::joined(staging@, "previous"@),
        failed@ == path::joined(staging@, "failed-at"@),
{
}

/// An install is found behind a launcher exactly where the resolved path runs through
/// `node_modules`, `@deepseek-ai`, `dsh`, `lib` and `bin.js`, one below the other; the
/// scope and the prefix are those two directories of it. The launcher is kept as it was
/// found.
pub proof fn installs_are_read_off_the_path(
    launcher: &str,
    resolved: &str,
    bun: Option<String>,
    found: Option<Install>,
)
    requires
        call_ensures(Install::discover, (launcher, resolved, bun), found),
    ensures
        found matches Some(install) ==> {
            &&& install.launcher@ == launcher@
            &&& install.resolved@ == resolved@
            &&& text::held(install.bun) == text::held(bun)
            &&& path::name_of(resolved@) == Some("bin.js"@)
            &&& path::parent_of(resolved@) matches Some(lib)
            &&& path::name_of(lib) == Some("lib"@)
            &&& path::parent_of(lib) matches Some(dsh)
            &&& path::name_of(dsh) == Some("dsh"@)
            &&& path::parent_of(dsh) == Some(install.scope@)
            &&& path::name_of(install.scope@) == Some("@deepseek-ai"@)
            &&& path::parent_of(install.scope@) matches Some(modules)
            &&& path::name_of(modules) == Some("node_modules"@)
            &&& path::parent_of(modules) == Some(install.prefix@)
        },
        found is None ==> !exists|lib: Seq<char>, dsh: Seq<char>, scope: Seq<char>, modules: Seq<
            char,
        >|
            {
                &&& path::name_of(resolved@) == Some("bin.js"@)
                &&& path::parent_of(resolved@) == Some(lib)
                &&& path::name_of(lib) == Some("lib"@)
                &&& #[trigger] path::parent_of(lib) == Some(dsh)
                &&& path::name_of(dsh) == Some("dsh"@)
                &&& #[trigger] path::parent_of(dsh) == Some(scope)
                &&& path::name_of(scope) == Some("@deepseek-ai"@)
                &&& #[trigger] path::parent_of(scope) == Some(modules)
                &&& path::name_of(modules) == Some("node_modules"@)
                &&& #[trigger] path::parent_of(modules) is Some
            },
{
}

/// What runs the tree staged for a version: the package manager, told to run the staged
/// script. It is refused exactly where there is no script or no package manager.
pub proof fn the_staged_script_is_what_runs(
    install: &Install,
    version: &Version,
    script_is_file: bool,
    command: Result<(String, Vec<String>), String>,
    script: String,
)
    requires
        call_ensures(Install::staged_command, (install, version, script_is_file), command),
        call_ensures(Install::staged_launcher, (install, version), script),
    ensures
        command is Ok <==> script_is_file && install.bun is Some,
        command matches Ok((program, args)) ==> {
            &&& text::held(install.bun) == Some(program@)
            &&& args@.len() == 2
            &&& args@[0]@ == "run"@
            &&& args@[1]@ == script@
        },
        command matches Err(err) ==> err@ == (if script_is_file {
            "no package manager available to run the staged tree"@
        } else {
            "nothing to run at "@ + script@
        }),
{
    if let Ok((program, args)) = command {
        assert(text::views(args@).len() == 2);
        assert(text::views(args@)[0] == args@[0]@ && text::views(args@)[1] == args@[1]@);
    }
}

/// The candidate chosen is the first that is present: it is one of them, it is present,
/// and none before it is. None is chosen exactly where none is present.
pub proof fn the_first_present_is_chosen(candidates: Seq<Seq<char>>, present: Seq<bool>)
    ensures
        first_present(candidates, present) matches Some(found) ==> exists|i: int|
            {
                &&& 0 <= i < candidates.len() && i < present.len()
                &&& #[trigger] present[i]
                &&& candidates[i] == found
                &&& forall|k: int| 0 <= k < i ==> !#[trigger] present[k]
            },
        first_present(candidates, present) is None <==> forall|i: int|
            0 <= i < candidates.len() && i < present.len() ==> !#[trigger] present[i],
    decreases candidates.len(),
{
    if candidates.len() > 0 && present.len() > 0 {
        if present[0] {
            assert(present[0] && candidates[0] == first_present(candidates, present)->Some_0);
        } else {
            let rest = candidates.skip(1);
            let left = present.skip(1);
            the_first_present_is_chosen(rest, left);
            if let Some(found) = first_present(rest, left) {
                let i = choose|i: int|
                    {
                        &&& 0 <= i < rest.len() && i < left.len()
                        &&& #[trigger] left[i]
                        &&& rest[i] == found
                        &&& forall|k: int| 0 <= k < i ==> !#[trigger] left[k]
                    };
                assert(present[i + 1] && candidates[i + 1] == found);
                assert forall|k: int| 0 <= k < i + 1 implies !#[trigger] present[k] by {
                    if k > 0 {
                        assert(!left[k - 1]);
                    }
                }
            } else {
                assert forall|i: int| 0 <= i < candidates.len() && i < present.len() implies !
                #[trigger] present[i] by {
                    if i > 0 {
                        assert(!left[i - 1]);
                    }
                }
            }
            if forall|i: int| 0 <= i < candidates.len() && i < present.len() ==> !#[trigger] present[i] {
                assert forall|i: int| 0 <= i < rest.len() && i < left.len() implies !
                #[trigger] left[i] by {
                    assert(!present[i + 1]);
                }
            }
        }
    }
}

/// Which package manager is taken, whatever the paths: the one beside the launcher where
/// the launcher has a directory and it is a file there; or else the one on `PATH` where it
/// answers; or else the first of the usual places that has one.
pub proof fn package_managers_come_in_order(
    launcher: &str,
    prefix: &str,
    home: Option<String>,
    beside_is_file: bool,
    on_path: bool,
    is_file: &Vec<bool>,
    bun: Option<String>,
    near: Option<String>,
    places: Vec<String>,
    first: Option<String>,
)
    requires
        call_ensures(
            resolve_bun,
            (launcher, prefix, home, beside_is_file, on_path, is_file),
            bun,
        ),
        call_ensures(bun_beside, (launcher,), near),
        call_ensures(bun_candidates, (prefix, home), places),
        call_ensures(pick_present, (&places, is_file), first),
    ensures
        near is Some <==> path::parent_of(launcher@) is Some,
        near matches Some(n) ==> (path::parent_of(launcher@) matches Some(dir) && n@
            == path::joined(dir, "bun"@)),
        beside_is_file && near is Some ==> text::held(bun) == text::held(near),
        !(beside_is_file && near is Some) && on_path ==> text::held(bun) == Some("bun"@),
        !(beside_is_file && near is Some) && !on_path ==> text::held(bun) == text::held(first),
{
}

/// Which package manager is taken: the `bun` beside the launcher where it is a file, or
/// else the one on `PATH` where it answers, or else the first of the usual places that
/// has one: the install's own binaries, and then the home directory.
pub proof fn the_nearest_bun_is_taken(
    dir: Seq<char>,
    name: Seq<char>,
    launcher: &str,
    prefix: &str,
    home: Option<String>,
    beside_is_file: bool,
    on_path: bool,
    is_file: &Vec<bool>,
    bun: Option<String>,
)
    requires
        call_ensures(
            resolve_bun,
            (launcher, prefix, home, beside_is_file, on_path, is_file),
            bun,
        ),
        path::one_name(name),
        launcher@ == path::joined(dir, name),
        prefix@.len() > 0 && prefix@.last() != '/',
        home matches Some(h) ==> h@.len() > 0 && h@.last() != '/',
    ensures
        beside_is_file ==> text::held(bun) == Some(path::joined(path::settled(dir), "bun"@)),
        !beside_is_file && on_path ==> text::held(bun) == Some("bun"@),
        !beside_is_file && !on_path && is_file@.len() > 0 && is_file@[0] ==> text::held(bun) == Some(
            prefix@ + "/node_modules/.bin/bun"@,
        ),
        !beside_is_file && !on_path && is_file@.len() > 1 && !is_file@[0] && is_file@[1] ==> (
        match home {
            Some(h) => text::held(bun) == Some(h@ + "/.bun/bin/bun"@),
            None => bun is None,
        }),
        !beside_is_file && !on_path && (forall|i: int|
            0 <= i < is_file@.len() ==> !#[trigger] is_file@[i]) ==> bun is None,
{
    reveal_strlit("bun");
    reveal_strlit("node_modules");
    reveal_strlit(".bin");
    reveal_strlit(".bun");
    reveal_strlit("bin");
    reveal_strlit("/node_modules/.bin/bun");
    reveal_strlit("/.bun/bin/bun");
    path::parent_of_joined(dir, name);
    let places = bun_places(prefix@, text::held(home));
    the_first_present_is_chosen(places, is_file@);
    let modules = path::joined(prefix@, "node_modules"@);
    assert(modules.last() == 's');
    let bin = path::joined(modules, ".bin"@);
    assert(bin.last() == 'n');
    assert(places[0] =~= prefix@ + "/node_modules/.bin/bun"@);
    if let Some(h) = home {
        let dot = path::joined(h@, ".bun"@);
        assert(dot.last() == 'n');
        let under = path::joined(dot, "bin"@);
        assert(under.last() == 'n');
        assert(places[1] =~= h@ + "/.bun/bin/bun"@);
        assert(places.len() == 2);
    } else {
        assert(places.len() == 1);
    }
}

} // verus!
