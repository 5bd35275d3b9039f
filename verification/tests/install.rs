use dsh_shell::install::{bun_beside, bun_candidates, locate, resolve_bun, Install, SCOPE};
use dsh_shell::path;
use dsh_shell::version::Version;

fn v(text: &str) -> Version {
    Version::parse(text).unwrap_or_else(|| panic!("{text} should parse"))
}

fn small() -> Install {
    Install {
        launcher: "/p/node_modules/@deepseek-ai/dsh/lib/bin.js".into(),
        resolved: "/p/node_modules/@deepseek-ai/dsh/lib/bin.js".into(),
        scope: "/p/node_modules/@deepseek-ai".into(),
        prefix: "/p".into(),
        bun: None,
    }
}

#[test]
fn discovers_a_bun_global_install() {
    // The launcher is a symlink in reality; discovery works on the resolved path,
    // so feed it the real location.
    let real = "/home/u/.bun/install/global/node_modules/@deepseek-ai/dsh/lib/bin.js";
    let install = Install::discover(real, real, None).expect("should recognise the layout");
    assert_eq!(install.prefix, "/home/u/.bun/install/global");
    assert_eq!(install.scope, "/home/u/.bun/install/global/node_modules/@deepseek-ai");
    assert_eq!(install.launcher, real);

    let install = Install::discover("/home/u/.bun/bin/dsh", real, Some("bun".into())).unwrap();
    assert_eq!(install.launcher, "/home/u/.bun/bin/dsh");
    assert_eq!(install.resolved, real);
    assert_eq!(install.bun.as_deref(), Some("bun"));
    assert_eq!(install.copy(), install);
}

#[test]
fn refuses_a_layout_it_does_not_understand() {
    // A bundled runtime and a source checkout both look like this, and both have
    // their own update story.
    for path in [
        "/Applications/DSH Shell.app/Contents/Resources/bin/dsh",
        "/Users/x/src/dsh-shell/target/release/dsh-shell",
        "/usr/local/bin/dsh",
    ] {
        assert!(
            Install::discover(path, path, None).is_none(),
            "{path} should not be treated as an install"
        );
    }
    // The package and the scope have to be the right ones.
    assert!(locate("/p/node_modules/@deepseek-ai/other/lib/bin.js").is_none());
    assert!(locate("/p/node_modules/@other/dsh/lib/bin.js").is_none());
    assert!(locate("@deepseek-ai/dsh/lib/bin.js").is_none());
    // So do the directories around them, and the script.
    for path in [
        "/src/packages/@deepseek-ai/dsh/lib/bin.js",
        "/p/dsh-shell-staging/@deepseek-ai/dsh/lib/bin.js",
        "/p/node_modules/@deepseek-ai/dsh/src/bin.js",
        "/p/node_modules/@deepseek-ai/dsh/lib/bin.ts",
    ] {
        assert!(locate(path).is_none(), "{path} should not be treated as an install");
    }
    assert_eq!(
        locate("/p/node_modules/@deepseek-ai/dsh/lib/bin.js"),
        Some(("/p/node_modules/@deepseek-ai".into(), "/p".into()))
    );
}

#[test]
fn staging_paths_sit_inside_the_install_prefix() {
    let install = small();
    let version = v("0.1.5-rc.2");
    let stage = install.stage_dir(&version);
    // Same filesystem as the live scope, or the final rename is not atomic and may
    // fail outright across devices.
    assert!(stage.starts_with("/p/"), "{stage:?} should be under the prefix");
    assert_eq!(install.backup_dir(), "/p/dsh-shell-staging/previous");
    assert_eq!(
        install.staged_launcher(&version),
        "/p/dsh-shell-staging/0.1.5-rc.2/node_modules/@deepseek-ai/dsh/lib/bin.js"
    );
    assert_eq!(
        install.staged_scope(&version),
        "/p/dsh-shell-staging/0.1.5-rc.2/node_modules/@deepseek-ai"
    );
    assert_eq!(install.failed_dir(), "/p/dsh-shell-staging/failed-at");
}

#[test]
fn a_staged_scope_and_its_launcher_agree() {
    // If these two ever disagree, an apply would move one tree into place while
    // the smoke test validated a different one.
    let install = small();
    let version = v("1.2.3");
    let scope = install.staged_scope(&version);
    let launcher = install.staged_launcher(&version);
    assert!(
        launcher.starts_with(&format!("{scope}/")),
        "{launcher:?} should be inside {scope:?}"
    );
}

#[test]
fn the_package_manager_is_looked_for_in_order() {
    let launcher = "/home/u/.bun/bin/dsh";
    assert_eq!(bun_beside(launcher).as_deref(), Some("/home/u/.bun/bin/bun"));
    assert_eq!(bun_beside("/"), None);
    assert_eq!(
        bun_candidates("/g", Some("/home/u".into())),
        ["/g/node_modules/.bin/bun", "/home/u/.bun/bin/bun"]
    );
    assert_eq!(bun_candidates("/g", None), ["/g/node_modules/.bin/bun"]);

    let home = || Some("/home/u".to_string());
    let found = |beside, on_path, present: [bool; 2]| {
        resolve_bun(launcher, "/g", home(), beside, on_path, &present.to_vec())
    };
    // Beside the launcher, then on PATH, and only then a sibling of the live install.
    assert_eq!(found(true, true, [true, true]).as_deref(), Some("/home/u/.bun/bin/bun"));
    assert_eq!(found(false, true, [true, true]).as_deref(), Some("bun"));
    assert_eq!(found(false, false, [true, true]).as_deref(), Some("/g/node_modules/.bin/bun"));
    assert_eq!(found(false, false, [false, true]).as_deref(), Some("/home/u/.bun/bin/bun"));
    assert_eq!(found(false, false, [false, false]), None);
    // A launcher without a directory has nothing beside it.
    assert_eq!(resolve_bun("/", "/g", None, true, true, &vec![]).as_deref(), Some("bun"));
}

/// Every text of up to six characters over the ones that matter to a path.
fn paths() -> Vec<String> {
    let mut all = vec![String::new()];
    let mut last = all.clone();
    for _ in 0..6 {
        let mut longer = Vec::new();
        for path in &last {
            for c in ['a', '.', '/'] {
                longer.push(format!("{path}{c}"));
            }
        }
        all.extend(longer.iter().cloned());
        last = longer;
    }
    all
}

#[test]
fn paths_are_taken_apart_as_the_platform_does() {
    for text in paths() {
        let std_path = std::path::Path::new(&text);
        let shown = |p: Option<&std::path::Path>| p.map(|p| p.to_str().unwrap().to_string());
        assert_eq!(
            path::file_name(&text),
            std_path.file_name().map(|n| n.to_str().unwrap().to_string()),
            "{text:?}"
        );
        // Compared as paths: how a parent is spelled inside does not matter.
        let parent = path::parent(&text);
        assert_eq!(
            parent.as_deref().map(std::path::Path::new),
            std_path.parent(),
            "{text:?} has {:?}",
            shown(std_path.parent())
        );
        assert_eq!(
            std::path::Path::new(&path::with_file_name(&text, "b.json")),
            std_path.with_file_name("b.json"),
            "{text:?}"
        );
        let mut changed = std_path.to_path_buf();
        changed.set_extension("x.y");
        assert_eq!(std::path::Path::new(&path::with_extension(&text, "x.y")), changed, "{text:?}");
        for tail in ["", "b", "/b", "./b", "b/c"] {
            assert_eq!(
                path::join(&text, tail),
                std_path.join(tail).to_str().unwrap(),
                "{text:?} with {tail:?}"
            );
        }
    }
}

#[test]
fn a_name_in_a_directory_has_that_directory() {
    assert_eq!(path::parent("/a/b").as_deref(), Some("/a"));
    assert_eq!(path::parent("/a").as_deref(), Some("/"));
    assert_eq!(path::parent("a").as_deref(), Some(""));
    assert_eq!(path::parent("/"), None);
    assert_eq!(path::file_name("/a/b.txt/").as_deref(), Some("b.txt"));
    assert_eq!(path::file_name("/a/.."), None);
    assert_eq!(path::with_extension("/c/window.json", "json.tmp"), "/c/window.json.tmp");
    assert_eq!(path::with_extension("/c/.hidden", "tmp"), "/c/.hidden.tmp");
    assert_eq!(path::with_extension("/", "tmp"), "/");
}

#[test]
fn the_live_tree_and_the_staging_directory_lie_apart() {
    for prefix in ["/p", "/home/u/.bun/install/global", "/"] {
        let modules = path::join(prefix, "node_modules");
        let scope = path::join(&modules, SCOPE);
        let resolved = format!("{scope}/dsh/lib/bin.js");
        let install = Install::discover("/b/dsh", &resolved, None).unwrap();
        assert_eq!(install.scope, scope);
        let staging = install.staging_dir();
        assert!(!scope.starts_with(&format!("{staging}/")), "{scope} in {staging}");
        assert!(!staging.starts_with(&format!("{scope}/")), "{staging} in {scope}");
    }
}
