use dsh_shell::install::Install;
use dsh_shell::task::Task;
use dsh_shell::updater::{
    cache_path, check, clear_pending, fetch_registry, pending, pending_path, publish,
    record_pending, registry_request,
    reported_version, resolve, status_path, version_of, version_of_hinted, Cached, Channel,
    CheckAction, CheckEvent, CheckState, Pending, Phase, Registry, Status, CHECK_INTERVAL,
    REGISTRY_URL,
};
use dsh_shell::upgrade::{
    begin_check, begin_upgrade, upgrade, Upgrade, UpgradeAction, UpgradeEvent,
};
use dsh_shell::version::{Rank, Version};

fn v(text: &str) -> Version {
    Version::parse(text).unwrap_or_else(|| panic!("{text} should parse"))
}

fn registry() -> Registry {
    Registry {
        latest: v("0.1.5-rc.2"),
        next: Some(v("0.1.5-rc.2")),
        alpha: Some(v("0.1.6-alpha.2")),
    }
}

fn install() -> Install {
    Install {
        launcher: "/p/node_modules/@deepseek-ai/dsh/lib/bin.js".into(),
        resolved: "/p/node_modules/@deepseek-ai/dsh/lib/bin.js".into(),
        scope: "/p/node_modules/@deepseek-ai".into(),
        prefix: "/p".into(),
        bun: None,
    }
}

// ------------------------------------------------------------------ versions

#[test]
fn parses_release_and_prerelease_versions() {
    assert_eq!(v("0.1.5"), Version { major: 0, minor: 1, patch: 5, prerelease: vec![] });
    assert_eq!(
        v("0.1.5-rc.2"),
        Version { major: 0, minor: 1, patch: 5, prerelease: vec!["rc".into(), "2".into()] }
    );
    // Build metadata must not affect precedence.
    assert_eq!(v("1.2.3+build.9"), v("1.2.3"));
}

#[test]
fn rejects_things_that_are_not_versions() {
    for bad in ["", "1.2", "1.2.3.4", "x.y.z", "1.2.3-", "v1.2.3"] {
        assert!(Version::parse(bad).is_none(), "{bad:?} should not parse");
    }
}

#[test]
fn reads_the_edges_of_a_version() {
    assert_eq!(v(" 1.2.3\n"), v("1.2.3"));
    assert_eq!(v("18446744073709551615.0.0").major, u64::MAX);
    for bad in ["18446744073709551616.0.0", "1.2.3-rc..1", "1.2.-3", "1..3", "1.2.3-rc.", "-1.2.3"] {
        assert!(Version::parse(bad).is_none(), "{bad:?} should not parse");
    }
    // Leading zeros and a plus sign are accepted by the number parser, and a
    // second hyphen belongs to the identifier.
    assert_eq!(v("01.2.3"), v("1.2.3"));
    assert_eq!(v("1.2.3-a-b").prerelease, vec!["a-b".to_string()]);
    assert_eq!(v("1.2.3-rc.1+b-x.2").to_string(), "1.2.3-rc.1");
}

#[test]
fn orders_release_versions() {
    assert!(v("0.1.6") > v("0.1.5"));
    assert!(v("0.2.0") > v("0.1.9"));
    assert!(v("1.0.0") > v("0.99.99"));
    assert!(v("0.1.5") == v("0.1.5"));
}

#[test]
fn a_prerelease_sorts_below_its_release() {
    // The rule that decides whether an upgrade is offered at all.
    assert!(v("1.0.0-rc.1") < v("1.0.0"));
    assert!(v("0.1.5-rc.2") < v("0.1.5"));
}

#[test]
fn a_numeric_identifier_may_be_of_any_size() {
    // Both lie past two to the sixty-fourth.
    assert!(v("1.0.0-99999999999999999999") < v("1.0.0-100000000000000000000"));
    assert!(v("1.0.0-9") < v("1.0.0-99999999999999999999"));
    assert!(v("1.0.0-99999999999999999999") < v("1.0.0--a"));
    assert!(!(v("1.0.0-rc.010") < v("1.0.0-rc.10")));
    assert!(!(v("1.0.0-rc.010") > v("1.0.0-rc.10")));
}

#[test]
fn orders_prerelease_identifiers_by_the_semver_rules() {
    assert!(v("0.1.5-rc.2") > v("0.1.5-rc.1"));
    assert!(v("0.1.5-rc.10") > v("0.1.5-rc.9"), "numeric identifiers compare as numbers");
    // Numeric identifiers rank below alphanumeric ones.
    assert!(v("1.0.0-alpha.1") < v("1.0.0-alpha.beta"));
    assert!(v("1.0.0-alpha") < v("1.0.0-beta"));
    // The canonical semver chain.
    let chain = [
        "1.0.0-alpha",
        "1.0.0-alpha.1",
        "1.0.0-alpha.beta",
        "1.0.0-beta",
        "1.0.0-beta.2",
        "1.0.0-beta.11",
        "1.0.0-rc.1",
        "1.0.0",
    ];
    for pair in chain.windows(2) {
        assert!(v(pair[0]) < v(pair[1]), "{} should be < {}", pair[0], pair[1]);
    }
    // The order is total on the chain, and its own mirror image.
    for (i, a) in chain.iter().enumerate() {
        for (j, b) in chain.iter().enumerate() {
            let expected = if i < j {
                Rank::Lower
            } else if i > j {
                Rank::Higher
            } else {
                Rank::Same
            };
            assert_eq!(v(a).rank(&v(b)), expected, "{a} against {b}");
        }
    }
}

#[test]
fn an_alpha_of_a_later_version_outranks_an_rc_of_an_earlier_one() {
    // This is why a version *range* must never be the upgrade target: on this
    // ordering `^0.1.5-rc.1` is satisfied by 0.1.6-alpha.2.
    assert!(v("0.1.6-alpha.2") > v("0.1.5-rc.2"));
}

#[test]
fn version_display_round_trips() {
    for text in ["0.1.5", "0.1.5-rc.2", "1.0.0-alpha.beta"] {
        assert_eq!(v(text).to_string(), text);
    }
}

// ------------------------------------------------------------------ channels

#[test]
fn a_channel_selects_its_tag() {
    let registry = registry();
    assert_eq!(registry.channel(Channel::Latest), v("0.1.5-rc.2"));
    assert_eq!(registry.channel(Channel::Alpha), v("0.1.6-alpha.2"));
}

#[test]
fn a_channel_with_no_tag_falls_back_to_latest() {
    let registry = Registry { latest: v("0.1.5-rc.2"), next: None, alpha: None };
    assert_eq!(registry.channel(Channel::Alpha), v("0.1.5-rc.2"));
}

#[test]
fn parses_channel_names() {
    assert_eq!(Channel::parse("latest"), Some(Channel::Latest));
    assert_eq!(Channel::parse("stable"), Some(Channel::Latest));
    assert_eq!(Channel::parse("Alpha"), Some(Channel::Alpha));
    assert_eq!(Channel::parse("beta"), None);
    assert_eq!(Channel::default(), Channel::Latest);
    assert_eq!(Channel::from_setting("beta"), Channel::Latest);
    assert_eq!(Channel::from_setting(" ALPHA "), Channel::Alpha);
    for channel in [Channel::Latest, Channel::Alpha] {
        assert_eq!(Channel::parse(channel.as_str()), Some(channel));
    }
}

// ------------------------------------------------------------------- resolve

#[test]
fn an_older_install_is_offered_the_newer_one() {
    let status = resolve(&v("0.1.5-rc.1"), &registry(), Channel::Latest, 100);
    assert_eq!(status.phase, Phase::Available);
    assert_eq!(status.target, Some(v("0.1.5-rc.2")));
    assert_eq!(status.checked_at, Some(100));
}

#[test]
fn an_up_to_date_install_is_not_offered_anything() {
    let status = resolve(&v("0.1.5-rc.2"), &registry(), Channel::Latest, 100);
    assert_eq!(status.phase, Phase::Current);
}

#[test]
fn a_newer_local_install_is_not_downgraded() {
    // A user running a build ahead of the registry must not be "upgraded"
    // backwards onto the published tag.
    let status = resolve(&v("0.1.7"), &registry(), Channel::Latest, 100);
    assert_eq!(status.phase, Phase::Current);
}

#[test]
fn the_alpha_channel_offers_the_alpha() {
    let status = resolve(&v("0.1.5-rc.2"), &registry(), Channel::Alpha, 100);
    assert_eq!(status.phase, Phase::Available);
    assert_eq!(status.target, Some(v("0.1.6-alpha.2")));
}

#[test]
fn the_latest_channel_does_not_offer_the_alpha() {
    // The default channel must never pull someone onto a prerelease they did not
    // ask for.
    let status = resolve(&v("0.1.5-rc.1"), &registry(), Channel::Latest, 100);
    assert_eq!(status.target, Some(v("0.1.5-rc.2")));
}

// -------------------------------------------------------------------- status

#[test]
fn status_serialises_for_the_page() {
    let status = Status {
        current: Some(v("0.1.5-rc.1")),
        target: Some(v("0.1.5-rc.2")),
        channel: Channel::Latest,
        phase: Phase::Available,
        message: None,
        checked_at: Some(7),
    };
    let json = status.json();
    assert_eq!(json.current.as_deref(), Some("0.1.5-rc.1"));
    assert_eq!(json.target.as_deref(), Some("0.1.5-rc.2"));
    assert_eq!(json.phase, "available");
    assert_eq!(json.channel, "latest");
    assert_eq!(json.checked_at, Some(7));
    assert!(!json.busy);
    assert!(json.message.is_none());
}

#[test]
fn a_busy_phase_disables_the_controls() {
    for phase in [Phase::Checking, Phase::Working] {
        let status = Status { phase, ..Status::default() };
        assert!(status.json().busy, "{:?} should be busy", status.phase);
    }
    for phase in [Phase::Available, Phase::Current, Phase::RestartRequired] {
        let status = Status { phase, ..Status::default() };
        assert!(!status.json().busy);
    }
}

#[test]
fn a_failed_phase_keeps_its_reason() {
    let status =
        Status { phase: Phase::Failed("curl is missing".into()), ..Status::default() };
    assert_eq!(status.json().phase, "failed");
    assert_eq!(status.json().message.as_deref(), Some("curl is missing"));
}

#[test]
fn every_phase_has_its_name() {
    let names: Vec<&str> = [
        Phase::Unknown,
        Phase::Checking,
        Phase::Current,
        Phase::Available,
        Phase::Working,
        Phase::RestartRequired,
        Phase::Failed("x".into()),
        Phase::Unsupported("y".into()),
    ]
    .iter()
    .map(|phase| phase.as_str())
    .collect();
    assert_eq!(
        names,
        [
            "unknown",
            "checking",
            "current",
            "available",
            "working",
            "restartRequired",
            "failed",
            "unsupported"
        ]
    );
    let status = Status {
        phase: Phase::Unsupported("bundled".into()),
        message: Some("other".into()),
        ..Status::default()
    };
    assert_eq!(status.json().message.as_deref(), Some("bundled"));
    let status = Status { message: Some("other".into()), ..Status::default() };
    assert_eq!(status.json().message.as_deref(), Some("other"));
}

// ------------------------------------------------------------------- caching

#[test]
fn a_fresh_cache_is_trusted_and_a_stale_one_is_not() {
    let cached = Cached {
        checked_at: 1_000,
        latest: "0.1.5-rc.2".into(),
        next: None,
        alpha: Some("0.1.6-alpha.2".into()),
    };
    let day = CHECK_INTERVAL;
    assert_eq!(day, 24 * 60 * 60);
    assert!(cached.is_fresh(1_000 + day - 1, CHECK_INTERVAL));
    assert!(!cached.is_fresh(1_000 + day, CHECK_INTERVAL));
    // A clock that moved backwards must not make the cache stale forever.
    assert!(cached.is_fresh(500, CHECK_INTERVAL));
}

#[test]
fn a_cached_answer_is_recalled_unchanged() {
    let registry = registry();
    let cached = Cached::from_registry(&registry, 42);
    assert_eq!(cached.checked_at, 42);
    assert_eq!(cached.latest, "0.1.5-rc.2");
    assert_eq!(cached.alpha.as_deref(), Some("0.1.6-alpha.2"));
    assert_eq!(cached.registry().unwrap(), registry);
}

#[test]
fn a_cache_with_a_broken_version_is_ignored_rather_than_trusted() {
    let cached = Cached { checked_at: 1, latest: "not-a-version".into(), next: None, alpha: None };
    assert!(cached.registry().is_none());
}

#[test]
fn the_cache_and_the_status_sit_beside_the_log() {
    let log = Some("/home/u/.dsh/cache/dsh-shell/dsh-shell.log".to_string());
    assert_eq!(
        cache_path(log.clone()).as_deref(),
        Some("/home/u/.dsh/cache/dsh-shell/update.json")
    );
    assert_eq!(status_path(log).as_deref(), Some("/home/u/.dsh/cache/dsh-shell/status.json"));
    assert_eq!(cache_path(None), None);
    assert_eq!(status_path(None), None);
}

// ---------------------------------------------------------- registry document

#[test]
fn reads_the_registry_document() {
    let document = r#"{
            "name": "@deepseek-ai/dsh",
            "dist-tags": { "latest": "0.1.5-rc.2", "next": "0.1.5-rc.2", "alpha": "0.1.6-alpha.2" },
            "versions": { "0.1.5-rc.2": { "dist": { "tarball": "https://example.invalid/x.tgz" } } }
        }"#;
    let registry = Registry::parse(document).unwrap();
    assert_eq!(registry.latest, v("0.1.5-rc.2"));
    assert_eq!(registry.alpha, Some(v("0.1.6-alpha.2")));
}

#[test]
fn a_registry_document_without_latest_is_an_error() {
    assert!(Registry::parse(r#"{"dist-tags":{"next":"1.0.0"}}"#).is_err());
    assert!(Registry::parse("not json").is_err());
    assert!(Registry::parse("{}").is_err());
}

#[test]
fn a_registry_document_says_what_is_wrong_with_it() {
    let err = |document: &str| Registry::parse(document).unwrap_err();
    assert_eq!(err(r#"{"dist-tags":{"next":"1.0.0"}}"#), "registry reply has no latest tag");
    assert_eq!(err(r#"{"dist-tags":{"latest":7}}"#), "registry reply has no latest tag");
    assert_eq!(err(r#"{"dist-tags":"1.0.0"}"#), "registry reply has no dist-tags");
    assert_eq!(err("[]"), "registry reply has no dist-tags");
    assert!(err("not json").starts_with("registry reply: expected "), "{}", err("not json"));
    // A tag that is no version counts as absent, and only `latest` has to be there.
    let read = Registry::parse(r#"{"dist-tags":{"latest":"1.0.0","alpha":"soon"}}"#).unwrap();
    assert_eq!(read, Registry { latest: v("1.0.0"), next: None, alpha: None });
    assert_eq!(
        Registry::from_tags(Some("1.0.0".into()), Some("1.0.1-rc".into()), None).unwrap(),
        Registry { latest: v("1.0.0"), next: Some(v("1.0.1-rc")), alpha: None }
    );
    assert_eq!(read.copy(), read);
}

#[test]
fn the_registry_is_asked_with_curl() {
    let command = registry_request();
    assert_eq!(command.program, "curl");
    assert_eq!(command.args, ["-sSfL", "--max-time", "20", REGISTRY_URL]);
    assert_eq!(command.path_hint, None);
    assert_eq!(command.timeout, 30);
    assert_eq!(
        fetch_registry(Err("curl exited 6: no host".into())).unwrap_err(),
        "could not reach the registry: curl exited 6: no host"
    );
    assert_eq!(
        fetch_registry(Ok(r#"{"dist-tags":{"latest":"1.0.0"}}"#.into())).unwrap().latest,
        v("1.0.0")
    );
}

#[test]
fn the_launcher_is_run_for_its_version() {
    let command = version_of("/opt/bin/dsh");
    assert_eq!(command.program, "/opt/bin/dsh");
    assert_eq!(command.args, ["--version"]);
    assert_eq!(command.path_hint.as_deref(), Some("/opt/bin/dsh"));
    assert_eq!(command.timeout, 60);
    let command = version_of_hinted("bun", vec!["run".into(), "x.js".into()], None);
    assert_eq!(command.args, ["run", "x.js", "--version"]);
    assert_eq!(command.path_hint, None);
}

#[test]
fn the_last_line_of_the_output_is_the_version() {
    assert_eq!(reported_version(Ok("warning: old\n1.2.3".into())), Ok(v("1.2.3")));
    assert_eq!(reported_version(Ok("1.2.3\n".into())), Ok(v("1.2.3")));
    assert_eq!(reported_version(Err("timed out".into())), Err("timed out".into()));
    assert_eq!(
        reported_version(Ok("1.2.3\nsaid \"no\"\n".into())),
        Err("unreadable version from launcher: \"said \\\"no\\\"\"".into())
    );
    assert_eq!(
        reported_version(Ok(String::new())),
        Err("unreadable version from launcher: \"\"".into())
    );
}

// ------------------------------------------------------------------- checking

#[test]
fn a_launcher_outside_an_install_is_unsupported() {
    // The channel that is configured now is checked, whatever the last status said.
    let mut status = Status { channel: Channel::Latest, ..Status::default() };
    let state = begin_check(&mut status, "/usr/local/bin/dsh", "alpha", false);
    assert_eq!(status.phase, Phase::Checking);
    let (state, action) = check(state, CheckEvent::Located(None));
    assert!(matches!(state, CheckState::Finished));
    let CheckAction::Report { status, install: None, store: None } = action else {
        panic!("a report was expected: {action:?}");
    };
    assert_eq!(status.channel, Channel::Alpha);
    assert_eq!(
        status.phase,
        Phase::Unsupported(
            "/usr/local/bin/dsh is not a package-manager install, so it cannot upgrade itself"
                .into()
        )
    );
}

fn probed(channel: Channel, force: bool, current: &str) -> CheckState {
    let state = CheckState::Locating { launcher: "/bin/dsh".into(), channel, force };
    let (state, action) = check(state, CheckEvent::Located(Some(install())));
    assert!(matches!(action, CheckAction::Probe));
    let (state, action) = check(state, CheckEvent::Probed(Ok(v(current))));
    assert!(matches!(action, CheckAction::Recall));
    state
}

#[test]
fn a_launcher_that_does_not_run_is_a_failure() {
    let state =
        CheckState::Locating { launcher: "/bin/dsh".into(), channel: Channel::Latest, force: true };
    let (state, _) = check(state, CheckEvent::Located(Some(install())));
    let (_, action) = check(state, CheckEvent::Probed(Err("exited 127".into())));
    let CheckAction::Report { status, install: Some(found), store: None } = action else {
        panic!("a report was expected: {action:?}");
    };
    assert_eq!(status.phase, Phase::Failed("exited 127".into()));
    assert_eq!(status.current, None);
    assert_eq!(found, install());
}

#[test]
fn a_fresh_cache_keeps_a_launch_off_the_network() {
    let cached = Cached::from_registry(&registry(), 1_000);
    let state = probed(Channel::Latest, false, "0.1.5-rc.1");
    let (state, action) = check(state, CheckEvent::Recalled(Some(cached.clone()), 1_500));
    assert!(matches!(state, CheckState::Finished));
    let CheckAction::Report { status, store: None, .. } = action else {
        panic!("a report was expected: {action:?}");
    };
    assert_eq!(status.phase, Phase::Available);
    assert_eq!(status.checked_at, Some(1_000));

    // A forced check asks the registry all the same, and so does a stale cache.
    let state = probed(Channel::Latest, true, "0.1.5-rc.1");
    let (_, action) = check(state, CheckEvent::Recalled(Some(cached.clone()), 1_500));
    assert!(matches!(action, CheckAction::Fetch));
    let state = probed(Channel::Latest, false, "0.1.5-rc.1");
    let (_, action) = check(state, CheckEvent::Recalled(Some(cached), 1_000 + CHECK_INTERVAL));
    assert!(matches!(action, CheckAction::Fetch));
    // A fresh cache that cannot be read does not settle anything.
    let broken = Cached { checked_at: 1_000, latest: "x".into(), next: None, alpha: None };
    let state = probed(Channel::Latest, false, "0.1.5-rc.1");
    let (_, action) = check(state, CheckEvent::Recalled(Some(broken), 1_000));
    assert!(matches!(action, CheckAction::Fetch));
}

fn fetching(cached: Option<Cached>) -> CheckState {
    let state = probed(Channel::Alpha, true, "0.1.5-rc.1");
    let (state, action) = check(state, CheckEvent::Recalled(cached, 2_000));
    assert!(matches!(action, CheckAction::Fetch));
    state
}

#[test]
fn an_answer_of_the_registry_is_shown_and_kept() {
    let (_, action) = check(fetching(None), CheckEvent::Fetched(Ok(registry()), 2_001));
    let CheckAction::Report { status, install: Some(_), store: Some(store) } = action else {
        panic!("a report was expected: {action:?}");
    };
    assert_eq!(status.target, Some(v("0.1.6-alpha.2")));
    assert_eq!(status.checked_at, Some(2_001));
    assert_eq!(status.message, None);
    assert_eq!(store, Cached::from_registry(&registry(), 2_001));
}

#[test]
fn a_silent_registry_leaves_the_last_known_result() {
    let cached = Cached::from_registry(&registry(), 1_000);
    let reply = || CheckEvent::Fetched(Err("no route".into()), 2_001);
    let (_, action) = check(fetching(Some(cached)), reply());
    let CheckAction::Report { status, store: None, .. } = action else {
        panic!("a report was expected: {action:?}");
    };
    assert_eq!(status.phase, Phase::Available);
    assert_eq!(status.checked_at, Some(1_000));
    assert_eq!(status.message.as_deref(), Some("no route; showing the last known result"));

    let (_, action) = check(fetching(None), reply());
    let CheckAction::Report { status, store: None, .. } = action else {
        panic!("a report was expected: {action:?}");
    };
    assert_eq!(status.phase, Phase::Failed("no route".into()));
    assert_eq!(status.current, Some(v("0.1.5-rc.1")));
    assert_eq!(status.target, None);
}

#[test]
fn an_event_that_answers_no_open_question_changes_nothing() {
    let state =
        CheckState::Locating { launcher: "/bin/dsh".into(), channel: Channel::Latest, force: true };
    let (state, action) = check(state, CheckEvent::Probed(Ok(v("1.0.0"))));
    assert!(matches!(action, CheckAction::Wait));
    assert!(matches!(state, CheckState::Locating { .. }));
    let (_, action) = check(CheckState::Finished, CheckEvent::Located(None));
    assert!(matches!(action, CheckAction::Wait));
}

// ------------------------------------------------------------------ upgrading

fn available() -> Status {
    resolve(&v("0.1.5-rc.1"), &registry(), Channel::Latest, 100)
}

#[test]
fn an_upgrade_checks_stages_applies_and_notes() {
    let mut status = Status::default();
    let (state, checking) = begin_upgrade(&mut status, "/bin/dsh", "alpha");
    assert_eq!(status.phase, Phase::Working);
    assert!(matches!(
        checking,
        CheckState::Locating { channel: Channel::Alpha, force: true, .. }
    ));
    let (state, action) = upgrade(state, UpgradeEvent::Checked(available(), Some(install())));
    assert!(matches!(action, UpgradeAction::Stage));
    let (state, action) = upgrade(state, UpgradeEvent::Staged(Ok(())));
    assert!(matches!(action, UpgradeAction::Apply));
    let (state, action) = upgrade(state, UpgradeEvent::Applied(Ok(())));
    assert!(matches!(state, Upgrade::Finished));
    let UpgradeAction::Record { status, install: found, target } = action else {
        panic!("a note was expected: {action:?}");
    };
    assert_eq!(status.phase, Phase::RestartRequired);
    assert_eq!(found, install());
    assert_eq!(target, v("0.1.5-rc.2"));
}

#[test]
fn a_check_that_offers_nothing_is_not_followed_by_an_install() {
    let current = resolve(&v("0.1.5-rc.2"), &registry(), Channel::Latest, 100);
    let (_, action) =
        upgrade(Upgrade::Checking, UpgradeEvent::Checked(current, Some(install())));
    assert!(matches!(action, UpgradeAction::Report(status) if status.phase == Phase::Current));
    let (_, action) = upgrade(Upgrade::Checking, UpgradeEvent::Checked(available(), None));
    let UpgradeAction::Report(status) = action else {
        panic!("a report was expected: {action:?}");
    };
    assert_eq!(status.phase, Phase::Failed("nothing to install".into()));
    let aimless = Status { target: None, ..available() };
    let (_, action) =
        upgrade(Upgrade::Checking, UpgradeEvent::Checked(aimless, Some(install())));
    assert!(matches!(action, UpgradeAction::Report(status)
        if status.phase == Phase::Failed("nothing to install".into())));
}

#[test]
fn a_failed_install_drops_the_staged_tree() {
    let staging = || upgrade(Upgrade::Checking, UpgradeEvent::Checked(available(), Some(install()))).0;
    let (_, action) = upgrade(staging(), UpgradeEvent::Staged(Err("no space".into())));
    let UpgradeAction::Discard { status, target, .. } = action else {
        panic!("the tree should be dropped: {action:?}");
    };
    assert_eq!(status.phase, Phase::Failed("no space".into()));
    assert_eq!(target, v("0.1.5-rc.2"));
    let (applying, _) = upgrade(staging(), UpgradeEvent::Staged(Ok(())));
    let (_, action) = upgrade(applying, UpgradeEvent::Applied(Err("busy".into())));
    assert!(matches!(action, UpgradeAction::Discard { status, .. }
        if status.phase == Phase::Failed("busy".into())));
    let (_, action) = upgrade(Upgrade::Finished, UpgradeEvent::Staged(Ok(())));
    assert!(matches!(action, UpgradeAction::Wait));
}

// ------------------------------------------------------ the pending-upgrade note

#[test]
fn a_pending_note_lives_beside_the_backup_it_would_restore() {
    // If these ever diverge, a launch could decide to roll back and find nothing
    // to roll back to.
    let install = install();
    let parent = |path: String| dsh_shell::path::parent(&path);
    assert_eq!(parent(pending_path(&install)), parent(install.backup_dir()));
    assert_eq!(pending_path(&install), "/p/dsh-shell-staging/pending.json");
}

#[test]
fn a_note_names_the_version_on_trial() {
    let target = v("0.1.5-rc.2");
    assert_eq!(pending(None), None);
    let note = record_pending(&target);
    assert_eq!(note, Pending { target: "0.1.5-rc.2".into() });
    assert_eq!(pending(Some(note)), Some(target));
    // A note that cannot be read must not cause a rollback of a version that is
    // in fact fine.
    assert_eq!(pending(Some(Pending { target: "nonsense".into() })), None);
}

#[test]
fn a_status_is_published_beside_the_log() {
    assert!(publish(None, "{}".into()).is_empty());
    assert_eq!(
        publish(Some("/home/u/.dsh/cache/dsh-shell/dsh-shell.log".into()), "{}".into()),
        vec![
            Task::MakeDirs("/home/u/.dsh/cache/dsh-shell".into()),
            Task::Write {
                path: "/home/u/.dsh/cache/dsh-shell/status.json".into(),
                contents: "{}".into()
            },
        ]
    );
}

#[test]
fn clearing_a_note_removes_the_note_alone() {
    let install = Install {
        launcher: "/b/dsh".into(),
        resolved: "/p/node_modules/@deepseek-ai/dsh/lib/bin.js".into(),
        scope: "/p/node_modules/@deepseek-ai".into(),
        prefix: "/p".into(),
        bun: None,
    };
    assert_eq!(clear_pending(&install), Task::RemoveFile("/p/dsh-shell-staging/pending.json".into()));
    assert_eq!(clear_pending(&install), Task::RemoveFile(pending_path(&install)));
}

/// A directory that holds the note of an upgrade, or none.
struct Notes {
    file: Option<String>,
}

impl Notes {
    fn record(&mut self, version: &Version) {
        let note = record_pending(version);
        let target = serde_json::Value::from(note.target);
        self.file = Some(format!("{{\"target\":{target}}}"));
    }

    fn clear(&mut self, install: &Install) {
        assert_eq!(clear_pending(install), Task::RemoveFile(pending_path(install)));
        self.file = None;
    }

    fn pending(&self) -> Option<Version> {
        let text = self.file.as_deref();
        let note: Option<serde_json::Value> = text.and_then(|text| serde_json::from_str(text).ok());
        let target = note.and_then(|note| Some(note.get("target")?.as_str()?.to_string()));
        pending(target.map(|target| Pending { target }))
    }
}

#[test]
fn a_pending_note_round_trips_and_clears() {
    let mut notes = Notes { file: None };
    let target = v("0.1.5-rc.2");

    // Nothing is pending before an upgrade.
    assert_eq!(notes.pending(), None);

    notes.record(&target);
    assert_eq!(notes.pending(), Some(target));

    notes.clear(&install());
    assert_eq!(notes.pending(), None);
}

#[test]
fn a_corrupt_pending_note_is_ignored_rather_than_acted_on() {
    // A note that cannot be read must not cause a rollback of a version that is in
    // fact fine.
    for junk in ["", "not json", "{\"target\":\"nonsense\"}"] {
        let notes = Notes { file: Some(junk.into()) };
        assert_eq!(notes.pending(), None, "{junk:?} should be ignored");
    }
}

#[test]
fn clearing_a_note_that_is_not_there_is_harmless() {
    let mut notes = Notes { file: None };
    notes.clear(&install());
    assert_eq!(notes.pending(), None);
}

#[test]
fn a_second_upgrade_replaces_the_pending_note() {
    let mut notes = Notes { file: None };
    notes.record(&v("0.1.5-rc.1"));
    notes.record(&v("0.1.5-rc.2"));
    assert_eq!(notes.pending(), Some(v("0.1.5-rc.2")));
}
