use dsh_desktop::config::Config;
use dsh_desktop::dsh::{
    channel_from_file, channel_path, current_version_from_file, current_version_path, dependencies_from_npm,
    fresh_token, lookup_pair, CompatScan, ScanAction, npm_cli_path, npm_view_args, npx_cli_path, peer_incompatibility, plan_version,
    plugin_peer_checks, read_remote_cache, remote_cache_fresh, remote_cache_path, remote_versions_from_npm,
    resolved_version_from_npm, select_version, upgrade_target, Channel, DshInstall, InstallError, PeerCheck,
    RemoteVersions, ResolvedVersions, VersionError, VersionPlan, MIN_DSH_VERSION, REMOTE_CACHE_TTL_SECS,
};

fn s(x: &str) -> String {
    x.to_string()
}

#[test]
fn channel_labels() {
    assert_eq!(Channel::Latest.label(), "稳定版 (latest)");
    assert_eq!(Channel::Preview.label(), "预览版 (最高版本号)");
    assert_eq!(Channel::Latest.name(), "latest");
    assert_eq!(Channel::Preview.name(), "preview");
}

#[test]
fn channel_file_preview() {
    assert_eq!(channel_from_file(Some("{\"channel\":\"preview\"}")), Channel::Preview);
}

#[test]
fn channel_file_defaults_to_latest() {
    assert_eq!(channel_from_file(Some("{\"channel\":\"latest\"}")), Channel::Latest);
    assert_eq!(channel_from_file(None), Channel::Latest);
    assert_eq!(channel_from_file(Some("not json")), Channel::Latest);
    assert_eq!(channel_from_file(Some("{\"channel\":5}")), Channel::Latest);
    assert_eq!(channel_from_file(Some("{\"other\":\"preview\"}")), Channel::Latest);
    assert_eq!(channel_from_file(Some("[\"preview\"]")), Channel::Latest);
}

#[test]
fn current_version_file() {
    assert_eq!(current_version_from_file(Some("{\"version\":\"0.1.0-rc.7\"}")), Some(s("0.1.0-rc.7")));
    assert_eq!(current_version_from_file(Some(" { \"version\" : \"1.0.0\" , \"x\": 1 } ")), Some(s("1.0.0")));
    assert_eq!(current_version_from_file(Some("{\"version\":7}")), None);
    assert_eq!(current_version_from_file(Some("{")), None);
    assert_eq!(current_version_from_file(None), None);
}

#[test]
fn state_file_paths() {
    let a = "C:\\Users\\u\\AppData\\Local";
    assert_eq!(channel_path(a, true), "C:\\Users\\u\\AppData\\Local\\DshDesktop\\cache\\dsh-channel.json");
    assert_eq!(current_version_path(a, true), "C:\\Users\\u\\AppData\\Local\\DshDesktop\\cache\\dsh-current.json");
    assert_eq!(remote_cache_path(a, true), "C:\\Users\\u\\AppData\\Local\\DshDesktop\\cache\\dsh-remote.json");
}

const CACHE: &str = "{\"latest\":\"0.1.0-rc.7\",\"preview\":\"0.1.0-rc.8\",\"ts\":1000}";

#[test]
fn remote_cache_fresh_within_ttl() {
    let r = read_remote_cache(Some(CACHE), Some(1000 + REMOTE_CACHE_TTL_SECS)).unwrap();
    assert_eq!(r.latest, "0.1.0-rc.7");
    assert_eq!(r.preview, "0.1.0-rc.8");
    assert!(remote_cache_fresh(Some(CACHE), Some(1000)));
}

#[test]
fn remote_cache_stale_after_ttl() {
    assert!(read_remote_cache(Some(CACHE), Some(1000 + REMOTE_CACHE_TTL_SECS + 1)).is_none());
    assert!(!remote_cache_fresh(Some(CACHE), Some(1000 + REMOTE_CACHE_TTL_SECS + 1)));
}

#[test]
fn remote_cache_from_the_future_is_fresh() {
    assert!(remote_cache_fresh(Some(CACHE), Some(10)));
}

#[test]
fn remote_cache_incomplete() {
    assert!(!remote_cache_fresh(None, Some(1000)));
    assert!(!remote_cache_fresh(Some(CACHE), None));
    assert!(!remote_cache_fresh(Some("{\"latest\":\"a\",\"preview\":\"b\"}"), Some(1000)));
    assert!(!remote_cache_fresh(Some("{\"latest\":\"a\",\"ts\":1000}"), Some(1000)));
    assert!(!remote_cache_fresh(Some("{\"latest\":\"a\",\"preview\":\"b\",\"ts\":-1}"), Some(1000)));
}

#[test]
fn remote_versions_tag_and_max() {
    let text = "{\"dist-tags\":{\"latest\":\"0.1.0-rc.7\",\"next\":\"0.1.0-rc.8\"},\"versions\":[\"0.1.0-rc.6\",\"0.1.0-rc.8\",\"0.1.0-rc.7\"]}";
    let r = remote_versions_from_npm(text).unwrap();
    assert_eq!(r.latest, "0.1.0-rc.7");
    assert_eq!(r.preview, "0.1.0-rc.8");
}

#[test]
fn remote_versions_numeric_order_not_text_order() {
    let text = "{\"versions\":[\"0.1.0-rc.9\",\"0.1.0-rc.10\",\"0.1.0-rc.2\"]}";
    let r = remote_versions_from_npm(text).unwrap();
    assert_eq!(r.latest, "0.1.0-rc.10");
    assert_eq!(r.preview, "0.1.0-rc.10");
}

#[test]
fn remote_versions_last_of_equal_maxima() {
    let text = "{\"versions\":[\"1.0\",\"1.0.0\",7]}";
    let r = remote_versions_from_npm(text).unwrap();
    assert_eq!(r.preview, "1.0.0");
}

#[test]
fn remote_versions_without_versions() {
    let r = remote_versions_from_npm("{\"dist-tags\":{\"latest\":\"1.2.3\"}}").unwrap();
    assert_eq!(r.latest, "1.2.3");
    assert_eq!(r.preview, "1.2.3");
}

#[test]
fn remote_versions_nothing_usable() {
    assert!(remote_versions_from_npm("{\"dist-tags\":{}}").is_none());
    assert!(remote_versions_from_npm("{\"dist-tags\":[\"latest\"],\"versions\":[]}").is_none());
    assert!(remote_versions_from_npm("npm ERR!").is_none());
}

#[test]
fn dependencies_all_strings() {
    let d = dependencies_from_npm("{\"@deepseek-ai/core\":\"^1.2.0\",\"cordis\":\"3.0.0\"}").unwrap();
    assert_eq!(lookup_pair(&d, "@deepseek-ai/core"), Some(s("^1.2.0")));
    assert_eq!(lookup_pair(&d, "cordis"), Some(s("3.0.0")));
    assert_eq!(lookup_pair(&d, "missing"), None);
}

#[test]
fn dependencies_rejects_non_strings() {
    assert!(dependencies_from_npm("{\"a\":\"1\",\"b\":2}").is_none());
    assert!(dependencies_from_npm("[\"a\"]").is_none());
    assert!(dependencies_from_npm("").is_none());
    assert_eq!(dependencies_from_npm("{}").unwrap().len(), 0);
}

#[test]
fn dependencies_duplicate_keys() {
    // A non-string value fails the parse even where a later member repeats its key.
    assert!(dependencies_from_npm("{\"a\":1,\"a\":\"x\"}").is_none());
    // A repeated key keeps its last value, once.
    assert_eq!(dependencies_from_npm("{\"a\":\"1\",\"a\":\"2\"}"), Some(vec![(s("a"), s("2"))]));
}

#[test]
fn resolved_version_string_or_last() {
    assert_eq!(resolved_version_from_npm("\"1.2.3\""), Some(s("1.2.3")));
    assert_eq!(resolved_version_from_npm("[\"1.2.3\",\"1.2.4\"]"), Some(s("1.2.4")));
    assert_eq!(resolved_version_from_npm("[\"1.2.3\",4]"), None);
    assert_eq!(resolved_version_from_npm("[]"), None);
    assert_eq!(resolved_version_from_npm("5"), None);
}

#[test]
fn resolved_versions_record_then_get() {
    let mut m = ResolvedVersions::new();
    assert_eq!(m.get("@deepseek-ai/core"), None);
    m.record(s("@deepseek-ai/core"), s("1.2.4"));
    assert_eq!(m.get("@deepseek-ai/core"), Some(s("1.2.4")));
    m.record(s("@deepseek-ai/ui"), s("2.0.1"));
    assert_eq!(m.get("@deepseek-ai/ui"), Some(s("2.0.1")));
    assert_eq!(m.get("@deepseek-ai/core"), Some(s("1.2.4")));
    assert_eq!(m.get("other"), None);
}

fn deps() -> Vec<(String, String)> {
    vec![(s("@deepseek-ai/core"), s("^1.2.0")), (s("@deepseek-ai/ui"), s("^2.0.0"))]
}

#[test]
fn peer_checks_scope_and_known_deps() {
    let manifest = "{\"name\":\"my-plugin\",\"peerDependencies\":{\"@deepseek-ai/core\":\"^1.0.0\",\"@deepseek-ai/other\":\"^1\",\"react\":\"^18\"}}";
    let c = plugin_peer_checks(manifest, &deps());
    assert_eq!(c.len(), 1);
    assert_eq!(c[0].name, "my-plugin");
    assert_eq!(c[0].dep, "@deepseek-ai/core");
    assert_eq!(c[0].range, "^1.0.0");
    assert_eq!(c[0].dsh_range, "^1.2.0");
}

#[test]
fn peer_checks_defaults() {
    let manifest = "{\"peerDependencies\":{\"@deepseek-ai/ui\":3}}";
    let c = plugin_peer_checks(manifest, &deps());
    assert_eq!(c.len(), 1);
    assert_eq!(c[0].name, "plugin");
    assert_eq!(c[0].range, "");
}

#[test]
fn peer_checks_none() {
    assert!(plugin_peer_checks("{\"name\":\"x\"}", &deps()).is_empty());
    assert!(plugin_peer_checks("{\"peerDependencies\":[1]}", &deps()).is_empty());
    assert!(plugin_peer_checks("not json", &deps()).is_empty());
}

fn check() -> PeerCheck {
    PeerCheck { name: s("my-plugin"), dep: s("@deepseek-ai/core"), range: s("^1.0.0"), dsh_range: s("^1.2.0") }
}

#[test]
fn peer_incompatibility_message() {
    assert_eq!(
        peer_incompatibility(&check(), "2.0.0"),
        Some(s("my-plugin: @deepseek-ai/core 需要 ^1.0.0，但 dsh 提供 2.0.0"))
    );
    assert_eq!(peer_incompatibility(&check(), "1.5.0"), None);
}

#[test]
fn peer_with_empty_range_is_compatible() {
    let c = PeerCheck { range: s(""), ..check() };
    assert_eq!(peer_incompatibility(&c, "9.9.9"), None);
}

fn remote() -> Option<RemoteVersions> {
    Some(RemoteVersions { latest: s("0.1.0-rc.7"), preview: s("0.1.0-rc.8") })
}

#[test]
fn plan_offline() {
    assert_eq!(plan_version(None, None, Channel::Latest).err(), Some(VersionError::OfflineFirstRun));
    assert!(matches!(plan_version(Some(s("0.1.0-rc.7")), None, Channel::Preview), Ok(VersionPlan::StayOffline)));
}

#[test]
fn plan_first_run_installs_channel_target() {
    match plan_version(None, remote(), Channel::Preview) {
        Ok(VersionPlan::Install(w)) => assert_eq!(w, "0.1.0-rc.8"),
        _ => panic!("expected Install"),
    }
    match plan_version(None, remote(), Channel::Latest) {
        Ok(VersionPlan::Install(w)) => assert_eq!(w, "0.1.0-rc.7"),
        _ => panic!("expected Install"),
    }
}

#[test]
fn plan_upgrade_or_stay() {
    match plan_version(Some(s("0.1.0-rc.6")), remote(), Channel::Latest) {
        Ok(VersionPlan::CheckUpgrade { current, wanted }) => {
            assert_eq!(current, "0.1.0-rc.6");
            assert_eq!(wanted, "0.1.0-rc.7");
        },
        _ => panic!("expected CheckUpgrade"),
    }
    assert!(matches!(plan_version(Some(s("0.1.0-rc.7")), remote(), Channel::Latest), Ok(VersionPlan::Stay)));
    // a downgrade target is still a change of version
    assert!(matches!(
        plan_version(Some(s("0.1.0-rc.8")), remote(), Channel::Latest),
        Ok(VersionPlan::CheckUpgrade { .. })
    ));
}

#[test]
fn upgrade_gate() {
    assert_eq!(upgrade_target(s("1.0.0"), true, &vec![]), Some(s("1.0.0")));
    assert_eq!(upgrade_target(s("1.0.0"), false, &vec![]), None);
    assert_eq!(upgrade_target(s("1.0.0"), true, &vec![s("p: x")]), None);
}

#[test]
fn select_version_and_floor() {
    assert_eq!(select_version(Some(s("0.1.0-rc.8")), Some(s("0.1.0-rc.7"))), Ok(s("0.1.0-rc.8")));
    assert_eq!(select_version(None, Some(s("0.1.0-rc.7"))), Ok(s("0.1.0-rc.7")));
    assert_eq!(select_version(None, Some(s("0.1.0-rc.5"))), Err(VersionError::BelowMinimum));
    assert_eq!(select_version(None, None), Err(VersionError::BelowMinimum));
    assert_eq!(MIN_DSH_VERSION, "0.1.0-rc.6");
}

#[test]
fn install_resolve() {
    let i = DshInstall::resolve(Some("C:\\node"), "node.exe", true, "C:\\Users\\u\\AppData\\Local", true).unwrap();
    assert_eq!(i.node, "C:\\node\\node.exe");
    assert_eq!(i.npx_cli, "C:\\node\\node_modules\\npm\\bin\\npx-cli.js");
    assert_eq!(i.npx_cache, "C:\\Users\\u\\AppData\\Local\\DshDesktop\\npx-cache");
    assert_eq!(npx_cli_path("C:\\node", true), i.npx_cli);
    assert_eq!(npm_cli_path("C:\\node\\", true), "C:\\node\\node_modules\\npm\\bin\\npm-cli.js");
}

#[test]
fn install_resolve_errors() {
    assert_eq!(DshInstall::resolve(None, "node.exe", true, "x", true).err(), Some(InstallError::NoNode));
    assert_eq!(DshInstall::resolve(Some("C:\\node"), "node.exe", false, "x", true).err(), Some(InstallError::NpxCliMissing));
}

fn install() -> DshInstall {
    DshInstall { node: s("C:\\n\\node.exe"), npx_cli: s("C:\\n\\npx-cli.js"), npx_cache: s("C:\\d\\npx-cache") }
}

#[test]
fn web_command_minimal() {
    let c = install().command("0.1.0-rc.7", 0, "tok", &Config::default(), None, "C:\\Windows", true);
    assert_eq!(c.program, "C:\\n\\node.exe");
    assert_eq!(
        c.args,
        vec!["C:\\n\\npx-cli.js", "--cache", "C:\\d\\npx-cache", "-y", "@deepseek-ai/dsh@0.1.0-rc.7", "web", "--port", "0"]
    );
    assert_eq!(c.env, vec![(s("DSH_DESKTOP_SHUTDOWN_TOKEN"), s("tok"))]);
}

#[test]
fn web_command_full() {
    let mut cfg = Config::default();
    cfg.dsh_home = Some(s("D:\\home\\.dsh"));
    cfg.extra_path = vec![s("C:\\git\\bin"), s("C:\\pwsh")];
    cfg.extra_dsh_args = vec![s("--trusted-host"), s("example")];
    let c = install().command("1.0.0", 3080, "tok", &cfg, Some("C:\\d\\scripts\\web-surface.patch.yml"), "C:\\Windows", true);
    assert_eq!(
        c.args,
        vec![
            "C:\\n\\npx-cli.js",
            "--cache",
            "C:\\d\\npx-cache",
            "-y",
            "@deepseek-ai/dsh@1.0.0",
            "web",
            "--patch",
            "C:\\d\\scripts\\web-surface.patch.yml",
            "--port",
            "3080",
            "--trusted-host",
            "example"
        ]
    );
    assert_eq!(
        c.env,
        vec![
            (s("DSH_DESKTOP_SHUTDOWN_TOKEN"), s("tok")),
            (s("DSH_HOME"), s("D:\\home\\.dsh")),
            (s("PATH"), s("C:\\git\\bin;C:\\pwsh;C:\\Windows")),
        ]
    );
    let unix = install().command("1.0.0", 1, "t", &cfg, None, "/usr/bin", false);
    assert_eq!(unix.env[2], (s("PATH"), s("C:\\git\\bin:C:\\pwsh:/usr/bin")));
}

#[test]
fn probe_command_args() {
    let c = install().probe_command("0.1.0-rc.8");
    assert_eq!(c.program, "C:\\n\\node.exe");
    assert_eq!(
        c.args,
        vec!["C:\\n\\npx-cli.js", "--cache", "C:\\d\\npx-cache", "--prefer-offline", "-y", "@deepseek-ai/dsh@0.1.0-rc.8", "--version"]
    );
    assert_eq!(c.env, vec![(s("npm_config_loglevel"), s("info"))]);
}

#[test]
fn npm_view_command_args() {
    let q = vec![s("@deepseek-ai/dsh"), s("dist-tags"), s("versions")];
    assert_eq!(
        npm_view_args("C:\\n\\npm-cli.js", &q),
        vec!["C:\\n\\npm-cli.js", "view", "--json", "--no-audit", "--no-fund", "--loglevel", "error", "@deepseek-ai/dsh", "dist-tags", "versions"]
    );
}

#[test]
fn fresh_token_shape() {
    let t = fresh_token();
    assert_eq!(t.len(), 32);
    assert!(t.chars().all(|c| c.is_ascii_digit() || ('a'..='f').contains(&c)));
    assert_eq!(t.as_bytes()[12], b'4');
    assert!(matches!(t.as_bytes()[16], b'8' | b'9' | b'a' | b'b'));
    assert_ne!(t, fresh_token());
}

#[test]
fn peer_with_overflowing_range_is_incompatible() {
    let c = PeerCheck { range: s("^18446744073709551615.0.0"), ..check() };
    assert_eq!(
        peer_incompatibility(&c, "1.0.0"),
        Some(s("my-plugin: @deepseek-ai/core 需要 ^18446744073709551615.0.0，但 dsh 提供 1.0.0"))
    );
}

fn ask_of(a: &ScanAction) -> Option<(String, String)> {
    match a {
        ScanAction::Ask { dep, dsh_range } => Some((dep.clone(), dsh_range.clone())),
        ScanAction::Done => None,
    }
}

#[test]
fn compat_scan_over_profile() {
    let manifests = vec![
        s("{\"name\":\"a\",\"peerDependencies\":{\"@deepseek-ai/core\":\"^1.0.0\",\"@deepseek-ai/ui\":\"^3.0.0\"}}"),
        s("not json"),
        s("{\"name\":\"b\",\"peerDependencies\":{\"@deepseek-ai/core\":\"^2.0.0\"}}"),
        s("{\"peerDependencies\":{\"@deepseek-ai/ui\":\"*\"}}"),
    ];
    let (mut scan, a) = CompatScan::start(&manifests, &deps());
    assert_eq!(ask_of(&a), Some((s("@deepseek-ai/core"), s("^1.2.0"))));
    let a = scan.answer(Some(s("1.2.4")));
    assert_eq!(ask_of(&a), Some((s("@deepseek-ai/ui"), s("^2.0.0"))));
    // The ui lookup fails: that check is skipped, and ui is asked again later.
    let a = scan.answer(None);
    // b's core check uses the cached 1.2.4 without asking.
    assert_eq!(ask_of(&a), Some((s("@deepseek-ai/ui"), s("^2.0.0"))));
    let a = scan.answer(Some(s("2.0.1")));
    assert!(matches!(a, ScanAction::Done));
    assert_eq!(scan.found, vec![s("b: @deepseek-ai/core 需要 ^2.0.0，但 dsh 提供 1.2.4")]);
}

#[test]
fn compat_scan_empty_profile() {
    let (scan, a) = CompatScan::start(&Vec::new(), &deps());
    assert!(matches!(a, ScanAction::Done));
    assert!(scan.found.is_empty());
}

#[test]
fn compat_scan_reports_each_failing_plugin() {
    let manifests = vec![
        s("{\"name\":\"a\",\"peerDependencies\":{\"@deepseek-ai/core\":\"^1.0.0 || ^3.0.0\"}}"),
        s("{\"name\":\"b\",\"peerDependencies\":{\"@deepseek-ai/core\":\">=4.0.0\"}}"),
    ];
    let (mut scan, a) = CompatScan::start(&manifests, &deps());
    assert_eq!(ask_of(&a), Some((s("@deepseek-ai/core"), s("^1.2.0"))));
    let a = scan.answer(Some(s("3.1.0")));
    assert!(matches!(a, ScanAction::Done));
    assert_eq!(scan.found, vec![s("b: @deepseek-ai/core 需要 >=4.0.0，但 dsh 提供 3.1.0")]);
}
