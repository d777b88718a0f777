use dsh_desktop::config::rename_applies;
use dsh_desktop::dsh::{
    channel_file_text, channel_from_file, current_version_from_file, current_version_text, read_remote_cache,
    remote_cache_text, remote_from_query, remote_step, Channel, RemoteStep, RemoteVersions,
};
use dsh_desktop::health::saturating_millis;
use dsh_desktop::plugins::{install_report, InstallOutcome};

fn s(x: &str) -> String {
    x.to_string()
}

fn pair(r: Option<RemoteVersions>) -> Option<(String, String)> {
    r.map(|v| (v.latest, v.preview))
}

#[test]
fn state_file_texts() {
    assert_eq!(channel_file_text(Channel::Preview), "{\"channel\":\"preview\"}");
    assert_eq!(channel_file_text(Channel::Latest), "{\"channel\":\"latest\"}");
    assert_eq!(current_version_text("0.1.0-rc.7"), "{\"version\":\"0.1.0-rc.7\"}");
    assert_eq!(remote_cache_text("1.0.0", "1.1.0-rc.1", 42), "{\"latest\":\"1.0.0\",\"preview\":\"1.1.0-rc.1\",\"ts\":42}");
}

#[test]
fn state_files_read_back_what_was_written() {
    for c in [Channel::Latest, Channel::Preview] {
        assert_eq!(channel_from_file(Some(&channel_file_text(c))), c);
    }
    assert_eq!(current_version_from_file(Some(&current_version_text("1.2.3"))), Some(s("1.2.3")));
    let text = remote_cache_text("1.0.0", "1.1.0", 1000);
    assert_eq!(pair(read_remote_cache(Some(&text), Some(1000 + 21600))), Some((s("1.0.0"), s("1.1.0"))));
    assert!(read_remote_cache(Some(&text), Some(1000 + 21601)).is_none());
}

#[test]
fn remote_cache_comes_first() {
    let text = remote_cache_text("1.0.0", "1.1.0", 100);
    assert!(matches!(remote_step(Some(&text), Some(200)), RemoteStep::Cached(r) if r.latest == "1.0.0"));
    assert!(matches!(remote_step(Some(&text), Some(100 + 21601)), RemoteStep::Query));
    assert!(matches!(remote_step(None, Some(200)), RemoteStep::Query));
    assert!(matches!(remote_step(Some(&text), None), RemoteStep::Query));
}

#[test]
fn remote_query_result_and_cache_text() {
    let answer = "{\"dist-tags\":{\"latest\":\"1.0.0\"},\"versions\":[\"0.9.0\",\"1.0.0\",\"1.1.0-rc.1\"]}";
    let (r, cache) = remote_from_query(answer, Some(7));
    assert_eq!(pair(r), Some((s("1.0.0"), s("1.1.0-rc.1"))));
    assert_eq!(cache, Some(s("{\"latest\":\"1.0.0\",\"preview\":\"1.1.0-rc.1\",\"ts\":7}")));
    let (_, cache) = remote_from_query(answer, None);
    assert_eq!(cache, Some(s("{\"latest\":\"1.0.0\",\"preview\":\"1.1.0-rc.1\",\"ts\":0}")));
    let (r, cache) = remote_from_query("offline", Some(7));
    assert!(r.is_none() && cache.is_none());
}

#[test]
fn plugin_install_reports() {
    let r = install_report(InstallOutcome::Installed(s("@acme/tree")));
    assert_eq!(r.line, "插件 @acme/tree 安装成功，正在重启 DSH…");
    assert_eq!(r.ready_message, Some(s("插件 @acme/tree 安装成功，正在重启 DSH…")));
    assert_eq!(r.starting_message, None);
    assert!(r.restart);
    let r = install_report(InstallOutcome::Failed(s("boom")));
    assert_eq!(r.line, "插件安装失败: boom");
    assert_eq!(r.starting_message, Some(s("插件安装失败，可重试")));
    assert_eq!(r.ready_message, None);
    assert!(!r.restart);
    let r = install_report(InstallOutcome::CopyFailed(s("denied")));
    assert_eq!(r.line, "无法复制插件包: denied");
    assert_eq!(r.starting_message, Some(s("插件安装失败（无法复制文件）")));
    assert!(!r.restart);
}

#[test]
fn rotation_renames_applied() {
    assert!(rename_applies(3, 2, false));
    assert!(!rename_applies(3, 0, false));
    assert!(rename_applies(3, 1, true));
}

#[test]
fn millis_saturate() {
    assert_eq!(saturating_millis(30000), 30000);
    assert_eq!(saturating_millis(u128::MAX), u64::MAX);
    assert_eq!(saturating_millis(u64::MAX as u128 + 1), u64::MAX);
}
