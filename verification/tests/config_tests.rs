use dsh_desktop::config::{
    cache_file, config_file, data_dir, data_subdir, dsh_log_file, install_dir, join_path, local_appdata, log_dir,
    needs_rotation, resolve_home, rotation_plan, runtime_dir, shell_log_file, Config, LOG_KEEP_FILES, LOG_MAX_BYTES,
};

const A: &str = "C:\\Users\\u\\AppData\\Local";

fn s(x: &str) -> String {
    x.to_string()
}

#[test]
fn config_defaults() {
    let c = Config::default();
    assert_eq!(c.port, 0);
    assert!(c.close_to_tray);
    assert!(c.auto_restart);
    assert_eq!(c.max_restarts, 5);
    assert_eq!(c.dsh_home, None);
    assert!(c.extra_path.is_empty());
    assert!(c.extra_dsh_args.is_empty());
    assert_eq!(c.ready_timeout_secs, 30);
}

#[test]
fn well_known_paths() {
    assert_eq!(install_dir(A, true), "C:\\Users\\u\\AppData\\Local\\DeepSeek Harness");
    assert_eq!(runtime_dir(A, true), "C:\\Users\\u\\AppData\\Local\\DeepSeek Harness\\runtime");
    assert_eq!(data_dir(A, true), "C:\\Users\\u\\AppData\\Local\\DshDesktop");
    assert_eq!(log_dir(A, true), "C:\\Users\\u\\AppData\\Local\\DshDesktop\\logs");
    assert_eq!(dsh_log_file(A, true), "C:\\Users\\u\\AppData\\Local\\DshDesktop\\logs\\dsh-web.log");
    assert_eq!(shell_log_file(A, true), "C:\\Users\\u\\AppData\\Local\\DshDesktop\\logs\\shell.log");
    assert_eq!(config_file(A, true), "C:\\Users\\u\\AppData\\Local\\DshDesktop\\config.json");
    assert_eq!(cache_file(A, "x.json", true), "C:\\Users\\u\\AppData\\Local\\DshDesktop\\cache\\x.json");
    assert_eq!(data_subdir(A, "npx-cache", true), "C:\\Users\\u\\AppData\\Local\\DshDesktop\\npx-cache");
}

#[test]
fn join_edge_cases() {
    assert_eq!(join_path(true, "", "a"), "a");
    assert_eq!(join_path(true, "C:\\", "a"), "C:\\a");
    assert_eq!(join_path(true, "C:/x/", "a"), "C:/x/a");
    assert_eq!(join_path(true, "C:", "a"), "C:a");
    assert_eq!(join_path(true, "x", "a"), "x\\a");
}

#[test]
fn appdata_fallback() {
    assert_eq!(local_appdata(None), ".");
    assert_eq!(local_appdata(Some(s(A))), A);
    assert_eq!(data_dir(&local_appdata(None), true), ".\\DshDesktop");
}

#[test]
fn home_resolution() {
    let mut c = Config::default();
    assert_eq!(resolve_home(&c, "C:\\Users\\u", true), "C:\\Users\\u\\.dsh");
    c.dsh_home = Some(s("D:\\dsh"));
    assert_eq!(resolve_home(&c, "C:\\Users\\u", true), "D:\\dsh");
}

#[test]
fn rotation_threshold() {
    assert_eq!(LOG_MAX_BYTES, 10 * 1024 * 1024);
    assert!(!needs_rotation(Some(LOG_MAX_BYTES)));
    assert!(needs_rotation(Some(LOG_MAX_BYTES + 1)));
    assert!(!needs_rotation(None));
}

#[test]
fn rotation_renames_in_order() {
    assert_eq!(LOG_KEEP_FILES, 3);
    assert_eq!(
        rotation_plan("C:\\l\\shell.log"),
        vec![
            (s("C:\\l\\shell.log.2"), s("C:\\l\\shell.log.3")),
            (s("C:\\l\\shell.log.1"), s("C:\\l\\shell.log.2")),
            (s("C:\\l\\shell.log"), s("C:\\l\\shell.log.1")),
        ]
    );
}

#[test]
fn join_elsewhere_uses_slash() {
    assert_eq!(join_path(false, "x", "a"), "x/a");
    assert_eq!(join_path(false, "/home/u/", "a"), "/home/u/a");
    assert_eq!(join_path(false, "x\\", "a"), "x\\/a");
    assert_eq!(join_path(false, "C:", "a"), "C:/a");
    assert_eq!(join_path(false, "", "a"), "a");
    assert_eq!(data_dir("/home/u/.cache", false), "/home/u/.cache/DshDesktop");
    assert_eq!(cache_file("/home/u", "x.json", false), "/home/u/DshDesktop/cache/x.json");
}
