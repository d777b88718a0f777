use dsh_desktop::dsh::DshInstall;
use dsh_desktop::plugins::{
    loader_entry_update, ops_overlay_dir, ops_patch_candidates, ops_plugin_candidates, plugin_add_command,
    pnpm_shim_content, profile_package_for_tarball, staged_file_name, staged_patch_path, web_profile_path,
    PackageLookupError,
};

fn s(x: &str) -> String {
    x.to_string()
}

const BLOCK: &str = "- insert:\n    - id: @acme/tree\n      name: '@acme/tree'\n";

#[test]
fn loader_entry_into_empty_patch() {
    let header = "# Desktop-managed plugin entries (added by the shell's plugin installer)\n";
    assert_eq!(loader_entry_update("", "@acme/tree"), Some(format!("{header}{BLOCK}")));
    assert_eq!(loader_entry_update("  \n[]\n", "@acme/tree"), Some(format!("{header}{BLOCK}")));
}

#[test]
fn loader_entry_appended() {
    let existing = "- insert:\n    - id: a\n      name: 'a'\n\n\n";
    assert_eq!(
        loader_entry_update(existing, "@acme/tree"),
        Some(format!("- insert:\n    - id: a\n      name: 'a'\n{BLOCK}"))
    );
}

#[test]
fn loader_entry_already_present() {
    let existing = format!("# x\n{BLOCK}");
    assert_eq!(loader_entry_update(&existing, "@acme/tree"), None);
}

#[test]
fn loader_entry_idempotent() {
    let once = loader_entry_update("", "p").unwrap();
    assert_eq!(loader_entry_update(&once, "p"), None);
}

const MANIFEST: &str = "{\"dependencies\":{\"@acme/tree\":\"file:C:\\\\Users\\\\u\\\\AppData\\\\Local\\\\DshDesktop\\\\plugins\\\\acme-tree-1.0.0.tgz\",\"cordis\":\"^4.0.0\"}}";

#[test]
fn package_for_tarball_found() {
    assert_eq!(profile_package_for_tarball(MANIFEST, "acme-tree-1.0.0.tgz"), Ok(s("@acme/tree")));
}

#[test]
fn package_for_tarball_errors() {
    assert_eq!(profile_package_for_tarball(MANIFEST, "other.tgz"), Err(PackageLookupError::NotFound));
    assert_eq!(profile_package_for_tarball("{\"name\":\"web\"}", "x.tgz"), Err(PackageLookupError::NoDependencies));
    assert_eq!(profile_package_for_tarball("{\"dependencies\":[]}", "x.tgz"), Err(PackageLookupError::NoDependencies));
    assert_eq!(profile_package_for_tarball("not json", "x.tgz"), Err(PackageLookupError::InvalidManifest));
}

#[test]
fn package_for_empty_file_name_is_first() {
    assert_eq!(profile_package_for_tarball(MANIFEST, ""), Ok(s("@acme/tree")));
}

#[test]
fn staged_name_default() {
    assert_eq!(staged_file_name(None), "plugin.tgz");
    assert_eq!(staged_file_name(Some(s("a.tgz"))), "a.tgz");
}

#[test]
fn plugin_add_command_line() {
    let i = DshInstall { node: s("C:\\n\\node.exe"), npx_cli: s("C:\\n\\npx-cli.js"), npx_cache: s("C:\\d\\npx-cache") };
    let c = plugin_add_command(&i, Some(s("0.1.0-rc.7")), "C:\\Users\\u\\.dsh", "C:\\d\\plugins\\a.tgz", Some("C:\\d\\bin"), "C:\\Windows", true);
    assert_eq!(c.program, "powershell.exe");
    assert_eq!(
        c.args,
        vec![
            s("-NoProfile"),
            s("-WindowStyle"),
            s("Hidden"),
            s("-Command"),
            s("& 'C:\\n\\node.exe' 'C:\\n\\npx-cli.js' --cache 'C:\\d\\npx-cache' -y '@deepseek-ai/dsh@0.1.0-rc.7' plugin --profile web add 'C:\\d\\plugins\\a.tgz'"),
        ]
    );
    assert_eq!(
        c.env,
        vec![(s("DSH_HOME"), s("C:\\Users\\u\\.dsh")), (s("PATH"), s("C:\\d\\bin;C:\\Windows"))]
    );
    let d = plugin_add_command(&i, None, "h", "t.tgz", None, "", true);
    assert!(d.args[4].contains("'@deepseek-ai/dsh@latest'"));
    assert_eq!(d.env, vec![(s("DSH_HOME"), s("h"))]);
}

#[test]
fn pnpm_shim() {
    assert_eq!(pnpm_shim_content("C:\\node\\corepack.cmd"), "@echo off\r\n\"C:\\node\\corepack.cmd\" pnpm %*\r\n");
}

#[test]
fn profile_paths() {
    assert_eq!(web_profile_path("C:\\Users\\u\\.dsh", "cordis.patch.yml", true), "C:\\Users\\u\\.dsh\\profiles\\web\\cordis.patch.yml");
    assert_eq!(ops_overlay_dir("C:\\Users\\u\\.dsh", true), "C:\\Users\\u\\.dsh\\profiles\\node_modules\\@dsh-desktop\\dsh-ops");
    assert_eq!(staged_patch_path("C:\\A", true), "C:\\A\\DshDesktop\\scripts\\web-surface.patch.yml");
}

#[test]
fn overlay_candidates_in_order() {
    assert_eq!(
        ops_patch_candidates(Some("C:\\res"), Some("C:\\app"), "C:\\repo", true),
        vec![
            s("C:\\res\\scripts\\web-surface.patch.yml"),
            s("C:\\app\\scripts\\web-surface.patch.yml"),
            s("C:\\repo\\dsd-side\\web-surface.patch.yml"),
        ]
    );
    assert_eq!(ops_plugin_candidates(None, None, "C:\\repo", true), vec![s("C:\\repo\\dsd-side")]);
}
