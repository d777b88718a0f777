//! Plugins of the shared web profile: installing a local tarball through
//! `dsh plugin`, finding the package it added, mounting it in the loader
//! patch, and the ops overlay that the shell itself mounts.

use vstd::prelude::*;
use crate::config;
use crate::dsh::{self, CommandSpec, DshInstall};
use crate::json::{self, Json};
use crate::text;

verus! {

/// `<home>\profiles\web`, the web profile shared with the browser version.
pub open spec fn web_profile(home: Seq<char>, windows: bool) -> Seq<char> {
    config::join(windows, config::join(windows, home, "profiles"@), "web"@)
}

/// A file or directory of the web profile (`cordis.patch.yml`,
/// `package.json`, `node_modules`).
pub fn web_profile_path(home: &str, name: &str, windows: bool) -> (r: String)
    requires
        config::relative_part(windows, name@),
    ensures
        r@ == config::join(windows, web_profile(home@, windows), name@),
{
    proof {
        reveal_strlit("profiles");
        reveal_strlit("web");
    }
    let p = config::join_path(windows, home, "profiles");
    let w = config::join_path(windows, p.as_str(), "web");
    config::join_path(windows, w.as_str(), name)
}

// ---------------------------------------------------------------------------
// Loader entry
// ---------------------------------------------------------------------------

/// The line that shows a package is already mounted.
pub open spec fn loader_marker(pkg: Seq<char>) -> Seq<char> {
    "name: '"@ + pkg + "'"@
}

/// The patch block that mounts `pkg`.
pub open spec fn loader_block(pkg: Seq<char>) -> Seq<char> {
    "- insert:\n    - id: "@ + pkg + "\n      name: '"@ + pkg + "'\n"@
}

/// The comment that starts a patch file the shell creates.
pub open spec fn loader_header() -> Seq<char> {
    "# Desktop-managed plugin entries (added by the shell's plugin installer)\n"@
}

/// The new text of `cordis.patch.yml` that mounts `pkg`, or `None` where
/// the file already names it. An empty patch (blank, or `[]`) is replaced
/// by the header and the block; otherwise the block is appended on a new
/// line after the text without its trailing white space.
pub open spec fn loader_update(content: Seq<char>, pkg: Seq<char>) -> Option<Seq<char>> {
    if text::contains(content, loader_marker(pkg)) {
        None
    } else if text::trim(content).len() == 0 || text::trim(content) == "[]"@ {
        Some(loader_header() + loader_block(pkg))
    } else {
        Some(text::trim_end(content) + "\n"@ + loader_block(pkg))
    }
}

/// Mounting is idempotent: the text written names the package, so a second
/// update of it has nothing to do.
pub proof fn law_loader_update_idempotent(content: Seq<char>, pkg: Seq<char>)
    requires
        loader_update(content, pkg) is Some,
    ensures
        loader_update(loader_update(content, pkg).unwrap(), pkg) is None,
{
    let t = loader_update(content, pkg).unwrap();
    let lead: Seq<char> = "- insert:\n    - id: "@;
    let mid: Seq<char> = "\n      "@;
    let marker = loader_marker(pkg);
    reveal_strlit("\n      name: '");
    reveal_strlit("\n      ");
    reveal_strlit("name: '");
    reveal_strlit("'\n");
    reveal_strlit("'");
    reveal_strlit("\n");
    assert("\n      name: '"@ =~= mid + "name: '"@);
    assert("'\n"@ =~= "'"@ + "\n"@);
    let block = loader_block(pkg);
    assert(block =~= (lead + pkg + mid) + marker + "\n"@);
    let prefix = if text::trim(content).len() == 0 || text::trim(content) == "[]"@ {
        loader_header()
    } else {
        text::trim_end(content) + "\n"@
    };
    assert(t == prefix + block);
    let off = prefix.len() + lead.len() + pkg.len() + mid.len();
    assert(t.subrange(off as int, (off + marker.len()) as int) =~= marker);
    assert(text::occurs_at(t, marker, off as int));
}

proof fn lemma_content_end_blank(s: Seq<char>, j: int)
    requires
        0 <= j <= s.len(),
    ensures
        forall|k: int| text::content_end(s, j) <= k < j ==> text::is_white_space(#[trigger] s[k]),
        text::content_end(s, j) == 0 || !text::is_white_space(s[text::content_end(s, j) - 1]),
        0 <= text::content_end(s, j) <= j,
    decreases j,
{
    if j > 0 && text::is_white_space(s[j - 1]) {
        lemma_content_end_blank(s, j - 1);
    }
}

/// Mounting a plugin in the loader patch: where no entry of the patch is
/// named exactly `pkg` (no `name: '<pkg>'` with its closing quote), the
/// update gives a text that ends with the block mounting `pkg`; a patch
/// with nothing in it (blank, or `[]`) becomes the header and the block,
/// any other keeps its text up to its last non-white-space character,
/// then a line break and the block. Where such an entry exists, nothing is
/// written.
pub proof fn law_loader_mounts_missing(content: Seq<char>, pkg: Seq<char>)
    ensures
        ({
            let marker = "name: '"@ + pkg + "'"@;
            let block = "- insert:\n    - id: "@ + pkg + "\n      name: '"@ + pkg + "'\n"@;
            let mounted = exists|i: int|
                0 <= i && i + marker.len() <= content.len() && #[trigger] content.subrange(i, i + marker.len())
                    == marker;
            &&& mounted ==> loader_update(content, pkg) is None
            &&& !mounted ==> {
                let t = loader_update(content, pkg).unwrap();
                &&& loader_update(content, pkg) is Some
                &&& t.len() >= block.len()
                &&& t.subrange(t.len() - block.len(), t.len() as int) == block
                &&& (text::trim(content).len() == 0 || text::trim(content) == "[]"@) ==> t
                    == "# Desktop-managed plugin entries (added by the shell's plugin installer)\n"@ + block
                &&& !(text::trim(content).len() == 0 || text::trim(content) == "[]"@) ==> exists|e: int|
                    0 <= e <= content.len() && (e == 0 || !text::is_white_space(content[e - 1])) && (forall|
                        k: int,
                    |
                        e <= k < content.len() ==> text::is_white_space(#[trigger] content[k])) && t
                        == content.take(e) + "\n"@ + block
            }
        }),
{
    let marker = "name: '"@ + pkg + "'"@;
    let block = "- insert:\n    - id: "@ + pkg + "\n      name: '"@ + pkg + "'\n"@;
    assert(loader_marker(pkg) == marker);
    assert(loader_block(pkg) == block);
    let mounted = exists|i: int|
        0 <= i && i + marker.len() <= content.len() && #[trigger] content.subrange(i, i + marker.len()) == marker;
    if mounted {
        let i = choose|i: int|
            0 <= i && i + marker.len() <= content.len() && #[trigger] content.subrange(i, i + marker.len()) == marker;
        assert(text::occurs_at(content, marker, i));
    } else {
        assert(!text::contains(content, marker)) by {
            if text::contains(content, marker) {
                let i = choose|i: int| text::occurs_at(content, marker, i);
                assert(content.subrange(i, i + marker.len()) == marker);
            }
        }
        let t = loader_update(content, pkg).unwrap();
        if text::trim(content).len() == 0 || text::trim(content) == "[]"@ {
            let h = loader_header();
            assert(t == h + block);
            assert(t.subrange(t.len() - block.len(), t.len() as int) =~= block);
        } else {
            let e = text::content_end(content, content.len() as int);
            lemma_content_end_blank(content, content.len() as int);
            let head = text::trim_end(content) + "\n"@;
            assert(t == head + block);
            assert(t.subrange(t.len() - block.len(), t.len() as int) =~= block);
            assert(text::trim_end(content) == content.take(e));
            assert(t == content.take(e) + "\n"@ + block);
        }
    }
}

/// Ensures the web profile's loader mounts `pkg_name`: given the current
/// text of `cordis.patch.yml` (empty where it does not exist), the text to
/// write, or `None` where nothing needs writing.
pub fn loader_entry_update(content: &str, pkg_name: &str) -> (r: Option<String>)
    ensures
        match r {
            Some(t) => loader_update(content@, pkg_name@) == Some(t@),
            None => loader_update(content@, pkg_name@) is None,
        },
{
    let mut marker = "name: '".to_owned();
    marker.append(pkg_name);
    marker.append("'");
    let c = text::chars_of(content);
    let m = text::chars_of(marker.as_str());
    if text::contains_chars(&c, &m) {
        return None;
    }
    let mut block = "- insert:\n    - id: ".to_owned();
    block.append(pkg_name);
    block.append("\n      name: '");
    block.append(pkg_name);
    block.append("'\n");
    let trimmed = text::trim_chars(&c);
    let brackets = text::chars_of("[]");
    if trimmed.len() == 0 || text::chars_eq(&trimmed, &brackets) {
        let mut out = "# Desktop-managed plugin entries (added by the shell's plugin installer)\n".to_owned();
        out.append(block.as_str());
        Some(out)
    } else {
        let e = text::trimmed_end(&c);
        let head = content.substring_char(0, e);
        assert(head@ =~= text::trim_end(content@));
        let mut out = head.to_owned();
        out.append("\n");
        out.append(block.as_str());
        Some(out)
    }
}

// ---------------------------------------------------------------------------
// Finding the package a tarball installed
// ---------------------------------------------------------------------------

/// Why the package installed from a tarball cannot be named.
#[derive(Clone, Copy, Debug, PartialEq, Eq, Structural)]
pub enum PackageLookupError {
    /// The profile manifest is not JSON.
    InvalidManifest,
    /// The profile manifest has no `dependencies` object.
    NoDependencies,
    /// No dependency refers to the tarball.
    NotFound,
}

/// A dependency spec refers to the tarball `file`: with `\` read as `/` it
/// ends with the file name, or it contains it.
pub open spec fn spec_names_file(spec: Seq<char>, file: Seq<char>) -> bool {
    text::ends_with(text::replace_char(spec, '\\', '/'), file) || text::contains(spec, file)
}

/// The first dependency in `entries[i..]` whose spec (a non-string counts
/// as empty) names `file`.
pub open spec fn package_for_file(entries: Seq<(String, Json)>, file: Seq<char>, i: int) -> Option<Seq<char>>
    decreases entries.len() - i,
{
    if i >= entries.len() {
        None
    } else {
        let spec = match json::str_of(entries[i].1) {
            Some(s) => s,
            None => Seq::empty(),
        };
        if spec_names_file(spec, file) {
            Some(entries[i].0@)
        } else {
            package_for_file(entries, file, i + 1)
        }
    }
}

/// The package that the web profile's manifest (its text) lists for the
/// tarball named `file`.
pub open spec fn profile_package(manifest: Seq<char>, file: Seq<char>) -> Result<Seq<char>, PackageLookupError> {
    match json::json_document(manifest) {
        None => Err(PackageLookupError::InvalidManifest),
        Some(j) => match json::member(j, "dependencies"@) {
            Some(Json::Object(e)) => match package_for_file(e@, file, 0) {
                Some(n) => Ok(n),
                None => Err(PackageLookupError::NotFound),
            },
            _ => Err(PackageLookupError::NoDependencies),
        },
    }
}

fn names_file(spec: &str, file: &Vec<char>) -> (r: bool)
    ensures
        r == spec_names_file(spec@, file@),
{
    let s = text::chars_of(spec);
    let slashed = text::replace_chars(&s, '\\', '/');
    text::ends_with_chars(&slashed, file) || text::contains_chars(&s, file)
}

/// Names the package that `dsh plugin add` installed from the tarball
/// `file_name`, from the text of the web profile's `package.json`.
pub fn profile_package_for_tarball(manifest: &str, file_name: &str) -> (r: Result<String, PackageLookupError>)
    ensures
        match r {
            Ok(n) => profile_package(manifest@, file_name@) == Ok::<Seq<char>, PackageLookupError>(n@),
            Err(e) => profile_package(manifest@, file_name@) == Err::<Seq<char>, PackageLookupError>(e),
        },
{
    let j = match json::parse_json(manifest) {
        Some(j) => j,
        None => {
            return Err(PackageLookupError::InvalidManifest);
        },
    };
    let entries = match j.get("dependencies") {
        Some(Json::Object(e)) => e,
        _ => {
            return Err(PackageLookupError::NoDependencies);
        },
    };
    let file = text::chars_of(file_name);
    let n = entries.len();
    assert(profile_package(manifest@, file_name@) == (match package_for_file(entries@, file_name@, 0) {
        Some(x) => Ok::<Seq<char>, PackageLookupError>(x),
        None => Err(PackageLookupError::NotFound),
    }));
    let mut i: usize = 0;
    while i < n
        invariant
            n == entries@.len(),
            i <= n,
            file@ == file_name@,
            profile_package(manifest@, file_name@) == (match package_for_file(entries@, file_name@, 0) {
                Some(x) => Ok::<Seq<char>, PackageLookupError>(x),
                None => Err(PackageLookupError::NotFound),
            }),
            package_for_file(entries@, file_name@, 0) == package_for_file(entries@, file_name@, i as int),
        decreases n - i,
    {
        let spec = match entries[i].1.string() {
            Some(s) => s,
            None => {
                let e = "".to_owned();
                proof { reveal_strlit(""); }
                e
            },
        };
        assert(spec@ == (match json::str_of(entries@[i as int].1) {
            Some(x) => x,
            None => Seq::<char>::empty(),
        }));
        if names_file(spec.as_str(), &file) {
            assert(package_for_file(entries@, file_name@, i as int) == Some(entries@[i as int].0@));
            return Ok(entries[i].0.clone());
        }
        i = i + 1;
    }
    Err(PackageLookupError::NotFound)
}

// ---------------------------------------------------------------------------
// The `dsh plugin add` command
// ---------------------------------------------------------------------------

/// The file name a picked tarball is staged under (`plugin.tgz` where the
/// path has none).
pub fn staged_file_name(file_name: Option<String>) -> (r: String)
    ensures
        r@ == (match file_name {
            Some(f) => f@,
            None => "plugin.tgz"@,
        }),
{
    match file_name {
        Some(f) => f,
        None => "plugin.tgz".to_owned(),
    }
}

/// How a plugin installation ended.
pub enum InstallOutcome {
    /// The picked tarball could not be copied into the staging directory
    /// (the error, as text).
    CopyFailed(String),
    /// `dsh plugin add` installed the package named here.
    Installed(String),
    /// The installation failed (the error, as text).
    Failed(String),
}

/// What the shell shows after a plugin installation: a line for the
/// progress log, the progress message of the `ready` phase (where the
/// installation succeeded), the message of a `Starting` status (where it
/// failed), and whether `dsh web` restarts.
pub struct InstallReport {
    pub line: String,
    pub ready_message: Option<String>,
    pub starting_message: Option<String>,
    pub restart: bool,
}

/// The success line: `插件 <pkg> 安装成功，正在重启 DSH…`.
pub open spec fn installed_line(pkg: Seq<char>) -> Seq<char> {
    "插件 "@ + pkg + " 安装成功，正在重启 DSH…"@
}

/// The report of an installation: a copy failure and a failed install keep
/// the shell starting with a retry hint; a success logs and shows the
/// success line and restarts `dsh web`.
pub fn install_report(outcome: InstallOutcome) -> (r: InstallReport)
    ensures
        match outcome {
            InstallOutcome::CopyFailed(e) => r.line@ == "无法复制插件包: "@ + e@ && r.ready_message is None
                && r.starting_message is Some
                && r.starting_message.unwrap()@ == "插件安装失败（无法复制文件）"@ && !r.restart,
            InstallOutcome::Installed(pkg) => r.line@ == installed_line(pkg@) && r.ready_message is Some
                && r.ready_message.unwrap()@ == installed_line(pkg@) && r.starting_message is None && r.restart,
            InstallOutcome::Failed(e) => r.line@ == "插件安装失败: "@ + e@ && r.ready_message is None
                && r.starting_message is Some
                && r.starting_message.unwrap()@ == "插件安装失败，可重试"@ && !r.restart,
        },
{
    match outcome {
        InstallOutcome::CopyFailed(e) => {
            let mut line = "无法复制插件包: ".to_owned();
            line.append(e.as_str());
            InstallReport {
                line,
                ready_message: None,
                starting_message: Some("插件安装失败（无法复制文件）".to_owned()),
                restart: false,
            }
        },
        InstallOutcome::Installed(pkg) => {
            let mut line = "插件 ".to_owned();
            line.append(pkg.as_str());
            line.append(" 安装成功，正在重启 DSH…");
            let ready = line.clone();
            InstallReport { line, ready_message: Some(ready), starting_message: None, restart: true }
        },
        InstallOutcome::Failed(e) => {
            let mut line = "插件安装失败: ".to_owned();
            line.append(e.as_str());
            InstallReport {
                line,
                ready_message: None,
                starting_message: Some("插件安装失败，可重试".to_owned()),
                restart: false,
            }
        },
    }
}

/// The PowerShell command line that runs
/// `dsh plugin --profile web add <tgz>` through npx, pinned to `version`.
pub open spec fn plugin_add_line(
    node: Seq<char>,
    npx_cli: Seq<char>,
    npx_cache: Seq<char>,
    version: Seq<char>,
    tgz: Seq<char>,
) -> Seq<char> {
    "& '"@ + node + "' '"@ + npx_cli + "' --cache '"@ + npx_cache + "' -y '@deepseek-ai/dsh@"@ + version
        + "' plugin --profile web add '"@ + tgz + "'"@
}

/// The version the plugin command is pinned to: the recorded one, else
/// `latest`.
pub open spec fn plugin_cli_version(current: Option<Seq<char>>) -> Seq<char> {
    match current {
        Some(v) => v,
        None => "latest"@,
    }
}

/// The hidden-console PowerShell process that installs the tarball `tgz`
/// into the web profile of `home`; `shim_dir` is the directory of the pnpm
/// shim, put in front of `PATH` where it exists.
pub fn plugin_add_command(
    install: &DshInstall,
    current: Option<String>,
    home: &str,
    tgz: &str,
    shim_dir: Option<&str>,
    current_path: &str,
    windows: bool,
) -> (r: CommandSpec)
    ensures
        r@.program == "powershell.exe"@,
        r@.args == seq![
            "-NoProfile"@,
            "-WindowStyle"@,
            "Hidden"@,
            "-Command"@,
            plugin_add_line(
                install.node@,
                install.npx_cli@,
                install.npx_cache@,
                plugin_cli_version(dsh::opt_string_view(current)),
                tgz@,
            ),
        ],
        r@.env == seq![("DSH_HOME"@, home@)] + (match shim_dir {
            Some(b) => seq![("PATH"@, b@ + dsh::path_list_separator(windows) + current_path@)],
            None => Seq::empty(),
        }),
{
    let version = match current {
        Some(v) => v,
        None => "latest".to_owned(),
    };
    let mut line = "& '".to_owned();
    line.append(install.node.as_str());
    line.append("' '");
    line.append(install.npx_cli.as_str());
    line.append("' --cache '");
    line.append(install.npx_cache.as_str());
    line.append("' -y '@deepseek-ai/dsh@");
    line.append(version.as_str());
    line.append("' plugin --profile web add '");
    line.append(tgz);
    line.append("'");
    let mut args: Vec<String> = Vec::new();
    args.push("-NoProfile".to_owned());
    args.push("-WindowStyle".to_owned());
    args.push("Hidden".to_owned());
    args.push("-Command".to_owned());
    let ghost lv = line@;
    args.push(line);
    let mut env: Vec<(String, String)> = Vec::new();
    env.push(("DSH_HOME".to_owned(), home.to_owned()));
    match shim_dir {
        Some(b) => {
            let sep: &str = if windows { ";" } else { ":" };
            let mut value = b.to_owned();
            value.append(sep);
            value.append(current_path);
            env.push(("PATH".to_owned(), value));
        },
        None => {},
    }
    assert(dsh::string_views(args@) =~= seq![
        "-NoProfile"@,
        "-WindowStyle"@,
        "Hidden"@,
        "-Command"@,
        lv,
    ]);
    assert(dsh::pair_views(env@) =~= seq![("DSH_HOME"@, home@)] + (match shim_dir {
        Some(b) => seq![("PATH"@, b@ + dsh::path_list_separator(windows) + current_path@)],
        None => Seq::empty(),
    }));
    CommandSpec { program: "powershell.exe".to_owned(), args, env }
}

/// The text of the `pnpm.cmd` shim that routes pnpm through corepack.
pub fn pnpm_shim_content(corepack: &str) -> (r: String)
    ensures
        r@ == "@echo off\r\n\""@ + corepack@ + "\" pnpm %*\r\n"@,
{
    let mut r = "@echo off\r\n\"".to_owned();
    r.append(corepack);
    r.append("\" pnpm %*\r\n");
    r
}

// ---------------------------------------------------------------------------
// Ops overlay (`/api/health` + `/api/admin/shutdown`)
// ---------------------------------------------------------------------------

/// Where a bundled resource may be, in the order tried: under the Tauri
/// resource directory's `scripts`, under `scripts` two levels above the
/// executable, and finally `in_repo`, its place in the repository
/// (development).
pub open spec fn resource_candidates(
    resource_dir: Option<Seq<char>>,
    exe_root: Option<Seq<char>>,
    name: Seq<char>,
    in_repo: Seq<char>,
    windows: bool,
) -> Seq<Seq<char>> {
    (match resource_dir {
        Some(d) => seq![config::join(windows, config::join(windows, d, "scripts"@), name)],
        None => Seq::empty(),
    }) + (match exe_root {
        Some(r) => seq![config::join(windows, config::join(windows, r, "scripts"@), name)],
        None => Seq::empty(),
    }) + seq![in_repo]
}

fn candidates(
    resource_dir: Option<&str>,
    exe_root: Option<&str>,
    name: &str,
    in_repo: String,
    windows: bool,
) -> (r: Vec<String>)
    requires
        config::relative_part(windows, name@),
    ensures
        dsh::string_views(r@) == resource_candidates(
            dsh::opt_view(resource_dir),
            dsh::opt_view(exe_root),
            name@,
            in_repo@,
            windows,
        ),
{
    proof {
        reveal_strlit("scripts");
    }
    let mut r: Vec<String> = Vec::new();
    match resource_dir {
        Some(d) => {
            let s = config::join_path(windows, d, "scripts");
            r.push(config::join_path(windows, s.as_str(), name));
        },
        None => {},
    }
    match exe_root {
        Some(x) => {
            let s = config::join_path(windows, x, "scripts");
            r.push(config::join_path(windows, s.as_str(), name));
        },
        None => {},
    }
    let ghost last = in_repo@;
    r.push(in_repo);
    assert(dsh::string_views(r@) =~= resource_candidates(
        dsh::opt_view(resource_dir),
        dsh::opt_view(exe_root),
        name@,
        last,
        windows,
    ));
    r
}

/// Where the `--patch` overlay that mounts the ops routes may be, in the
/// order tried (the first that exists is used); `repo_root` is the parent
/// of the crate's manifest directory.
pub fn ops_patch_candidates(resource_dir: Option<&str>, exe_root: Option<&str>, repo_root: &str, windows: bool) -> (r: Vec<String>)
    ensures
        dsh::string_views(r@) == resource_candidates(
            dsh::opt_view(resource_dir),
            dsh::opt_view(exe_root),
            "web-surface.patch.yml"@,
            config::join(windows, config::join(windows, repo_root@, "dsd-side"@), "web-surface.patch.yml"@),
            windows,
        ),
{
    proof {
        reveal_strlit("dsd-side");
        reveal_strlit("web-surface.patch.yml");
    }
    let d = config::join_path(windows, repo_root, "dsd-side");
    let in_repo = config::join_path(windows, d.as_str(), "web-surface.patch.yml");
    candidates(resource_dir, exe_root, "web-surface.patch.yml", in_repo, windows)
}

/// Where the `@dsh-desktop/dsh-ops` package source may be, in the order
/// tried (the first holding a `package.json` is used).
pub fn ops_plugin_candidates(resource_dir: Option<&str>, exe_root: Option<&str>, repo_root: &str, windows: bool) -> (r: Vec<String>)
    ensures
        dsh::string_views(r@) == resource_candidates(
            dsh::opt_view(resource_dir),
            dsh::opt_view(exe_root),
            "dsd-side"@,
            config::join(windows, repo_root@, "dsd-side"@),
            windows,
        ),
{
    proof {
        reveal_strlit("dsd-side");
    }
    let in_repo = config::join_path(windows, repo_root, "dsd-side");
    candidates(resource_dir, exe_root, "dsd-side", in_repo, windows)
}

/// Where the overlay patch is staged: a path without spaces under the data
/// directory (npm exec splits arguments at spaces).
pub fn staged_patch_path(appdata: &str, windows: bool) -> (r: String)
    ensures
        r@ == config::join(windows, config::join(windows, config::join(windows, appdata@, "DshDesktop"@), "scripts"@), "web-surface.patch.yml"@),
{
    proof {
        reveal_strlit("scripts");
        reveal_strlit("web-surface.patch.yml");
    }
    let d = config::data_subdir(appdata, "scripts", windows);
    config::join_path(windows, d.as_str(), "web-surface.patch.yml")
}

/// Where the ops overlay package is installed so that the web profile can
/// resolve it: `<home>\profiles\node_modules\@dsh-desktop\dsh-ops`.
pub fn ops_overlay_dir(home: &str, windows: bool) -> (r: String)
    ensures
        r@ == config::join(windows, 
            config::join(windows, config::join(windows, config::join(windows, home@, "profiles"@), "node_modules"@), "@dsh-desktop"@),
            "dsh-ops"@,
        ),
{
    proof {
        reveal_strlit("profiles");
        reveal_strlit("node_modules");
        reveal_strlit("@dsh-desktop");
        reveal_strlit("dsh-ops");
    }
    let a = config::join_path(windows, home, "profiles");
    let b = config::join_path(windows, a.as_str(), "node_modules");
    let c = config::join_path(windows, b.as_str(), "@dsh-desktop");
    config::join_path(windows, c.as_str(), "dsh-ops")
}

} // verus!
