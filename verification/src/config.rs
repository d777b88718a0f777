//! Runtime configuration and the well-known filesystem locations of the
//! shell. Paths are Windows paths held as text (the shell runs on Windows);
//! the directories that come from the environment are handed in.

use vstd::prelude::*;
use crate::text;

verus! {

/// Runtime configuration (`config.json`).
#[derive(Clone, Debug)]
pub struct Config {
    /// Preferred port; `0` lets the OS pick a free one (always parsed from
    /// stdout).
    pub port: u16,
    /// Hide to tray on window close instead of quitting.
    pub close_to_tray: bool,
    /// Auto-restart `dsh web` with exponential backoff on unexpected exit.
    pub auto_restart: bool,
    /// Max consecutive restart attempts before entering the Error state.
    pub max_restarts: u32,
    /// Override `DSH_HOME` (default: `%USERPROFILE%\.dsh`).
    pub dsh_home: Option<String>,
    /// Extra directories prepended to the child `PATH`.
    pub extra_path: Vec<String>,
    /// Extra `dsh web` flags (e.g. `--trusted-host`).
    pub extra_dsh_args: Vec<String>,
    /// Timeout for the readiness probe, in seconds.
    pub ready_timeout_secs: u64,
}

impl Default for Config {
    fn default() -> (r: Self)
        ensures
            r.port == 0,
            r.close_to_tray,
            r.auto_restart,
            r.max_restarts == 5,
            r.dsh_home is None,
            r.extra_path@.len() == 0,
            r.extra_dsh_args@.len() == 0,
            r.ready_timeout_secs == 30,
    {
        Config {
            port: 0,
            close_to_tray: true,
            auto_restart: true,
            max_restarts: 5,
            dsh_home: None,
            extra_path: Vec::new(),
            extra_dsh_args: Vec::new(),
            ready_timeout_secs: 30,
        }
    }
}

/// The byte order mark that PowerShell's `-Encoding utf8` writes.
pub open spec fn bom_end(s: Seq<char>, i: int) -> int
    decreases s.len() - i,
{
    if i >= s.len() {
        s.len() as int
    } else if s[i] == '\u{feff}' {
        bom_end(s, i + 1)
    } else {
        i
    }
}

/// The text of `config.json` with its leading byte order marks removed
/// (`trim_start_matches('\u{feff}')`), so that it parses as JSON.
pub fn without_bom(raw: &str) -> (r: &str)
    ensures
        r@ == raw@.skip(bom_end(raw@, 0)),
{
    let n = raw.unicode_len();
    let mut i: usize = 0;
    while i < n && raw.get_char(i) == '\u{feff}'
        invariant
            n == raw@.len(),
            i <= n,
            bom_end(raw@, 0) == bom_end(raw@, i as int),
        decreases n - i,
    {
        i = i + 1;
    }
    let r = raw.substring_char(i, n);
    assert(r@ =~= raw@.skip(i as int));
    r
}

// ---------------------------------------------------------------------------
// Paths
// ---------------------------------------------------------------------------

/// A path separator: `\` or `/` on Windows, `/` elsewhere.
pub open spec fn is_separator(windows: bool, c: char) -> bool {
    c == '/' || (windows && c == '\\')
}

/// The separator that `PathBuf::join` inserts: `\` on Windows, `/`
/// elsewhere.
pub open spec fn main_separator(windows: bool) -> Seq<char> {
    if windows { "\\"@ } else { "/"@ }
}

/// `p` is a bare drive such as `C:`.
pub open spec fn is_bare_drive(p: Seq<char>) -> bool {
    p.len() == 2 && p[1] == ':' && (('a' <= p[0] && p[0] <= 'z') || ('A' <= p[0] && p[0] <= 'Z'))
}

/// A relative path component: it does not start with a separator and
/// (on Windows) has no drive prefix, so `join` appends it to the base.
pub open spec fn relative_part(windows: bool, part: Seq<char>) -> bool {
    &&& (part.len() == 0 || !is_separator(windows, part[0]))
    &&& !(windows && part.len() >= 2 && part[1] == ':')
}

/// `PathBuf::from(base).join(part)` for a relative `part`: the platform's
/// separator goes between them unless `base` is empty, already ends with a
/// separator, or is a bare Windows drive.
pub open spec fn join(windows: bool, base: Seq<char>, part: Seq<char>) -> Seq<char> {
    if base.len() == 0 || is_separator(windows, base.last()) || (windows && is_bare_drive(base)) {
        base + part
    } else {
        base + main_separator(windows) + part
    }
}

/// Joins a relative path component onto `base`, as `PathBuf::join` does on
/// Windows (`windows`) or elsewhere.
pub fn join_path(windows: bool, base: &str, part: &str) -> (r: String)
    requires
        relative_part(windows, part@),
    ensures
        r@ == join(windows, base@, part@),
{
    let b = text::chars_of(base);
    let n = b.len();
    let mut r = base.to_owned();
    let drive = n == 2 && b[1] == ':' && (('a' <= b[0] && b[0] <= 'z') || ('A' <= b[0] && b[0] <= 'Z'));
    if n == 0 || b[n - 1] == '/' || (windows && (b[n - 1] == '\\' || drive)) {
        r.append(part);
    } else if windows {
        r.append("\\");
        proof { reveal_strlit("\\"); }
        r.append(part);
    } else {
        r.append("/");
        proof { reveal_strlit("/"); }
        r.append(part);
    }
    r
}

/// `%LOCALAPPDATA%`, or `.` where it is not set.
pub fn local_appdata(var: Option<String>) -> (r: String)
    ensures
        r@ == (match var {
            Some(v) => v@,
            None => "."@,
        }),
{
    match var {
        Some(v) => v,
        None => ".".to_owned(),
    }
}

/// Per-user install root (NSIS `installMode: currentUser`, named after the
/// product): `%LOCALAPPDATA%\DeepSeek Harness`.
pub fn install_dir(appdata: &str, windows: bool) -> (r: String)
    ensures
        r@ == join(windows, appdata@, "DeepSeek Harness"@),
{
    proof {
        reveal_strlit("DeepSeek Harness");
    }
    join_path(windows, appdata, "DeepSeek Harness")
}

/// Private runtime prefix under the install root.
pub fn runtime_dir(appdata: &str, windows: bool) -> (r: String)
    ensures
        r@ == join(windows, join(windows, appdata@, "DeepSeek Harness"@), "runtime"@),
{
    proof {
        reveal_strlit("runtime");
    }
    let p = install_dir(appdata, windows);
    join_path(windows, p.as_str(), "runtime")
}

/// App data (config, logs, state): machine-local, non-roaming.
pub fn data_dir(appdata: &str, windows: bool) -> (r: String)
    ensures
        r@ == join(windows, appdata@, "DshDesktop"@),
{
    proof {
        reveal_strlit("DshDesktop");
    }
    join_path(windows, appdata, "DshDesktop")
}

/// The shell's log directory.
pub fn log_dir(appdata: &str, windows: bool) -> (r: String)
    ensures
        r@ == join(windows, join(windows, appdata@, "DshDesktop"@), "logs"@),
{
    proof {
        reveal_strlit("logs");
    }
    let d = data_dir(appdata, windows);
    join_path(windows, d.as_str(), "logs")
}

/// `dsh web` stdout/stderr capture.
pub fn dsh_log_file(appdata: &str, windows: bool) -> (r: String)
    ensures
        r@ == join(windows, join(windows, join(windows, appdata@, "DshDesktop"@), "logs"@), "dsh-web.log"@),
{
    proof {
        reveal_strlit("dsh-web.log");
    }
    let d = log_dir(appdata, windows);
    join_path(windows, d.as_str(), "dsh-web.log")
}

/// The shell's own structured log.
pub fn shell_log_file(appdata: &str, windows: bool) -> (r: String)
    ensures
        r@ == join(windows, join(windows, join(windows, appdata@, "DshDesktop"@), "logs"@), "shell.log"@),
{
    proof {
        reveal_strlit("shell.log");
    }
    let d = log_dir(appdata, windows);
    join_path(windows, d.as_str(), "shell.log")
}

/// The configuration file.
pub fn config_file(appdata: &str, windows: bool) -> (r: String)
    ensures
        r@ == join(windows, join(windows, appdata@, "DshDesktop"@), "config.json"@),
{
    proof {
        reveal_strlit("config.json");
    }
    let d = data_dir(appdata, windows);
    join_path(windows, d.as_str(), "config.json")
}

/// A file of the version-state cache directory.
pub fn cache_file(appdata: &str, name: &str, windows: bool) -> (r: String)
    requires
        relative_part(windows, name@),
    ensures
        r@ == join(windows, join(windows, join(windows, appdata@, "DshDesktop"@), "cache"@), name@),
{
    proof {
        reveal_strlit("cache");
    }
    let d = data_dir(appdata, windows);
    let c = join_path(windows, d.as_str(), "cache");
    join_path(windows, c.as_str(), name)
}

/// A directory directly under the data directory (`npx-cache`, `bin`,
/// `plugins`, `scripts`).
pub fn data_subdir(appdata: &str, name: &str, windows: bool) -> (r: String)
    requires
        relative_part(windows, name@),
    ensures
        r@ == join(windows, join(windows, appdata@, "DshDesktop"@), name@),
{
    let d = data_dir(appdata, windows);
    join_path(windows, d.as_str(), name)
}

/// `DSH_HOME`: the configured override, else `%USERPROFILE%\.dsh`.
pub fn resolve_home(config: &Config, user_profile: &str, windows: bool) -> (r: String)
    ensures
        r@ == (match config.dsh_home {
            Some(h) => h@,
            None => join(windows, user_profile@, ".dsh"@),
        }),
{
    proof {
        reveal_strlit(".dsh");
    }
    match &config.dsh_home {
        Some(h) => h.clone(),
        None => join_path(windows, user_profile, ".dsh"),
    }
}

// ---------------------------------------------------------------------------
// Log rotation
// ---------------------------------------------------------------------------

/// Per-log rotation ceiling (10 MiB).
pub const LOG_MAX_BYTES: u64 = 10485760;

/// How many rotated generations are kept.
pub const LOG_KEEP_FILES: u32 = 3;

/// Whether a log of `size` bytes (`None`: its size cannot be read) is due
/// for rotation.
pub fn needs_rotation(size: Option<u64>) -> (r: bool)
    ensures
        r == (match size {
            Some(s) => s > LOG_MAX_BYTES,
            None => false,
        }),
{
    match size {
        Some(s) => s > LOG_MAX_BYTES,
        None => false,
    }
}

/// `path.n`: generation `n` of a rotated log.
pub open spec fn generation(path: Seq<char>, n: nat) -> Seq<char> {
    path + "."@ + text::decimal(n)
}

/// The renames of one rotation, in order: `path.(k-1)` to `path.k` for
/// `k = LOG_KEEP_FILES` down to 2 (each applied only where its source
/// exists), then `path` to `path.1`; the oldest generation is overwritten.
pub open spec fn rotation_renames(path: Seq<char>) -> Seq<(Seq<char>, Seq<char>)> {
    seq![
        (generation(path, 2), generation(path, 3)),
        (generation(path, 1), generation(path, 2)),
        (path, generation(path, 1)),
    ]
}

fn generation_of(path: &str, n: u64) -> (r: String)
    ensures
        r@ == generation(path@, n as nat),
{
    let mut r = path.to_owned();
    r.append(".");
    let d = text::decimal_string(n);
    r.append(d.as_str());
    r
}

/// The renames that rotate the log at `path`.
pub fn rotation_plan(path: &str) -> (r: Vec<(String, String)>)
    ensures
        r@.map_values(|p: (String, String)| (p.0@, p.1@)) == rotation_renames(path@),
{
    let mut r: Vec<(String, String)> = Vec::new();
    r.push((generation_of(path, 2), generation_of(path, 3)));
    r.push((generation_of(path, 1), generation_of(path, 2)));
    r.push((path.to_owned(), generation_of(path, 1)));
    assert(r@.map_values(|p: (String, String)| (p.0@, p.1@)) =~= rotation_renames(path@));
    r
}

/// Whether rename `i` of a rotation plan of `plan_len` renames is applied:
/// the last one (`path` to `path.1`) always, an older generation only where
/// its source exists.
pub fn rename_applies(plan_len: usize, i: usize, source_exists: bool) -> (r: bool)
    requires
        i < plan_len,
    ensures
        r == (i == plan_len - 1 || source_exists),
{
    i == plan_len - 1 || source_exists
}

} // verus!
