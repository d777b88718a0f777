//! The tray: a status icon colored by run state, its tooltip, the version
//! lines of its menu and the commands of its menu items.

use vstd::prelude::*;
use crate::status::RunState;
use crate::text;

verus! {

/// State to color: yellow = starting, green = ready, orange = degraded,
/// red = error, gray = idle or stopped.
pub open spec fn color_of(state: RunState) -> [u8; 3] {
    match state {
        RunState::Starting => [0xF0, 0xB4, 0x2E],
        RunState::Ready => [0x3F, 0xB9, 0x50],
        RunState::Degraded => [0xF0, 0x8C, 0x3C],
        RunState::Error => [0xE5, 0x4B, 0x3F],
        RunState::Idle | RunState::Stopped => [0x8B, 0x94, 0x9E],
    }
}

/// The tray color of a run state.
pub fn state_color(state: RunState) -> (r: [u8; 3])
    ensures
        r == color_of(state),
{
    match state {
        RunState::Starting => [0xF0, 0xB4, 0x2E],
        RunState::Ready => [0x3F, 0xB9, 0x50],
        RunState::Degraded => [0xF0, 0x8C, 0x3C],
        RunState::Error => [0xE5, 0x4B, 0x3F],
        RunState::Idle | RunState::Stopped => [0x8B, 0x94, 0x9E],
    }
}

/// Side of the square tray icon, in pixels.
pub const ICON_SIZE: usize = 32;

/// Pixel `(x, y)` of the icon lies in its disc: the disc of radius 15
/// around the center (15.5, 15.5), scaled by 2 so that it is exact in
/// integers.
pub open spec fn in_disc(x: int, y: int) -> bool {
    (2 * x - 31) * (2 * x - 31) + (2 * y - 31) * (2 * y - 31) <= 900
}

/// Byte `c` (red, green, blue, alpha) of pixel `(x, y)`: the color with full
/// alpha in the disc, transparent outside.
pub open spec fn pixel_byte(color: [u8; 3], x: int, y: int, c: int) -> u8 {
    if in_disc(x, y) {
        if c == 3 {
            255
        } else {
            color@[c]
        }
    } else {
        0
    }
}

/// The RGBA bytes of the icon, row by row: byte `(y * 32 + x) * 4 + c` is
/// `pixel_byte(color, x, y, c)`.
pub open spec fn icon_bytes_ok(color: [u8; 3], px: Seq<u8>) -> bool {
    &&& px.len() == 4096
    &&& forall|y: int, x: int, c: int|
        0 <= y < 32 && 0 <= x < 32 && 0 <= c < 4 ==> #[trigger] px[(y * 32 + x) * 4 + c] == pixel_byte(color, x, y, c)
}

fn disc(x: usize, y: usize) -> (r: bool)
    requires
        x < 32,
        y < 32,
    ensures
        r == in_disc(x as int, y as int),
{
    let dx: i64 = 2 * (x as i64) - 31;
    let dy: i64 = 2 * (y as i64) - 31;
    assert(0 <= dx * dx <= 961 && 0 <= dy * dy <= 961) by (nonlinear_arith)
        requires
            -31 <= dx <= 31,
            -31 <= dy <= 31,
    ;
    dx * dx + dy * dy <= 900
}

/// Renders the 32×32 RGBA status icon: a filled circle of `color` on a
/// transparent background.
pub fn status_icon(color: [u8; 3]) -> (r: Vec<u8>)
    ensures
        icon_bytes_ok(color, r@),
{
    let mut px: Vec<u8> = Vec::new();
    let mut y: usize = 0;
    while y < 32
        invariant
            y <= 32,
            px@.len() == y * 128,
            forall|yy: int, x: int, c: int|
                0 <= yy < y && 0 <= x < 32 && 0 <= c < 4 ==> #[trigger] px@[(yy * 32 + x) * 4 + c] == pixel_byte(color, x, yy, c),
        decreases 32 - y,
    {
        let mut x: usize = 0;
        while x < 32
            invariant
                y < 32,
                x <= 32,
                px@.len() == y * 128 + x * 4,
                forall|yy: int, xx: int, c: int|
                    0 <= yy < 32 && 0 <= xx < 32 && 0 <= c < 4 && (yy < y || (yy == y && xx < x)) ==> #[trigger] px@[(yy * 32 + xx) * 4 + c] == pixel_byte(color, xx, yy, c),
            decreases 32 - x,
        {
            let ghost before = px@;
            let inside = disc(x, y);
            if inside {
                px.push(color[0]);
                px.push(color[1]);
                px.push(color[2]);
                px.push(255);
            } else {
                px.push(0);
                px.push(0);
                px.push(0);
                px.push(0);
            }
            assert forall|yy: int, xx: int, c: int|
                0 <= yy < 32 && 0 <= xx < 32 && 0 <= c < 4 && (yy < y || (yy == y && xx < x + 1)) implies #[trigger] px@[(yy * 32 + xx) * 4 + c] == pixel_byte(color, xx, yy, c) by {
                let k = (yy * 32 + xx) * 4 + c;
                if yy == y && xx == x {
                    assert(k == before.len() + c);
                } else {
                    assert(k == 128 * yy + 4 * xx + c);
                    assert(k < before.len());
                    assert(px@[k] == before[k]);
                }
            }
            x = x + 1;
        }
        y = y + 1;
    }
    px
}

/// The tooltip of a run state; once Ready it names the running dsh
/// version where one is recorded.
pub open spec fn tooltip_text(state: RunState, version: Option<Seq<char>>) -> Seq<char> {
    match state {
        RunState::Starting => "DeepSeek Harness · 启动中"@,
        RunState::Ready => "DeepSeek Harness · 运行中"@ + match version {
            Some(v) => " · DSH "@ + v,
            None => Seq::empty(),
        },
        RunState::Degraded => "DeepSeek Harness · 服务已退出，重启中"@,
        RunState::Error => "DeepSeek Harness · 错误"@,
        RunState::Idle => "DeepSeek Harness"@,
        RunState::Stopped => "DeepSeek Harness · 已停止"@,
    }
}

/// The tray tooltip for `state` (`version`: the recorded dsh version).
pub fn tooltip(state: RunState, version: Option<&str>) -> (r: String)
    ensures
        r@ == tooltip_text(
            state,
            match version {
                Some(v) => Some(v@),
                None => None,
            },
        ),
{
    match state {
        RunState::Starting => "DeepSeek Harness · 启动中".to_owned(),
        RunState::Ready => {
            let mut r = "DeepSeek Harness · 运行中".to_owned();
            match version {
                Some(v) => {
                    r.append(" · DSH ");
                    r.append(v);
                },
                None => {
                    proof { reveal_strlit("DeepSeek Harness · 运行中"); }
                    assert(r@ =~= "DeepSeek Harness · 运行中"@ + Seq::<char>::empty());
                },
            }
            r
        },
        RunState::Degraded => "DeepSeek Harness · 服务已退出，重启中".to_owned(),
        RunState::Error => "DeepSeek Harness · 错误".to_owned(),
        RunState::Idle => "DeepSeek Harness".to_owned(),
        RunState::Stopped => "DeepSeek Harness · 已停止".to_owned(),
    }
}

/// The menu line with the shell's own version.
pub fn shell_version_label(shell_version: &str) -> (r: String)
    ensures
        r@ == "DSH desktop v"@ + shell_version@,
{
    let mut r = "DSH desktop v".to_owned();
    r.append(shell_version);
    r
}

/// The menu line with the dsh runtime version (`None`: none recorded).
pub fn dsh_version_label(version: Option<&str>) -> (r: String)
    ensures
        r@ == (match version {
            Some(v) => "DSH 运行时 v"@ + v@,
            None => "DSH 运行时 未安装"@,
        }),
{
    match version {
        Some(v) => {
            let mut r = "DSH 运行时 v".to_owned();
            r.append(v);
            r
        },
        None => "DSH 运行时 未安装".to_owned(),
    }
}

/// What a tray menu item does.
#[derive(Clone, Copy, Debug, PartialEq, Eq, Structural)]
pub enum TrayCommand {
    /// Show and focus the window.
    Open,
    /// Restart `dsh web`.
    Restart,
    /// Pick and install a plugin tarball.
    InstallPlugin,
    /// Open the dsh log.
    OpenLogs,
    /// Shut down gracefully and quit.
    Quit,
}

/// The command of a menu item id; `None` for the disabled version lines.
pub open spec fn command_of(id: Seq<char>) -> Option<TrayCommand> {
    if id == "open"@ {
        Some(TrayCommand::Open)
    } else if id == "restart"@ {
        Some(TrayCommand::Restart)
    } else if id == "install-plugin"@ {
        Some(TrayCommand::InstallPlugin)
    } else if id == "logs"@ {
        Some(TrayCommand::OpenLogs)
    } else if id == "quit"@ {
        Some(TrayCommand::Quit)
    } else {
        None
    }
}

/// Routes a tray menu event.
pub fn tray_command(id: &str) -> (r: Option<TrayCommand>)
    ensures
        r == command_of(id@),
{
    if text::str_eq(id, "open") {
        Some(TrayCommand::Open)
    } else if text::str_eq(id, "restart") {
        Some(TrayCommand::Restart)
    } else if text::str_eq(id, "install-plugin") {
        Some(TrayCommand::InstallPlugin)
    } else if text::str_eq(id, "logs") {
        Some(TrayCommand::OpenLogs)
    } else if text::str_eq(id, "quit") {
        Some(TrayCommand::Quit)
    } else {
        None
    }
}

/// What closing the main window does.
#[derive(Clone, Copy, Debug, PartialEq, Eq, Structural)]
pub enum CloseAction {
    /// Keep running: hide the window to the tray.
    HideToTray,
    /// Shut `dsh web` down gracefully and quit.
    Quit,
}

/// The answer to a window close request: hide to the tray where the
/// configuration asks for it (`close_to_tray`), quit otherwise.
pub fn close_action(config: &crate::config::Config) -> (r: CloseAction)
    ensures
        r == (if config.close_to_tray { CloseAction::HideToTray } else { CloseAction::Quit }),
{
    if config.close_to_tray {
        CloseAction::HideToTray
    } else {
        CloseAction::Quit
    }
}

} // verus!
