use dsh_desktop::commands::ChannelGate;
use dsh_desktop::dsh::Channel;
use dsh_desktop::health::{poll_step, PollStep, READY_POLL_INTERVAL_MS};
use dsh_desktop::config::{without_bom, Config};
use dsh_desktop::tray::{close_action, CloseAction};
use dsh_desktop::process_supervisor::{port_from_capture, port_from_line, server_url, PortError};
use dsh_desktop::status::{BootProgress, RunState, StatusSnapshot, PROGRESS_MAX_LINES};
use dsh_desktop::text::decimal_string;
use dsh_desktop::tray::{dsh_version_label, shell_version_label, state_color, status_icon, tooltip, tray_command, TrayCommand};

#[test]
fn url_line_ports() {
    assert_eq!(port_from_line("dsh web: http://127.0.0.1:3080"), Some(Ok(3080)));
    assert_eq!(port_from_line("[boot] dsh web:  \thttp://127.0.0.1:80/ ready"), Some(Ok(80)));
    assert_eq!(port_from_line("dsh web: http://127.0.0.1:99999"), Some(Err(PortError::BadPort)));
}

#[test]
fn url_line_non_matching() {
    assert_eq!(port_from_line("starting dsh..."), None);
    assert_eq!(port_from_line("dsh web:http://127.0.0.1:80"), None);
    assert_eq!(port_from_line("dsh web: http://localhost:80"), None);
    assert_eq!(port_from_line("dsh web: http://127.0.0.1:"), None);
}

#[test]
fn captured_port_text() {
    assert_eq!(port_from_capture(None), None);
    assert_eq!(port_from_capture(Some("65535")), Some(Ok(65535)));
    assert_eq!(port_from_capture(Some("65536")), Some(Err(PortError::BadPort)));
    assert_eq!(port_from_capture(Some("0080")), Some(Ok(80)));
}

#[test]
fn url_of_port() {
    assert_eq!(server_url(3080), "http://127.0.0.1:3080");
    assert_eq!(server_url(0), "http://127.0.0.1:0");
}

#[test]
fn decimal_text() {
    assert_eq!(decimal_string(0), "0");
    assert_eq!(decimal_string(10), "10");
    assert_eq!(decimal_string(u64::MAX), u64::MAX.to_string());
}

#[test]
fn config_text_without_bom() {
    assert_eq!(without_bom("\u{feff}{\"port\":1}"), "{\"port\":1}");
    assert_eq!(without_bom("\u{feff}\u{feff}x\u{feff}"), "x\u{feff}");
    assert_eq!(without_bom("{}"), "{}");
}

#[test]
fn poll_decisions() {
    assert_eq!(READY_POLL_INTERVAL_MS, 300);
    assert_eq!(poll_step(true, 100, 50), PollStep::Ready);
    assert_eq!(poll_step(false, 50, 50), PollStep::TimedOut);
    assert_eq!(poll_step(false, 49, 50), PollStep::Retry);
}

#[test]
fn channel_confirmed_once() {
    let mut g = ChannelGate::new(Channel::Latest);
    assert!(!g.confirmed);
    assert!(g.confirm(Channel::Preview));
    assert_eq!(g.channel, Channel::Preview);
    assert!(!g.confirm(Channel::Latest));
    assert_eq!(g.channel, Channel::Preview);
    assert!(g.confirmed);
}

#[test]
fn status_snapshot_updates() {
    let mut s = StatusSnapshot::default();
    assert_eq!(s.state, RunState::Idle);
    s.mark_ready(3080, "http://127.0.0.1:3080".to_string(), Some(42));
    assert_eq!(s.state, RunState::Ready);
    assert_eq!(s.port, Some(3080));
    assert_eq!(s.pid, Some(42));
    assert_eq!(s.message.as_deref(), Some("运行中 · 端口 3080"));
    s.set_status(RunState::Degraded, Some("服务已退出，正在重启…".to_string()));
    assert_eq!(s.state, RunState::Degraded);
    assert_eq!(s.port, Some(3080));
    assert_eq!(s.url.as_deref(), Some("http://127.0.0.1:3080"));
}

#[test]
fn progress_keeps_latest_lines() {
    let mut p = BootProgress::default();
    p.set_progress("installing-dsh", "首次运行：安装 DSH 0.1.0-rc.7…".to_string());
    for i in 0..250 {
        p.push_progress_line(format!("line {i}"));
        assert!(p.lines.len() <= PROGRESS_MAX_LINES);
    }
    assert_eq!(p.lines.len(), 200);
    assert_eq!(p.lines[0], "line 50");
    assert_eq!(p.lines[199], "line 249");
    assert_eq!(p.phase, "installing-dsh");
}

#[test]
fn progress_below_limit_appends() {
    let mut p = BootProgress::default();
    p.push_progress_line("a".to_string());
    p.push_progress_line("b".to_string());
    assert_eq!(p.lines, vec!["a", "b"]);
}

#[test]
fn tray_colors() {
    assert_eq!(state_color(RunState::Starting), [0xF0, 0xB4, 0x2E]);
    assert_eq!(state_color(RunState::Ready), [0x3F, 0xB9, 0x50]);
    assert_eq!(state_color(RunState::Degraded), [0xF0, 0x8C, 0x3C]);
    assert_eq!(state_color(RunState::Error), [0xE5, 0x4B, 0x3F]);
    assert_eq!(state_color(RunState::Idle), [0x8B, 0x94, 0x9E]);
    assert_eq!(state_color(RunState::Stopped), [0x8B, 0x94, 0x9E]);
}

#[test]
fn tray_icon_matches_float_circle() {
    let color = [1u8, 2, 3];
    let px = status_icon(color);
    assert_eq!(px.len(), 32 * 32 * 4);
    let c = (32f32 - 1.0) / 2.0;
    let r = 32f32 / 2.0 - 1.0;
    for y in 0..32u32 {
        for x in 0..32u32 {
            let dx = x as f32 - c;
            let dy = y as f32 - c;
            let i = ((y * 32 + x) * 4) as usize;
            if dx * dx + dy * dy <= r * r {
                assert_eq!(&px[i..i + 4], &[1, 2, 3, 255]);
            } else {
                assert_eq!(&px[i..i + 4], &[0, 0, 0, 0]);
            }
        }
    }
}

#[test]
fn tray_tooltips() {
    assert_eq!(tooltip(RunState::Ready, Some("0.1.0-rc.7")), "DeepSeek Harness · 运行中 · DSH 0.1.0-rc.7");
    assert_eq!(tooltip(RunState::Ready, None), "DeepSeek Harness · 运行中");
    assert_eq!(tooltip(RunState::Starting, None), "DeepSeek Harness · 启动中");
    assert_eq!(tooltip(RunState::Degraded, None), "DeepSeek Harness · 服务已退出，重启中");
    assert_eq!(tooltip(RunState::Error, None), "DeepSeek Harness · 错误");
    assert_eq!(tooltip(RunState::Idle, Some("1")), "DeepSeek Harness");
    assert_eq!(tooltip(RunState::Stopped, None), "DeepSeek Harness · 已停止");
}

#[test]
fn tray_menu_labels() {
    assert_eq!(shell_version_label("0.3.1"), "DSH desktop v0.3.1");
    assert_eq!(dsh_version_label(Some("0.1.0-rc.7")), "DSH 运行时 v0.1.0-rc.7");
    assert_eq!(dsh_version_label(None), "DSH 运行时 未安装");
}

#[test]
fn tray_commands() {
    assert_eq!(tray_command("open"), Some(TrayCommand::Open));
    assert_eq!(tray_command("restart"), Some(TrayCommand::Restart));
    assert_eq!(tray_command("install-plugin"), Some(TrayCommand::InstallPlugin));
    assert_eq!(tray_command("logs"), Some(TrayCommand::OpenLogs));
    assert_eq!(tray_command("quit"), Some(TrayCommand::Quit));
    assert_eq!(tray_command("shell-version"), None);
}

#[test]
fn close_follows_close_to_tray() {
    let mut c = Config::default();
    assert_eq!(close_action(&c), CloseAction::HideToTray);
    c.close_to_tray = false;
    assert_eq!(close_action(&c), CloseAction::Quit);
}

#[test]
fn gate_releases_only_after_confirmation() {
    let mut g = ChannelGate::new(Channel::Latest);
    assert_eq!(g.released(), None);
    assert!(g.confirm(Channel::Preview));
    assert_eq!(g.released(), Some(Channel::Preview));
    assert!(!g.confirm(Channel::Latest));
    assert_eq!(g.released(), Some(Channel::Preview));
}
