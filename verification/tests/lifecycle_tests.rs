use dsh_desktop::lifecycle::{
    backoff_secs, kill_tree_args, orphan_cleanup_script, shutdown_accepted, shutdown_request, Action, Event,
    Boot, BootAction, BootInput, FailReason, Phase, Stage, Supervisor,
};
use dsh_desktop::dsh::Channel;

#[test]
fn backoff_sequence() {
    let secs: Vec<u64> = (0..8).map(backoff_secs).collect();
    assert_eq!(secs, vec![1, 2, 4, 8, 16, 32, 32, 32]);
    assert_eq!(backoff_secs(u32::MAX), 32);
}

#[test]
fn start_with_install() {
    let mut s = Supervisor::new(5, true);
    assert_eq!(s.start(true, false), Action::Install);
    assert_eq!(s.stage, Stage::Installing);
    let mut t = Supervisor::new(5, true);
    assert_eq!(t.start(false, false), Action::Spawn);
    assert_eq!(t.stage, Stage::Serving);
}

#[test]
fn start_during_shutdown_stops() {
    let mut s = Supervisor::new(5, true);
    assert_eq!(s.start(true, true), Action::Stop);
    assert!(s.done);
}

#[test]
fn install_retries_then_serves() {
    let mut s = Supervisor::new(5, true);
    s.start(true, false);
    assert_eq!(s.step(Event::InstallFinished { ok: false }, false), Action::Sleep { secs: 1, degraded: false });
    assert_eq!(s.step(Event::Slept, false), Action::Install);
    assert_eq!(s.step(Event::InstallFinished { ok: false }, false), Action::Sleep { secs: 2, degraded: false });
    assert_eq!(s.step(Event::Slept, false), Action::Install);
    assert_eq!(s.step(Event::InstallFinished { ok: true }, false), Action::Spawn);
    assert_eq!(s.attempt, 2);
    assert_eq!(s.stage, Stage::Serving);
}

#[test]
fn install_gives_up_after_max() {
    let mut s = Supervisor::new(2, true);
    s.start(true, false);
    assert!(matches!(s.step(Event::InstallFinished { ok: false }, false), Action::Sleep { .. }));
    s.step(Event::Slept, false);
    assert!(matches!(s.step(Event::InstallFinished { ok: false }, false), Action::Sleep { .. }));
    s.step(Event::Slept, false);
    assert_eq!(s.step(Event::InstallFinished { ok: false }, false), Action::Fail(FailReason::InstallFailed));
    assert!(s.done);
}

#[test]
fn ready_path_resets_attempts() {
    let mut s = Supervisor::new(5, true);
    s.start(false, false);
    assert_eq!(s.step(Event::SpawnFinished { ok: false }, false), Action::Sleep { secs: 1, degraded: false });
    assert_eq!(s.step(Event::Slept, false), Action::Spawn);
    assert_eq!(s.step(Event::SpawnFinished { ok: true }, false), Action::Probe);
    assert_eq!(s.step(Event::ProbeFinished { ready: false }, false), Action::Kill);
    assert_eq!(s.step(Event::Killed, false), Action::Sleep { secs: 2, degraded: false });
    assert_eq!(s.step(Event::Slept, false), Action::Spawn);
    assert_eq!(s.step(Event::SpawnFinished { ok: true }, false), Action::Probe);
    assert_eq!(s.step(Event::ProbeFinished { ready: true }, false), Action::Serve);
    assert_eq!(s.attempt, 0);
}

#[test]
fn exit_with_auto_restart_degrades_and_restarts() {
    let mut s = Supervisor::new(5, true);
    s.start(false, false);
    s.step(Event::SpawnFinished { ok: true }, false);
    s.step(Event::ProbeFinished { ready: true }, false);
    assert_eq!(s.step(Event::Exited, false), Action::Sleep { secs: 1, degraded: true });
    assert_eq!(s.step(Event::Slept, false), Action::Spawn);
}

#[test]
fn law_restart_budget_example() {
    // a server that crashes right after becoming ready is restarted
    // max_restarts times, then the supervision gives up
    let max = 3;
    let mut s = Supervisor::new(max, true);
    assert_eq!(s.start(false, false), Action::Spawn);
    let mut restarts = 0;
    loop {
        s.step(Event::SpawnFinished { ok: true }, false);
        assert_eq!(s.step(Event::ProbeFinished { ready: true }, false), Action::Serve);
        // exits immediately: readiness reset the count, so each crash is the first
        match s.step(Event::Exited, false) {
            Action::Sleep { secs, degraded } => {
                assert!(degraded);
                assert_eq!(secs, 1);
                restarts += 1;
                assert_eq!(s.step(Event::Slept, false), Action::Spawn);
            },
            other => panic!("unexpected {other:?}"),
        }
        if restarts == 10 {
            break;
        }
    }
    // without readiness in between, the exits count up to the limit
    let mut t = Supervisor::new(max, true);
    t.start(false, false);
    let mut delays = vec![];
    loop {
        match t.step(Event::Exited, false) {
            Action::Sleep { secs, .. } => {
                delays.push(secs);
                assert_eq!(t.step(Event::Slept, false), Action::Spawn);
            },
            Action::Fail(r) => {
                assert_eq!(r, FailReason::RestartLimit);
                break;
            },
            other => panic!("unexpected {other:?}"),
        }
    }
    assert_eq!(delays, vec![1, 2, 4]);
}

#[test]
fn exit_without_auto_restart() {
    let mut s = Supervisor::new(5, false);
    s.start(false, false);
    assert_eq!(s.step(Event::Exited, false), Action::TakeForceRestart);
    assert_eq!(s.step(Event::ForceRestartTaken { requested: true }, false), Action::Sleep { secs: 1, degraded: true });
    assert_eq!(s.step(Event::Slept, false), Action::Spawn);
    assert_eq!(s.step(Event::Exited, false), Action::TakeForceRestart);
    assert_eq!(s.step(Event::ForceRestartTaken { requested: false }, false), Action::Stop);
    assert!(s.done);
}

#[test]
fn law_shutdown_spawns_nothing_examples() {
    let events = [
        Event::InstallFinished { ok: true },
        Event::InstallFinished { ok: false },
        Event::Slept,
        Event::SpawnFinished { ok: true },
        Event::SpawnFinished { ok: false },
        Event::ProbeFinished { ready: true },
        Event::ProbeFinished { ready: false },
        Event::Killed,
        Event::Exited,
        Event::ForceRestartTaken { requested: true },
        Event::ForceRestartTaken { requested: false },
    ];
    for e in events {
        let mut s = Supervisor::new(5, true);
        let a = s.step(e, true);
        assert_ne!(a, Action::Install);
        assert_ne!(a, Action::Spawn);
    }
    let mut s = Supervisor::new(5, true);
    s.start(false, false);
    assert_eq!(s.step(Event::Exited, true), Action::Stop);
    let mut t = Supervisor::new(5, true);
    t.start(true, false);
    assert_eq!(t.step(Event::Slept, true), Action::Stop);
}

#[test]
fn zero_max_restarts_fails_first_time() {
    let mut s = Supervisor::new(0, true);
    s.start(false, false);
    assert_eq!(s.step(Event::SpawnFinished { ok: false }, false), Action::Fail(FailReason::SpawnFailed));
    let mut t = Supervisor::new(0, true);
    t.start(false, false);
    t.step(Event::ProbeFinished { ready: false }, false);
    assert_eq!(t.step(Event::Killed, false), Action::Fail(FailReason::NotReady));
}

#[test]
fn shutdown_request_text() {
    assert_eq!(
        shutdown_request(3080, "abc"),
        "POST /api/admin/shutdown HTTP/1.1\r\nHost: 127.0.0.1:3080\r\nAuthorization: Bearer abc\r\nContent-Length: 0\r\nConnection: close\r\n\r\n"
    );
}

#[test]
fn shutdown_acceptance() {
    let mut buf = [0u8; 512];
    let answer = b"HTTP/1.1 202 Accepted\r\n";
    buf[..answer.len()].copy_from_slice(answer);
    assert!(shutdown_accepted(&buf));
    assert!(!shutdown_accepted(b"HTTP/1.1 401 Unauthorized"));
    assert!(!shutdown_accepted(b"HTTP/1.1 20"));
    assert!(!shutdown_accepted(&[0u8; 512]));
}

#[test]
fn kill_args() {
    assert_eq!(kill_tree_args(4242), vec!["/PID", "4242", "/T", "/F"]);
    assert_eq!(kill_tree_args(0)[1], "0");
}

#[test]
fn orphan_script() {
    assert_eq!(
        orphan_cleanup_script("C:\\d\\npx-cache"),
        "Get-CimInstance Win32_Process -Filter \"Name='node.exe'\" | Where-Object { $_.CommandLine -match 'C:\\d\\npx-cache' -or $_.CommandLine -match '@deepseek-ai/dsh@' } | ForEach-Object { Stop-Process -Id $_.ProcessId -Force -ErrorAction SilentlyContinue }"
    );
}

#[test]
fn boot_waits_until_confirmed() {
    let mut b = Boot::new(Channel::Latest, 5, true);
    assert_eq!(b.step(BootInput::Woke { shutting_down: false }), BootAction::Wait);
    assert_eq!(b.step(BootInput::Begin { needs_install: true, shutting_down: false }), BootAction::Nothing);
    assert_eq!(b.step(BootInput::Outcome { event: Event::Slept, shutting_down: false }), BootAction::Nothing);
    assert_eq!(b.step(BootInput::Confirm(Channel::Preview)), BootAction::Persist(Channel::Preview));
    assert_eq!(b.step(BootInput::Confirm(Channel::Latest)), BootAction::Nothing);
    assert_eq!(b.step(BootInput::Woke { shutting_down: false }), BootAction::Proceed(Channel::Preview));
    assert_eq!(b.phase, Phase::Deciding);
    assert_eq!(b.step(BootInput::Begin { needs_install: true, shutting_down: false }), BootAction::Run(Action::Install));
    assert_eq!(b.phase, Phase::Running);
    assert_eq!(
        b.step(BootInput::Outcome { event: Event::InstallFinished { ok: true }, shutting_down: false }),
        BootAction::Run(Action::Spawn)
    );
}

#[test]
fn boot_shutdown_before_confirmation_exits() {
    let mut b = Boot::new(Channel::Latest, 5, true);
    assert_eq!(b.step(BootInput::Woke { shutting_down: true }), BootAction::Exit);
    assert_eq!(b.phase, Phase::Ended);
    assert_eq!(b.step(BootInput::Confirm(Channel::Preview)), BootAction::Persist(Channel::Preview));
    assert_eq!(b.step(BootInput::Woke { shutting_down: false }), BootAction::Nothing);
    assert_eq!(b.step(BootInput::Begin { needs_install: false, shutting_down: false }), BootAction::Nothing);
}

#[test]
fn boot_stop_ends_the_run() {
    let mut b = Boot::new(Channel::Latest, 5, true);
    b.step(BootInput::Confirm(Channel::Latest));
    b.step(BootInput::Woke { shutting_down: false });
    assert_eq!(b.step(BootInput::Begin { needs_install: false, shutting_down: true }), BootAction::Run(Action::Stop));
    assert_eq!(b.phase, Phase::Ended);
    assert_eq!(b.step(BootInput::Outcome { event: Event::Slept, shutting_down: false }), BootAction::Nothing);
}
