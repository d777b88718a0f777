//! The supervision of the `dsh web` child: when to install, spawn, probe,
//! wait, retry with backoff, stop or give up. The shell performs each
//! action and reports its outcome as an event; `Supervisor::step` decides
//! what comes next.
//!
//! Policy: consecutive failures (install, spawn, readiness, exits) are
//! retried with exponential backoff of 1, 2, 4, 8, 16 and then 32 seconds;
//! the failure after `max_restarts` retries gives up (Error). A server that
//! becomes ready resets the count. Once shutdown is requested nothing new
//! is installed or spawned.

use vstd::prelude::*;
use crate::commands::{confirmed_gate, released_channel, ChannelGate};
use crate::dsh::Channel;

verus! {

/// Delay before retry number `n + 1` in seconds: 1, 2, 4, 8, 16, then 32.
pub open spec fn backoff_delay(n: nat) -> u64 {
    if n == 0 {
        1
    } else if n == 1 {
        2
    } else if n == 2 {
        4
    } else if n == 3 {
        8
    } else if n == 4 {
        16
    } else {
        32
    }
}

/// `1 << min(attempt, 5)` seconds.
pub fn backoff_secs(attempt: u32) -> (r: u64)
    ensures
        r == backoff_delay(attempt as nat),
{
    if attempt == 0 {
        1
    } else if attempt == 1 {
        2
    } else if attempt == 2 {
        4
    } else if attempt == 3 {
        8
    } else if attempt == 4 {
        16
    } else {
        32
    }
}

/// Which loop of the supervision is running.
#[derive(Clone, Copy, Debug, PartialEq, Eq, Structural)]
pub enum Stage {
    /// Installing the chosen version into the npx cache.
    Installing,
    /// Spawning `dsh web` and keeping it alive.
    Serving,
}

/// Why the supervision gave up.
#[derive(Clone, Copy, Debug, PartialEq, Eq, Structural)]
pub enum FailReason {
    /// The install probe kept failing.
    InstallFailed,
    /// `dsh web` kept failing to start.
    SpawnFailed,
    /// `dsh web` kept binding its port without passing the health probe.
    NotReady,
    /// `dsh web` kept exiting.
    RestartLimit,
}

/// The outcome of the last action.
#[derive(Clone, Copy, Debug, PartialEq, Eq, Structural)]
pub enum Event {
    /// The install probe ended (`ok`: exit status success).
    InstallFinished { ok: bool },
    /// The backoff delay passed.
    Slept,
    /// Spawning `dsh web` and reading its URL line ended.
    SpawnFinished { ok: bool },
    /// The health probe ended (`ready`: the port accepted a connection).
    ProbeFinished { ready: bool },
    /// The child that never became ready was killed.
    Killed,
    /// The served child exited.
    Exited,
    /// The restart request was read and cleared.
    ForceRestartTaken { requested: bool },
}

/// What the shell does next.
#[derive(Clone, Copy, Debug, PartialEq, Eq, Structural)]
pub enum Action {
    /// Run the install probe for the session's version.
    Install,
    /// Mark the status Starting and spawn `dsh web`.
    Spawn,
    /// Wait for the port to accept connections.
    Probe,
    /// Kill the child's process tree.
    Kill,
    /// Record the version, show the server, mark it Ready and wait for the
    /// child to exit.
    Serve,
    /// Read and clear the restart request of the tray / IPC.
    TakeForceRestart,
    /// Wait `secs` seconds (after an exit, with the status Degraded).
    Sleep { secs: u64, degraded: bool },
    /// Mark the status Stopped and end the supervision.
    Stop,
    /// End the supervision with an error.
    Fail(FailReason),
}

/// The state of the supervision.
#[derive(Clone, Copy, Debug, PartialEq, Eq, Structural)]
pub struct Supervisor {
    pub stage: Stage,
    /// Consecutive failures so far.
    pub attempt: u32,
    pub max_restarts: u32,
    pub auto_restart: bool,
    /// The supervision has ended (Stop or Fail).
    pub done: bool,
}

impl Supervisor {
    /// The count of consecutive failures never passes `max_restarts`.
    pub open spec fn wf(self) -> bool {
        self.attempt <= self.max_restarts
    }
}

/// The entry of the loop of `stage`: stop where shutdown is requested,
/// else install or spawn.
pub open spec fn loop_entry(s: Supervisor, stage: Stage, shutting_down: bool) -> (Supervisor, Action) {
    if shutting_down {
        (Supervisor { stage, done: true, ..s }, Action::Stop)
    } else {
        (Supervisor { stage, ..s }, match stage {
            Stage::Installing => Action::Install,
            Stage::Serving => Action::Spawn,
        })
    }
}

/// Another consecutive failure: give up with `reason` after `max_restarts`
/// retries, else count it and wait the backoff delay.
pub open spec fn retry(s: Supervisor, reason: FailReason, degraded: bool) -> (Supervisor, Action) {
    if s.attempt >= s.max_restarts {
        (Supervisor { done: true, ..s }, Action::Fail(reason))
    } else {
        (
            Supervisor { attempt: (s.attempt + 1) as u32, ..s },
            Action::Sleep { secs: backoff_delay(s.attempt as nat), degraded },
        )
    }
}

/// The first action: the install loop where a version must be installed,
/// else the serve loop.
pub open spec fn start_spec(s: Supervisor, needs_install: bool, shutting_down: bool) -> (Supervisor, Action) {
    loop_entry(s, if needs_install { Stage::Installing } else { Stage::Serving }, shutting_down)
}

/// The decision after `event`, with `shutting_down` the state of the
/// shutdown request.
pub open spec fn transition(s: Supervisor, event: Event, shutting_down: bool) -> (Supervisor, Action) {
    match event {
        Event::InstallFinished { ok } => if ok {
            loop_entry(s, Stage::Serving, shutting_down)
        } else {
            retry(s, FailReason::InstallFailed, false)
        },
        Event::Slept => loop_entry(s, s.stage, shutting_down),
        Event::SpawnFinished { ok } => if ok {
            (s, Action::Probe)
        } else {
            retry(s, FailReason::SpawnFailed, false)
        },
        Event::ProbeFinished { ready } => if ready {
            (Supervisor { attempt: 0, ..s }, Action::Serve)
        } else {
            (s, Action::Kill)
        },
        Event::Killed => retry(s, FailReason::NotReady, false),
        Event::Exited => if shutting_down {
            (Supervisor { done: true, ..s }, Action::Stop)
        } else if s.auto_restart {
            retry(s, FailReason::RestartLimit, true)
        } else {
            (s, Action::TakeForceRestart)
        },
        Event::ForceRestartTaken { requested } => if requested {
            retry(s, FailReason::RestartLimit, true)
        } else {
            (Supervisor { done: true, ..s }, Action::Stop)
        },
    }
}

impl Supervisor {
    /// A supervision with no failures yet.
    pub fn new(max_restarts: u32, auto_restart: bool) -> (r: Supervisor)
        ensures
            r.wf(),
            r.attempt == 0,
            r.max_restarts == max_restarts,
            r.auto_restart == auto_restart,
            !r.done,
            r.stage == Stage::Serving,
    {
        Supervisor { stage: Stage::Serving, attempt: 0, max_restarts, auto_restart, done: false }
    }

    fn enter(&mut self, stage: Stage, shutting_down: bool) -> (r: Action)
        ensures
            (*final(self), r) == loop_entry(*old(self), stage, shutting_down),
    {
        self.stage = stage;
        if shutting_down {
            self.done = true;
            Action::Stop
        } else {
            match stage {
                Stage::Installing => Action::Install,
                Stage::Serving => Action::Spawn,
            }
        }
    }

    fn fail_or_retry(&mut self, reason: FailReason, degraded: bool) -> (r: Action)
        ensures
            (*final(self), r) == retry(*old(self), reason, degraded),
    {
        if self.attempt >= self.max_restarts {
            self.done = true;
            Action::Fail(reason)
        } else {
            let secs = backoff_secs(self.attempt);
            self.attempt = self.attempt + 1;
            Action::Sleep { secs, degraded }
        }
    }

    /// The first action of the supervision.
    pub fn start(&mut self, needs_install: bool, shutting_down: bool) -> (r: Action)
        ensures
            (*final(self), r) == start_spec(*old(self), needs_install, shutting_down),
    {
        let stage = if needs_install { Stage::Installing } else { Stage::Serving };
        self.enter(stage, shutting_down)
    }

    /// The next action after `event`.
    pub fn step(&mut self, event: Event, shutting_down: bool) -> (r: Action)
        ensures
            (*final(self), r) == transition(*old(self), event, shutting_down),
    {
        match event {
            Event::InstallFinished { ok } => {
                if ok {
                    self.enter(Stage::Serving, shutting_down)
                } else {
                    self.fail_or_retry(FailReason::InstallFailed, false)
                }
            },
            Event::Slept => {
                let stage = self.stage;
                self.enter(stage, shutting_down)
            },
            Event::SpawnFinished { ok } => {
                if ok {
                    Action::Probe
                } else {
                    self.fail_or_retry(FailReason::SpawnFailed, false)
                }
            },
            Event::ProbeFinished { ready } => {
                if ready {
                    self.attempt = 0;
                    Action::Serve
                } else {
                    Action::Kill
                }
            },
            Event::Killed => self.fail_or_retry(FailReason::NotReady, false),
            Event::Exited => {
                if shutting_down {
                    self.done = true;
                    Action::Stop
                } else if self.auto_restart {
                    self.fail_or_retry(FailReason::RestartLimit, true)
                } else {
                    Action::TakeForceRestart
                }
            },
            Event::ForceRestartTaken { requested } => {
                if requested {
                    self.fail_or_retry(FailReason::RestartLimit, true)
                } else {
                    self.done = true;
                    Action::Stop
                }
            },
        }
    }
}

// ---------------------------------------------------------------------------
// The whole run: waiting for the channel, then supervising
// ---------------------------------------------------------------------------

/// Where the run stands.
#[derive(Clone, Copy, Debug, PartialEq, Eq, Structural)]
pub enum Phase {
    /// Waiting for the user to confirm the update channel.
    AwaitingChannel,
    /// The channel is confirmed; the version to run is being chosen.
    Deciding,
    /// The supervision is running.
    Running,
    /// The run is over.
    Ended,
}

/// What happened.
#[derive(Clone, Copy, Debug, PartialEq, Eq, Structural)]
pub enum BootInput {
    /// The picker confirmed `channel` (IPC).
    Confirm(Channel),
    /// The wait for the confirmation woke up; `shutting_down`: shutdown has
    /// been requested.
    Woke { shutting_down: bool },
    /// The version to run was chosen; `needs_install`: it must be installed
    /// first.
    Begin { needs_install: bool, shutting_down: bool },
    /// The outcome of the last supervision action.
    Outcome { event: Event, shutting_down: bool },
}

/// What the shell does next.
#[derive(Clone, Copy, Debug, PartialEq, Eq, Structural)]
pub enum BootAction {
    /// Persist `channel`, just confirmed for the first time, and wake the
    /// wait.
    Persist(Channel),
    /// Nothing (a repeated confirmation, or an input out of turn).
    Nothing,
    /// Keep waiting for the confirmation.
    Wait,
    /// Go on with `channel`: choose the version to run.
    Proceed(Channel),
    /// Shutdown came before the confirmation: end the run having started
    /// nothing.
    Exit,
    /// A supervision action.
    Run(Action),
}

/// The run: its phase, the channel picker and the supervision.
#[derive(Clone, Copy, Debug, PartialEq, Eq, Structural)]
pub struct Boot {
    pub phase: Phase,
    pub gate: ChannelGate,
    pub sup: Supervisor,
}

/// The phase after a supervision step: over once the supervision is done.
pub open spec fn running_or_ended(s: Supervisor) -> Phase {
    if s.done { Phase::Ended } else { Phase::Running }
}

/// The decision after `input`.
pub open spec fn boot_transition(b: Boot, input: BootInput) -> (Boot, BootAction) {
    match input {
        BootInput::Confirm(c) => if b.gate.confirmed {
            (b, BootAction::Nothing)
        } else {
            (Boot { gate: confirmed_gate(b.gate, c), ..b }, BootAction::Persist(c))
        },
        BootInput::Woke { shutting_down } => if b.phase != Phase::AwaitingChannel {
            (b, BootAction::Nothing)
        } else {
            match released_channel(b.gate) {
                Some(c) => (Boot { phase: Phase::Deciding, ..b }, BootAction::Proceed(c)),
                None => if shutting_down {
                    (Boot { phase: Phase::Ended, ..b }, BootAction::Exit)
                } else {
                    (b, BootAction::Wait)
                },
            }
        },
        BootInput::Begin { needs_install, shutting_down } => if b.phase != Phase::Deciding {
            (b, BootAction::Nothing)
        } else {
            let (s, a) = start_spec(b.sup, needs_install, shutting_down);
            (Boot { phase: running_or_ended(s), sup: s, ..b }, BootAction::Run(a))
        },
        BootInput::Outcome { event, shutting_down } => if b.phase != Phase::Running {
            (b, BootAction::Nothing)
        } else {
            let (s, a) = transition(b.sup, event, shutting_down);
            (Boot { phase: running_or_ended(s), sup: s, ..b }, BootAction::Run(a))
        },
    }
}

/// The actions of a run over `inputs`, one per input.
pub open spec fn boot_run(b: Boot, inputs: Seq<BootInput>) -> Seq<BootAction>
    decreases inputs.len(),
{
    if inputs.len() == 0 {
        Seq::empty()
    } else {
        let (b2, a) = boot_transition(b, inputs[0]);
        seq![a] + boot_run(b2, inputs.drop_first())
    }
}

/// An action that starts nothing: no version choice, no install probe, no
/// spawn of `dsh web`, no record of the version run.
pub open spec fn starts_nothing(a: BootAction) -> bool {
    !(a is Run) && !(a is Proceed)
}

impl Boot {
    /// The run at startup: waiting for the channel, the picker preset to
    /// the persisted channel.
    pub fn new(persisted: Channel, max_restarts: u32, auto_restart: bool) -> (r: Boot)
        ensures
            r.phase == Phase::AwaitingChannel,
            r.gate == (ChannelGate { channel: persisted, confirmed: false }),
            r.sup.wf(),
            r.sup.attempt == 0,
            r.sup.max_restarts == max_restarts,
            r.sup.auto_restart == auto_restart,
            !r.sup.done,
    {
        Boot {
            phase: Phase::AwaitingChannel,
            gate: ChannelGate::new(persisted),
            sup: Supervisor::new(max_restarts, auto_restart),
        }
    }

    /// The next action after `input`.
    pub fn step(&mut self, input: BootInput) -> (r: BootAction)
        ensures
            (*final(self), r) == boot_transition(*old(self), input),
    {
        match input {
            BootInput::Confirm(c) => {
                if self.gate.confirmed {
                    BootAction::Nothing
                } else {
                    self.gate.confirm(c);
                    BootAction::Persist(c)
                }
            },
            BootInput::Woke { shutting_down } => {
                if self.phase != Phase::AwaitingChannel {
                    return BootAction::Nothing;
                }
                match self.gate.released() {
                    Some(c) => {
                        self.phase = Phase::Deciding;
                        BootAction::Proceed(c)
                    },
                    None => {
                        if shutting_down {
                            self.phase = Phase::Ended;
                            BootAction::Exit
                        } else {
                            BootAction::Wait
                        }
                    },
                }
            },
            BootInput::Begin { needs_install, shutting_down } => {
                if self.phase != Phase::Deciding {
                    return BootAction::Nothing;
                }
                let a = self.sup.start(needs_install, shutting_down);
                self.phase = if self.sup.done { Phase::Ended } else { Phase::Running };
                BootAction::Run(a)
            },
            BootInput::Outcome { event, shutting_down } => {
                if self.phase != Phase::Running {
                    return BootAction::Nothing;
                }
                let a = self.sup.step(event, shutting_down);
                self.phase = if self.sup.done { Phase::Ended } else { Phase::Running };
                BootAction::Run(a)
            },
        }
    }
}

proof fn lemma_ended_run(b: Boot, inputs: Seq<BootInput>)
    requires
        b.phase == Phase::Ended,
    ensures
        boot_run(b, inputs).len() == inputs.len(),
        forall|k: int| 0 <= k < inputs.len() ==> starts_nothing(#[trigger] boot_run(b, inputs)[k]),
    decreases inputs.len(),
{
    if inputs.len() > 0 {
        let (b2, a) = boot_transition(b, inputs[0]);
        lemma_ended_run(b2, inputs.drop_first());
        let r = boot_run(b, inputs);
        assert(r == seq![a] + boot_run(b2, inputs.drop_first()));
        assert forall|k: int| 0 <= k < inputs.len() implies starts_nothing(#[trigger] r[k]) by {
            if k > 0 {
                assert(r[k] == boot_run(b2, inputs.drop_first())[k - 1]);
            }
        }
    }
}

proof fn lemma_unconfirmed_run(b: Boot, inputs: Seq<BootInput>)
    requires
        !b.gate.confirmed,
        b.phase == Phase::AwaitingChannel || b.phase == Phase::Ended,
        forall|k: int| 0 <= k < inputs.len() ==> !(#[trigger] inputs[k] is Confirm),
    ensures
        boot_run(b, inputs).len() == inputs.len(),
        forall|k: int| 0 <= k < inputs.len() ==> starts_nothing(#[trigger] boot_run(b, inputs)[k]),
    decreases inputs.len(),
{
    if inputs.len() > 0 {
        let (b2, a) = boot_transition(b, inputs[0]);
        let rest = inputs.drop_first();
        assert(!(inputs[0] is Confirm));
        assert forall|k: int| 0 <= k < rest.len() implies !(#[trigger] rest[k] is Confirm) by {
            assert(rest[k] == inputs[k + 1]);
        }
        lemma_unconfirmed_run(b2, rest);
        let r = boot_run(b, inputs);
        assert(r == seq![a] + boot_run(b2, rest));
        assert forall|k: int| 0 <= k < inputs.len() implies starts_nothing(#[trigger] r[k]) by {
            if k > 0 {
                assert(r[k] == boot_run(b2, rest)[k - 1]);
            }
        }
    }
}

/// Nothing starts before the channel is confirmed: from the startup state,
/// as long as no confirmation comes, no step chooses a version, installs,
/// spawns `dsh web` or records the version run (every action is `Wait`,
/// `Exit` or `Nothing`).
pub proof fn law_nothing_starts_before_confirm(
    persisted: Channel,
    sup: Supervisor,
    inputs: Seq<BootInput>,
)
    requires
        forall|k: int| 0 <= k < inputs.len() ==> !(#[trigger] inputs[k] is Confirm),
    ensures
        ({
            let b = Boot {
                phase: Phase::AwaitingChannel,
                gate: ChannelGate { channel: persisted, confirmed: false },
                sup,
            };
            &&& boot_run(b, inputs).len() == inputs.len()
            &&& forall|k: int| 0 <= k < inputs.len() ==> starts_nothing(#[trigger] boot_run(b, inputs)[k])
        }),
{
    let b = Boot { phase: Phase::AwaitingChannel, gate: ChannelGate { channel: persisted, confirmed: false }, sup };
    lemma_unconfirmed_run(b, inputs);
}

/// A shutdown seen before the confirmation ends the run having started
/// nothing, and nothing starts after it, whatever comes (a late
/// confirmation only persists the channel).
pub proof fn law_shutdown_before_confirm(b: Boot, later: Seq<BootInput>)
    requires
        b.phase == Phase::AwaitingChannel,
        !b.gate.confirmed,
    ensures
        boot_transition(b, BootInput::Woke { shutting_down: true }) == (Boot { phase: Phase::Ended, ..b }, BootAction::Exit),
        forall|k: int| 0 <= k < later.len() ==> starts_nothing(
            #[trigger] boot_run(Boot { phase: Phase::Ended, ..b }, later)[k],
        ),
{
    lemma_ended_run(Boot { phase: Phase::Ended, ..b }, later);
}

/// After the first confirmation the wait proceeds with the confirmed
/// channel, and a later confirmation changes nothing.
pub proof fn law_proceed_after_confirm(b: Boot, first: Channel, second: Channel, shutting_down: bool)
    requires
        b.phase == Phase::AwaitingChannel,
        !b.gate.confirmed,
    ensures
        ({
            let (b1, a1) = boot_transition(b, BootInput::Confirm(first));
            let (b2, a2) = boot_transition(b1, BootInput::Confirm(second));
            let (b3, a3) = boot_transition(b2, BootInput::Woke { shutting_down });
            &&& a1 == BootAction::Persist(first)
            &&& a2 == BootAction::Nothing
            &&& a3 == BootAction::Proceed(first)
            &&& b3.phase == Phase::Deciding
        }),
{
}

// ---------------------------------------------------------------------------
// Laws
// ---------------------------------------------------------------------------

/// Every step keeps the count of consecutive failures within
/// `max_restarts`, and the restart settings never change.
pub proof fn law_step_keeps_wf(s: Supervisor, event: Event, shutting_down: bool)
    requires
        s.wf(),
    ensures
        transition(s, event, shutting_down).0.wf(),
        transition(s, event, shutting_down).0.max_restarts == s.max_restarts,
        transition(s, event, shutting_down).0.auto_restart == s.auto_restart,
{
}

/// Once shutdown is requested, no step installs or spawns anything.
pub proof fn law_shutdown_spawns_nothing(s: Supervisor, event: Event)
    ensures
        transition(s, event, true).1 != Action::Install,
        transition(s, event, true).1 != Action::Spawn,
{
}

/// Every backoff delay is 1, 2, 4, 8, 16 or 32 seconds: the delay before
/// the retry that brings the count to `k` is `2^min(k - 1, 5)` seconds.
pub proof fn law_backoff_bounded(s: Supervisor, event: Event, shutting_down: bool)
    ensures
        transition(s, event, shutting_down).1 matches Action::Sleep { secs, .. } ==> {
            &&& 1 <= secs <= 32
            &&& transition(s, event, shutting_down).0.attempt == s.attempt + 1
            &&& secs == backoff_delay(s.attempt as nat)
        },
{
}

/// A server that becomes ready resets the failure count.
pub proof fn law_ready_resets(s: Supervisor, shutting_down: bool)
    ensures
        transition(s, Event::ProbeFinished { ready: true }, shutting_down) == (
            Supervisor { attempt: 0, ..s },
            Action::Serve,
        ),
{
}

/// The supervision gives up only on the failure that follows
/// `max_restarts` retries.
pub proof fn law_fail_only_at_limit(s: Supervisor, event: Event, shutting_down: bool)
    requires
        s.wf(),
    ensures
        transition(s, event, shutting_down).1 is Fail ==> s.attempt == s.max_restarts,
{
}

/// Without auto-restart and without a restart request, an exit stops the
/// supervision (status Stopped).
pub proof fn law_no_restart_stops(s: Supervisor, shutting_down: bool)
    requires
        !s.auto_restart,
    ensures
        transition(s, Event::Exited, shutting_down).1 == (if shutting_down {
            Action::Stop
        } else {
            Action::TakeForceRestart
        }),
        transition(s, Event::ForceRestartTaken { requested: false }, shutting_down).1 == Action::Stop,
{
}

/// The state after `k` consecutive exits of a server that keeps crashing
/// (each exit followed by its backoff delay), with auto-restart on.
pub open spec fn after_crashes(s: Supervisor, k: nat) -> Supervisor
    decreases k,
{
    if k == 0 {
        s
    } else {
        let t = after_crashes(s, (k - 1) as nat);
        transition(transition(t, Event::Exited, false).0, Event::Slept, false).0
    }
}

/// With auto-restart on, a server that keeps exiting right after it
/// became ready is restarted exactly `max_restarts` times: each of the
/// first `max_restarts` exits leads to a backoff and a new spawn, the next
/// one gives up.
pub proof fn law_restart_budget(s: Supervisor, k: nat)
    requires
        s.wf(),
        s.auto_restart,
        s.attempt == 0,
        s.stage == Stage::Serving,
    ensures
        k <= s.max_restarts ==> after_crashes(s, k).attempt == k && after_crashes(s, k).stage == Stage::Serving
            && after_crashes(s, k).max_restarts == s.max_restarts && after_crashes(s, k).auto_restart,
        k < s.max_restarts ==> transition(after_crashes(s, k), Event::Exited, false).1 is Sleep
            && transition(transition(after_crashes(s, k), Event::Exited, false).0, Event::Slept, false).1
            == Action::Spawn,
        k == s.max_restarts ==> transition(after_crashes(s, k), Event::Exited, false).1 == Action::Fail(
            FailReason::RestartLimit,
        ),
    decreases k,
{
    if k > 0 {
        law_restart_budget(s, (k - 1) as nat);
    }
}

// ---------------------------------------------------------------------------
// Talking to the child
// ---------------------------------------------------------------------------

/// The request that asks `dsh web` to shut down gracefully
/// (`POST /api/admin/shutdown` with the per-process bearer token).
pub open spec fn shutdown_request_text(port: u16, token: Seq<char>) -> Seq<char> {
    "POST /api/admin/shutdown HTTP/1.1\r\nHost: 127.0.0.1:"@ + crate::text::decimal(port as nat)
        + "\r\nAuthorization: Bearer "@ + token + "\r\nContent-Length: 0\r\nConnection: close\r\n\r\n"@
}

/// Builds the graceful-shutdown request.
pub fn shutdown_request(port: u16, token: &str) -> (r: String)
    ensures
        r@ == shutdown_request_text(port, token@),
{
    let mut r = "POST /api/admin/shutdown HTTP/1.1\r\nHost: 127.0.0.1:".to_owned();
    let p = crate::text::decimal_string(port as u64);
    r.append(p.as_str());
    r.append("\r\nAuthorization: Bearer ");
    r.append(token);
    r.append("\r\nContent-Length: 0\r\nConnection: close\r\n\r\n");
    r
}

/// The status line that accepts the shutdown.
pub open spec fn accepted_prefix() -> Seq<u8> {
    seq![72u8, 84u8, 84u8, 80u8, 47u8, 49u8, 46u8, 49u8, 32u8, 50u8, 48u8, 50u8]
}

/// Whether the answer begins with `HTTP/1.1 202`.
pub fn shutdown_accepted(buf: &[u8]) -> (r: bool)
    ensures
        r == (buf@.len() >= 12 && buf@.take(12) == accepted_prefix()),
{
    let expected: [u8; 12] = [72, 84, 84, 80, 47, 49, 46, 49, 32, 50, 48, 50];
    assert(expected@ =~= accepted_prefix());
    if buf.len() < 12 {
        return false;
    }
    let mut i: usize = 0;
    while i < 12
        invariant
            i <= 12,
            buf@.len() >= 12,
            expected@ == accepted_prefix(),
            forall|k: int| 0 <= k < i ==> buf@[k] == expected@[k],
        decreases 12 - i,
    {
        if buf[i] != expected[i] {
            assert(buf@.take(12)[i as int] != accepted_prefix()[i as int]);
            return false;
        }
        i = i + 1;
    }
    assert(buf@.take(12) =~= accepted_prefix());
    true
}

/// The arguments of `taskkill` that kill the process tree of `pid`.
pub fn kill_tree_args(pid: u32) -> (r: Vec<String>)
    ensures
        r@.map_values(|s: String| s@) == seq!["/PID"@, crate::text::decimal(pid as nat), "/T"@, "/F"@],
{
    let mut r: Vec<String> = Vec::new();
    r.push("/PID".to_owned());
    r.push(crate::text::decimal_string(pid as u64));
    r.push("/T".to_owned());
    r.push("/F".to_owned());
    assert(r@.map_values(|s: String| s@) =~= seq!["/PID"@, crate::text::decimal(pid as nat), "/T"@, "/F"@]);
    r
}

/// The PowerShell one-liner that stops `node` processes left by a
/// force-killed earlier instance: those whose command line mentions the
/// shell's npx cache or the npm spec `@deepseek-ai/dsh@`.
pub open spec fn orphan_cleanup_text(npx_cache: Seq<char>) -> Seq<char> {
    "Get-CimInstance Win32_Process -Filter \"Name='node.exe'\" | Where-Object { $_.CommandLine -match '"@
        + npx_cache
        + "' -or $_.CommandLine -match '@deepseek-ai/dsh@' } | ForEach-Object { Stop-Process -Id $_.ProcessId -Force -ErrorAction SilentlyContinue }"@
}

/// Builds the orphan-cleanup script.
pub fn orphan_cleanup_script(npx_cache: &str) -> (r: String)
    ensures
        r@ == orphan_cleanup_text(npx_cache@),
{
    let mut r = "Get-CimInstance Win32_Process -Filter \"Name='node.exe'\" | Where-Object { $_.CommandLine -match '".to_owned();
    r.append(npx_cache);
    r.append("' -or $_.CommandLine -match '@deepseek-ai/dsh@' } | ForEach-Object { Stop-Process -Id $_.ProcessId -Force -ErrorAction SilentlyContinue }");
    r
}

} // verus!
