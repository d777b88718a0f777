//! What the shell shows about itself: the run state of `dsh web`, the
//! status snapshot and the boot / plugin-install progress.

use vstd::prelude::*;
use crate::text;

verus! {

/// Run state of the `dsh web` service:
/// Idle → Starting → Ready → Degraded → Error / Stopped.
#[derive(Clone, Copy, Debug, PartialEq, Eq, Structural)]
pub enum RunState {
    Idle,
    Starting,
    Ready,
    Degraded,
    Error,
    Stopped,
}

/// The status the window and the tray show.
pub struct StatusSnapshot {
    pub state: RunState,
    pub port: Option<u16>,
    pub url: Option<String>,
    pub pid: Option<u32>,
    pub message: Option<String>,
}

impl Default for StatusSnapshot {
    fn default() -> (r: Self)
        ensures
            r.state == RunState::Idle,
            r.port is None,
            r.url is None,
            r.pid is None,
            r.message is None,
    {
        StatusSnapshot { state: RunState::Idle, port: None, url: None, pid: None, message: None }
    }
}

/// `运行中 · 端口 <port>`, the message of the Ready state.
pub open spec fn ready_message(port: u16) -> Seq<char> {
    "运行中 · 端口 "@ + text::decimal(port as nat)
}

impl StatusSnapshot {
    /// Sets the state and its message; port, URL and PID stay.
    pub fn set_status(&mut self, state: RunState, message: Option<String>)
        ensures
            final(self).state == state,
            final(self).message == message,
            final(self).port == old(self).port,
            final(self).url == old(self).url,
            final(self).pid == old(self).pid,
    {
        self.state = state;
        self.message = message;
    }

    /// Records a server that became ready on `port`.
    pub fn mark_ready(&mut self, port: u16, url: String, pid: Option<u32>)
        ensures
            final(self).state == RunState::Ready,
            final(self).port == Some(port),
            final(self).url == Some(url),
            final(self).pid == pid,
            final(self).message matches Some(m) && m@ == ready_message(port),
    {
        let mut m = "运行中 · 端口 ".to_owned();
        let d = text::decimal_string(port as u64);
        m.append(d.as_str());
        self.state = RunState::Ready;
        self.port = Some(port);
        self.url = Some(url);
        self.pid = pid;
        self.message = Some(m);
    }
}

/// How many streamed lines the progress keeps.
pub const PROGRESS_MAX_LINES: usize = 200;

/// Long-running boot / plugin-install progress shown by the splash window.
pub struct BootProgress {
    /// One of: "choose-channel" | "checking" | "installing-dsh" |
    /// "updating-dsh" | "plugin-install" | "ready".
    pub phase: String,
    pub message: String,
    /// The last lines streamed by npm / pnpm.
    pub lines: Vec<String>,
}

impl Default for BootProgress {
    fn default() -> (r: Self)
        ensures
            r.phase@ == Seq::<char>::empty(),
            r.message@ == Seq::<char>::empty(),
            r.lines@.len() == 0,
    {
        BootProgress { phase: String::new(), message: String::new(), lines: Vec::new() }
    }
}

/// The views of a vector of strings.
pub open spec fn line_views(v: Seq<String>) -> Seq<Seq<char>> {
    v.map_values(|s: String| s@)
}

/// The lines after one more is streamed: the new line at the end, and the
/// oldest dropped so that at most `PROGRESS_MAX_LINES` remain.
pub open spec fn pushed_lines(lines: Seq<Seq<char>>, line: Seq<char>) -> Seq<Seq<char>> {
    let over = if lines.len() >= PROGRESS_MAX_LINES - 1 { lines.len() - (PROGRESS_MAX_LINES - 1) } else { 0 };
    lines.skip(over).push(line)
}

impl BootProgress {
    /// Sets the phase and its message; the streamed lines stay.
    pub fn set_progress(&mut self, phase: &str, message: String)
        ensures
            final(self).phase@ == phase@,
            final(self).message == message,
            final(self).lines == old(self).lines,
    {
        self.phase = phase.to_owned();
        self.message = message;
    }

    /// Appends one streamed line, keeping only the latest
    /// `PROGRESS_MAX_LINES`.
    pub fn push_progress_line(&mut self, line: String)
        ensures
            line_views(final(self).lines@) == pushed_lines(line_views(old(self).lines@), line@),
            final(self).lines@.len() <= PROGRESS_MAX_LINES,
            final(self).phase == old(self).phase,
            final(self).message == old(self).message,
    {
        let n = self.lines.len();
        let over = n.saturating_sub(PROGRESS_MAX_LINES - 1);
        let mut kept: Vec<String> = Vec::new();
        let mut i = over;
        while i < n
            invariant
                n == self.lines@.len(),
                over <= i <= n,
                line_views(kept@) == line_views(self.lines@).subrange(over as int, i as int),
            decreases n - i,
        {
            let ghost before = kept@;
            kept.push(self.lines[i].clone());
            assert(line_views(kept@) =~= line_views(before).push(self.lines@[i as int]@));
            assert(line_views(self.lines@).subrange(over as int, i + 1) =~= line_views(self.lines@).subrange(
                over as int,
                i as int,
            ).push(self.lines@[i as int]@));
            i = i + 1;
        }
        let ghost before = kept@;
        let ghost lv = line@;
        kept.push(line);
        assert(line_views(kept@) =~= line_views(before).push(lv));
        assert(line_views(self.lines@).subrange(over as int, n as int) =~= line_views(self.lines@).skip(over as int));
        self.lines = kept;
    }
}

/// Whatever the lines before, streaming one more leaves at most
/// `PROGRESS_MAX_LINES`, the new one last and the ones before it in their
/// order.
pub proof fn law_progress_lines_bounded(lines: Seq<Seq<char>>, line: Seq<char>)
    ensures
        pushed_lines(lines, line).len() <= PROGRESS_MAX_LINES,
        pushed_lines(lines, line).last() == line,
        lines.len() < PROGRESS_MAX_LINES ==> pushed_lines(lines, line) == lines.push(line),
{
    if lines.len() < PROGRESS_MAX_LINES - 1 {
        assert(lines.skip(0) =~= lines);
    } else if lines.len() == PROGRESS_MAX_LINES - 1 {
        assert(lines.skip(0) =~= lines);
    }
}

} // verus!
