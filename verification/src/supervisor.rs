//! The supervisor's decision core: the shared input handle that the keystroke
//! relay and the interrupt handler contend for, the console-mode guard, the
//! log book with its header, body and footer, and the run state machine that
//! drives a child process from spawn to termination.
//!
//! The shells that actually read keystrokes, pump pipes and wait on the
//! child drive this machine and perform the actions it decides on.

use vstd::prelude::*;

use crate::logbook::{format_log_footer, spec_log_footer, LogBook, StreamKind};
use crate::text::{int_str, i32_to_string};

verus! {

/// The supervisor's own exit code when the child never ran or reported no
/// code of its own.
pub const FAILURE_SENTINEL: i32 = 1;

/// A fatal error before the child process is running.
#[derive(Debug)]
pub enum SetupError {
    /// The command token resolved to no executable.
    CommandNotFound(String),
    /// The requested working directory could not be entered.
    WorkingDirectoryUnavailable(String),
    /// The log file's directory could not be created.
    LogDirectoryUnwritable(String),
    /// The child process could not be started.
    SpawnFailed(String),
    /// The interrupt handler could not be registered.
    HandlerRegistrationFailed,
}

/// The report for a setup failure, as the console shows it.
pub open spec fn spec_setup_error_message(e: SetupError) -> Seq<char> {
    match e {
        SetupError::CommandNotFound(c) => "Command not found in PATH: "@ + c@,
        SetupError::WorkingDirectoryUnavailable(d) => "Failed to change directory to: "@ + d@,
        SetupError::LogDirectoryUnwritable(d) => "Failed to create log directory: "@ + d@,
        SetupError::SpawnFailed(c) => "Failed to start command: "@ + c@,
        SetupError::HandlerRegistrationFailed => "Failed to set Ctrl-C handler"@,
    }
}

/// Renders a setup failure for the console; every setup failure aborts
/// the run before the child is running, with the failure sentinel as the
/// supervisor's exit code.
pub fn setup_error_message(e: &SetupError) -> (r: String)
    ensures
        r@ == spec_setup_error_message(*e),
{
    match e {
        SetupError::CommandNotFound(c) => {
            let mut s = "Command not found in PATH: ".to_owned();
            s.append(c.as_str());
            s
        },
        SetupError::WorkingDirectoryUnavailable(d) => {
            let mut s = "Failed to change directory to: ".to_owned();
            s.append(d.as_str());
            s
        },
        SetupError::LogDirectoryUnwritable(d) => {
            let mut s = "Failed to create log directory: ".to_owned();
            s.append(d.as_str());
            s
        },
        SetupError::SpawnFailed(c) => {
            let mut s = "Failed to start command: ".to_owned();
            s.append(c.as_str());
            s
        },
        SetupError::HandlerRegistrationFailed => "Failed to set Ctrl-C handler".to_owned(),
    }
}

// ---------------------------------------------------------------------------
// The shared input handle
// ---------------------------------------------------------------------------

/// What the interrupt handler decided while it held the handle.
#[derive(Clone, Copy, PartialEq, Eq, Structural, Debug)]
pub enum InterruptAction {
    /// Write the shutdown token to the child's input, flush, and close it.
    SendShutdownToken,
    /// The handle was already closed; do nothing.
    Ignore,
}

/// What the keystroke relay decided while it held the handle.
#[derive(Clone, Copy, PartialEq, Eq, Structural, Debug)]
pub enum RelayDecision {
    /// The handle is open: forward the unit that was read.
    Forward,
    /// The handle is closed: stop relaying, silently.
    Stop,
}

/// Mathematical state of the handle: whether the child's input is still open
/// for writing, and how many shutdown tokens have ever been sent.
pub struct HandleView {
    pub writable: bool,
    pub tokens_sent: nat,
}

/// The handle never reopens, and a token is only sent on the one transition
/// from open to closed.
pub open spec fn handle_inv(g: HandleView) -> bool {
    g.tokens_sent <= 1 && (g.writable ==> g.tokens_sent == 0)
}

/// The child-input write end as the relay and the interrupt handler see it:
/// present means open and writable, absent means closed for good.
pub struct SharedInputHandle {
    pub writable: bool,
    pub tokens_sent: Ghost<nat>,
}

impl View for SharedInputHandle {
    type V = HandleView;

    open spec fn view(&self) -> HandleView {
        HandleView { writable: self.writable, tokens_sent: self.tokens_sent@ }
    }
}

impl SharedInputHandle {
    /// A fresh handle over a just-piped child input: open, nothing sent.
    pub fn new() -> (g: SharedInputHandle)
        ensures
            g@ == (HandleView { writable: true, tokens_sent: 0 as nat }),
    {
        SharedInputHandle { writable: true, tokens_sent: Ghost(0 as nat) }
    }

    /// The interrupt handler's critical section: if the handle is open, order
    /// the shutdown token written and close the handle; otherwise do nothing.
    /// Repeated or overlapping interrupts are therefore idempotent.
    pub fn on_interrupt(&mut self) -> (r: InterruptAction)
        requires
            handle_inv(old(self)@),
        ensures
            handle_inv(final(self)@),
            !final(self)@.writable,
            (r == InterruptAction::SendShutdownToken) == old(self)@.writable,
            old(self)@.writable ==> final(self)@.tokens_sent == old(self)@.tokens_sent + 1,
            !old(self)@.writable ==> final(self)@ == old(self)@,
            final(self)@.tokens_sent <= 1,
    {
        if self.writable {
            self.writable = false;
            proof {
                self.tokens_sent@ = self.tokens_sent@ + 1;
            }
            InterruptAction::SendShutdownToken
        } else {
            InterruptAction::Ignore
        }
    }

    /// The relay's critical section after reading one unit: forward it only
    /// while the handle is open; a closed handle stops the relay without error.
    pub fn relay_decision(&self) -> (r: RelayDecision)
        ensures
            (r == RelayDecision::Forward) == self@.writable,
            (r == RelayDecision::Stop) == !self@.writable,
    {
        if self.writable {
            RelayDecision::Forward
        } else {
            RelayDecision::Stop
        }
    }
}

/// The fixed token written to the child's input to request a cooperative
/// shutdown: the quit keystroke and a line terminator.
pub open spec fn shutdown_token_view() -> Seq<char> {
    seq!['q', '\n']
}

/// The shutdown token as a string.
pub fn shutdown_token() -> (s: String)
    ensures
        s@ == shutdown_token_view(),
{
    proof {
        reveal_strlit("q\n");
        assert("q\n"@ =~= shutdown_token_view());
    }
    "q\n".to_owned()
}

// ---------------------------------------------------------------------------
// Histories of handle events
// ---------------------------------------------------------------------------

/// One access to the handle: an interrupt firing, or the relay handling one
/// unit of input. Each holds the lock for its whole critical section, so a
/// run of the supervisor is a sequence of these.
pub enum HandleEvent {
    Interrupt,
    StdinUnit,
}

/// The handle after one event.
pub open spec fn handle_step(g: HandleView, e: HandleEvent) -> HandleView {
    match e {
        HandleEvent::Interrupt => if g.writable {
            HandleView { writable: false, tokens_sent: g.tokens_sent + 1 }
        } else {
            g
        },
        HandleEvent::StdinUnit => g,
    }
}

/// The handle after a sequence of events.
pub open spec fn handle_run(g: HandleView, es: Seq<HandleEvent>) -> HandleView
    decreases es.len(),
{
    if es.len() == 0 {
        g
    } else {
        handle_run(handle_step(g, es[0]), es.drop_first())
    }
}

/// The handle a fresh run starts from.
pub open spec fn initial_handle() -> HandleView {
    HandleView { writable: true, tokens_sent: 0 as nat }
}

/// Whether the relay forwards its unit at this event: only a unit handled
/// while the handle is open is written through.
pub open spec fn forwards_unit(g: HandleView, e: HandleEvent) -> bool {
    e is StdinUnit && g.writable
}

proof fn lemma_handle_inv_step(g: HandleView, e: HandleEvent)
    requires
        handle_inv(g),
    ensures
        handle_inv(handle_step(g, e)),
{
}

proof fn lemma_handle_inv_run(g: HandleView, es: Seq<HandleEvent>)
    requires
        handle_inv(g),
    ensures
        handle_inv(handle_run(g, es)),
    decreases es.len(),
{
    if es.len() > 0 {
        lemma_handle_inv_step(g, es[0]);
        lemma_handle_inv_run(handle_step(g, es[0]), es.drop_first());
    }
}

/// However many interrupts fire, and however they interleave with relayed
/// input, at most one shutdown token is ever written to the child.
pub proof fn lemma_at_most_one_shutdown_token(es: Seq<HandleEvent>)
    ensures
        handle_run(initial_handle(), es).tokens_sent <= 1,
{
    lemma_handle_inv_run(initial_handle(), es);
}

/// Once the handle has closed it stays closed, and nothing further is sent
/// through it.
pub proof fn lemma_closed_stays_closed(g: HandleView, es: Seq<HandleEvent>)
    requires
        !g.writable,
    ensures
        !handle_run(g, es).writable,
        handle_run(g, es).tokens_sent == g.tokens_sent,
    decreases es.len(),
{
    if es.len() > 0 {
        lemma_closed_stays_closed(handle_step(g, es[0]), es.drop_first());
    }
}

proof fn lemma_handle_run_concat(g: HandleView, a: Seq<HandleEvent>, b: Seq<HandleEvent>)
    ensures
        handle_run(g, a + b) == handle_run(handle_run(g, a), b),
    decreases a.len(),
{
    if a.len() == 0 {
        assert(a + b =~= b);
    } else {
        assert((a + b).drop_first() =~= a.drop_first() + b);
        assert((a + b)[0] == a[0]);
        lemma_handle_run_concat(handle_step(g, a[0]), a.drop_first(), b);
    }
}

/// Once the handle is closed after some prefix of the run, no later unit of
/// input is forwarded: there is no write after close.
pub proof fn lemma_no_write_after_close(es: Seq<HandleEvent>, k: int, m: int)
    requires
        0 <= k <= m < es.len(),
        !handle_run(initial_handle(), es.take(k)).writable,
    ensures
        !forwards_unit(handle_run(initial_handle(), es.take(m)), es[m]),
{
    assert(es.take(m) =~= es.take(k) + es.subrange(k, m));
    lemma_handle_run_concat(initial_handle(), es.take(k), es.subrange(k, m));
    lemma_closed_stays_closed(handle_run(initial_handle(), es.take(k)), es.subrange(k, m));
}

// ---------------------------------------------------------------------------
// The console-mode guard
// ---------------------------------------------------------------------------

/// Console input flag for line-buffered delivery.
pub const ENABLE_LINE_INPUT: u32 = 0x2;

/// Console input flag for echoing typed characters.
pub const ENABLE_ECHO_INPUT: u32 = 0x4;

/// The immediate, non-echoing mode derived from a captured console mode:
/// the same bits with line input and echo cleared.
pub open spec fn spec_raw_mode(mode: u32) -> u32 {
    mode & !(ENABLE_LINE_INPUT | ENABLE_ECHO_INPUT)
}

/// Clears the line-input and echo bits of a captured console mode.
pub fn raw_mode_of(mode: u32) -> (r: u32)
    ensures
        r == spec_raw_mode(mode),
{
    mode & !(ENABLE_LINE_INPUT | ENABLE_ECHO_INPUT)
}

/// Owns the console mode captured before the run and hands it back exactly
/// once at teardown. Absent capture (no console, or a platform without the
/// concept) makes restoration a no-op.
pub struct ConsoleModeGuard {
    pub snapshot: Option<u32>,
    pub restored: bool,
}

impl ConsoleModeGuard {
    /// Takes ownership of the mode captured at startup, or of its absence.
    pub fn capture(snapshot: Option<u32>) -> (g: ConsoleModeGuard)
        ensures
            g.snapshot == snapshot,
            !g.restored,
    {
        ConsoleModeGuard { snapshot, restored: false }
    }

    /// The mode to write back, bit for bit the captured one, handed out on
    /// the first call only; later calls restore nothing.
    pub fn take_restore(&mut self) -> (r: Option<u32>)
        ensures
            final(self).restored,
            final(self).snapshot == old(self).snapshot,
            r == if old(self).restored {
                None::<u32>
            } else {
                old(self).snapshot
            },
    {
        if self.restored {
            None
        } else {
            self.restored = true;
            self.snapshot
        }
    }
}

// ---------------------------------------------------------------------------
// The run state machine
// ---------------------------------------------------------------------------

/// Where a run stands. Every run passes through these in order; none is
/// skipped, and `Terminated` is reached exactly once.
#[derive(Clone, Copy, PartialEq, Eq, Structural, Debug)]
pub enum Phase {
    Spawning,
    Running,
    Draining,
    RestoringConsole,
    Finalizing,
    Terminated,
}

/// The position of a phase in the run's fixed order.
pub open spec fn phase_index(p: Phase) -> int {
    match p {
        Phase::Spawning => 0,
        Phase::Running => 1,
        Phase::Draining => 2,
        Phase::RestoringConsole => 3,
        Phase::Finalizing => 4,
        Phase::Terminated => 5,
    }
}

/// The supervisor's own exit code for a child that exited with `code`:
/// the child's code, or the sentinel when it reported none.
pub open spec fn spec_exit_code(code: Option<i32>) -> int {
    match code {
        Some(n) => n as int,
        None => FAILURE_SENTINEL as int,
    }
}

/// The console lines of a run's record, as character sequences.
pub open spec fn console_view(v: Seq<(StreamKind, String)>) -> Seq<(StreamKind, Seq<char>)> {
    v.map_values(|p: (StreamKind, String)| (p.0, p.1@))
}

/// The summary printed after console restoration: a success note on
/// standard output, or a failure note on standard error naming the exit
/// code and, when a log was kept, the log file.
pub open spec fn spec_summary(exit_code: int, log_path: Option<Seq<char>>) -> Seq<
    (StreamKind, Seq<char>),
> {
    if exit_code == 0 {
        seq![
            (StreamKind::Stdout, Seq::<char>::empty()),
            (StreamKind::Stdout, "\u{2713} Command completed successfully"@),
        ]
    } else {
        let base = seq![
            (StreamKind::Stderr, Seq::<char>::empty()),
            (StreamKind::Stderr, "Command failed with exit code "@ + int_str(exit_code)),
        ];
        match log_path {
            Some(p) => base + seq![(StreamKind::Stderr, "Check log file: "@ + p)],
            None => base,
        }
    }
}

/// Builds the summary lines for the console.
pub fn format_summary(exit_code: i32, log_path: &Option<String>) -> (r: Vec<(StreamKind, String)>)
    ensures
        console_view(r@) == spec_summary(exit_code as int, log_path.deep_view()),
{
    let mut out: Vec<(StreamKind, String)> = Vec::new();
    if exit_code == 0 {
        out.push((StreamKind::Stdout, String::new()));
        out.push((StreamKind::Stdout, "\u{2713} Command completed successfully".to_owned()));
    } else {
        out.push((StreamKind::Stderr, String::new()));
        let mut l = "Command failed with exit code ".to_owned();
        let code = i32_to_string(exit_code);
        l.append(code.as_str());
        out.push((StreamKind::Stderr, l));
        match log_path {
            Some(p) => {
                let mut hint = "Check log file: ".to_owned();
                hint.append(p.as_str());
                out.push((StreamKind::Stderr, hint));
            },
            None => {},
        }
    }
    proof {
        assert(console_view(out@) =~= spec_summary(exit_code as int, log_path.deep_view()));
    }
    out
}

/// One run of the supervisor, from a successful spawn to termination. The
/// shell around the library performs each action this machine decides on:
/// it echoes lines, writes the log file, forwards keystrokes, restores the
/// console, and finally exits the whole process with the code this machine
/// hands back.
pub struct SupervisorRun {
    pub phase: Phase,
    pub handle: SharedInputHandle,
    pub guard: ConsoleModeGuard,
    pub log: Option<LogBook>,
    pub log_path: Option<String>,
    pub exit_code: Option<i32>,
    pub console: Vec<(StreamKind, String)>,
    pub handle_events: Ghost<Seq<HandleEvent>>,
}

/// Well-formedness of a run: the handle obeys its invariant and matches its
/// event history; the exit code is on record from draining onwards; the
/// console mode is restored exactly from the restoring step onwards; and
/// the log, when kept, is sealed exactly at termination.
pub open spec fn run_wf(r: SupervisorRun) -> bool {
    &&& handle_inv(r.handle@)
    &&& r.handle@ == handle_run(initial_handle(), r.handle_events@)
    &&& (phase_index(r.phase) >= 2 ==> r.exit_code is Some)
    &&& (phase_index(r.phase) >= 4) == r.guard.restored
    &&& (match r.log {
        Some(lb) => lb@.sealed == (r.phase is Terminated),
        None => true,
    })
    &&& (r.log is Some <==> r.log_path is Some)
}

impl SupervisorRun {
    /// A run whose child has just been spawned with all three streams
    /// piped: the handle is fresh, the console snapshot is owned, the log
    /// holds its header, and nothing has happened yet.
    pub fn start(log_path: Option<String>, log: Option<LogBook>, console_snapshot: Option<u32>)
        -> (r: SupervisorRun)
        requires
            match log {
                Some(lb) => !lb@.sealed,
                None => true,
            },
            (log is Some) <==> (log_path is Some),
        ensures
            run_wf(r),
            r.phase == Phase::Running,
            r.handle@ == initial_handle(),
            r.guard.snapshot == console_snapshot,
            !r.guard.restored,
            r.log == log,
            r.log_path == log_path,
            r.exit_code is None,
            r.console@ == Seq::<(StreamKind, String)>::empty(),
            r.handle_events@ == Seq::<HandleEvent>::empty(),
    {
        let r = SupervisorRun {
            phase: Phase::Running,
            handle: SharedInputHandle::new(),
            guard: ConsoleModeGuard::capture(console_snapshot),
            log,
            log_path,
            exit_code: None,
            console: Vec::new(),
            handle_events: Ghost(Seq::empty()),
        };
        proof {
            assert(r.console@ =~= Seq::<(StreamKind, String)>::empty());
        }
        r
    }

    /// One line arrived on one of the child's output streams: echo it to
    /// the matching console stream and append it to the log when one is
    /// kept. Lines may arrive while the child runs and while the tees
    /// drain.
    pub fn child_line(&mut self, kind: StreamKind, line: String)
        requires
            run_wf(*old(self)),
            old(self).phase == Phase::Running || old(self).phase == Phase::Draining,
        ensures
            run_wf(*final(self)),
            final(self).phase == old(self).phase,
            final(self).handle == old(self).handle,
            final(self).handle_events == old(self).handle_events,
            final(self).guard == old(self).guard,
            final(self).exit_code == old(self).exit_code,
            final(self).log_path == old(self).log_path,
            console_view(final(self).console@) == console_view(old(self).console@).push(
                (kind, line@),
            ),
            match old(self).log {
                Some(lb) => final(self).log matches Some(lb2) && lb2@.body == lb@.body.push(
                    (kind, line@),
                ) && lb2@.header == lb@.header && lb2@.footer == lb@.footer && lb2@.sealed
                    == lb@.sealed,
                None => final(self).log is None,
            },
    {
        let ghost prior = self.console@;
        match &mut self.log {
            Some(lb) => {
                lb.append_line(kind, line.clone());
            },
            None => {},
        }
        self.console.push((kind, line));
        proof {
            assert(console_view(self.console@) =~= console_view(prior).push(
                (kind, self.console@[prior.len() as int].1@),
            ));
        }
    }

    /// The interrupt fired: under the handle's lock, order the shutdown token
    /// written and the handle closed if the handle is still open; otherwise
    /// nothing. The supervisor itself keeps running either way.
    pub fn interrupt(&mut self) -> (r: InterruptAction)
        requires
            run_wf(*old(self)),
        ensures
            run_wf(*final(self)),
            final(self).phase == old(self).phase,
            final(self).guard == old(self).guard,
            final(self).log == old(self).log,
            final(self).log_path == old(self).log_path,
            final(self).exit_code == old(self).exit_code,
            final(self).console == old(self).console,
            final(self).handle_events@ == old(self).handle_events@.push(HandleEvent::Interrupt),
            (r == InterruptAction::SendShutdownToken) == old(self).handle@.writable,
            !final(self).handle@.writable,
            final(self).handle@.tokens_sent <= 1,
    {
        let r = self.handle.on_interrupt();
        proof {
            let es = self.handle_events@;
            self.handle_events@ = es.push(HandleEvent::Interrupt);
            assert(es.push(HandleEvent::Interrupt) =~= es + seq![HandleEvent::Interrupt]);
            lemma_handle_run_concat(initial_handle(), es, seq![HandleEvent::Interrupt]);
            let g0 = handle_run(initial_handle(), es);
            let one = seq![HandleEvent::Interrupt];
            assert(one.drop_first() =~= Seq::<HandleEvent>::empty());
            assert(handle_run(handle_step(g0, HandleEvent::Interrupt), one.drop_first()) == handle_step(
                g0,
                HandleEvent::Interrupt,
            ));
            assert(handle_run(g0, one) == handle_step(g0, HandleEvent::Interrupt));
        }
        r
    }

    /// The relay read one unit from the supervisor's input: under the
    /// handle's lock, it forwards the unit exactly when the handle is open,
    /// and stops for good when it is closed.
    pub fn stdin_unit(&mut self) -> (r: RelayDecision)
        requires
            run_wf(*old(self)),
        ensures
            run_wf(*final(self)),
            *final(self) == (SupervisorRun {
                handle_events: Ghost(old(self).handle_events@.push(HandleEvent::StdinUnit)),
                ..*old(self)
            }),
            (r == RelayDecision::Forward) == forwards_unit(old(self).handle@, HandleEvent::StdinUnit),
    {
        let r = self.handle.relay_decision();
        proof {
            let es = self.handle_events@;
            self.handle_events@ = es.push(HandleEvent::StdinUnit);
            assert(es.push(HandleEvent::StdinUnit) =~= es + seq![HandleEvent::StdinUnit]);
            lemma_handle_run_concat(initial_handle(), es, seq![HandleEvent::StdinUnit]);
            let g0 = handle_run(initial_handle(), es);
            let one = seq![HandleEvent::StdinUnit];
            assert(one.drop_first() =~= Seq::<HandleEvent>::empty());
            assert(handle_run(handle_step(g0, HandleEvent::StdinUnit), one.drop_first()) == handle_step(
                g0,
                HandleEvent::StdinUnit,
            ));
            assert(handle_run(g0, one) == handle_step(g0, HandleEvent::StdinUnit));
        }
        r
    }

    /// The child terminated: record its exit code, or the sentinel when it
    /// reported none, and move on to draining the tees.
    pub fn child_exited(&mut self, code: Option<i32>)
        requires
            run_wf(*old(self)),
            old(self).phase == Phase::Running,
        ensures
            run_wf(*final(self)),
            *final(self) == (SupervisorRun {
                phase: Phase::Draining,
                exit_code: Some(
                    match code {
                        Some(n) => n,
                        None => FAILURE_SENTINEL,
                    },
                ),
                ..*old(self)
            }),
            spec_exit_code(final(self).exit_code) == spec_exit_code(code),
    {
        self.phase = Phase::Draining;
        self.exit_code = Some(
            match code {
                Some(n) => n,
                None => FAILURE_SENTINEL,
            },
        );
    }

    /// Both tee workers have joined; the pipes are closed and every body
    /// line is on record. Next the console is restored.
    pub fn tees_joined(&mut self)
        requires
            run_wf(*old(self)),
            old(self).phase == Phase::Draining,
        ensures
            run_wf(*final(self)),
            *final(self) == (SupervisorRun { phase: Phase::RestoringConsole, ..*old(self) }),
    {
        self.phase = Phase::RestoringConsole;
    }

    /// Hands back the mode to write to the console: bit for bit the one
    /// captured before the run, exactly once, before any further console
    /// output. Absent capture restores nothing.
    pub fn restore_console(&mut self) -> (r: Option<u32>)
        requires
            run_wf(*old(self)),
            old(self).phase == Phase::RestoringConsole,
        ensures
            run_wf(*final(self)),
            final(self).phase == Phase::Finalizing,
            r == old(self).guard.snapshot,
            final(self).guard.snapshot == old(self).guard.snapshot,
            final(self).guard.restored,
            final(self).handle == old(self).handle,
            final(self).handle_events == old(self).handle_events,
            final(self).log == old(self).log,
            final(self).log_path == old(self).log_path,
            final(self).exit_code == old(self).exit_code,
            final(self).console == old(self).console,
    {
        let r = self.guard.take_restore();
        self.phase = Phase::Finalizing;
        r
    }

    /// Seals the log with its footer, records the summary for the console,
    /// and hands back the exit code the supervisor's process must now exit
    /// with: always the child's own.
    pub fn finalize(&mut self, finished_at: &str) -> (r: i32)
        requires
            run_wf(*old(self)),
            old(self).phase == Phase::Finalizing,
        ensures
            run_wf(*final(self)),
            final(self).phase == Phase::Terminated,
            r as int == spec_exit_code(old(self).exit_code),
            final(self).exit_code == old(self).exit_code,
            final(self).handle == old(self).handle,
            final(self).guard == old(self).guard,
            final(self).log_path == old(self).log_path,
            match old(self).log {
                Some(lb) => final(self).log matches Some(lb2) && lb2@.sealed && lb2@.header
                    == lb@.header && lb2@.body == lb@.body && lb2@.footer == spec_log_footer(
                    r as int,
                    finished_at@,
                ),
                None => final(self).log is None,
            },
            console_view(final(self).console@) == console_view(old(self).console@)
                + spec_summary(r as int, old(self).log_path.deep_view()),
    {
        let code = match self.exit_code {
            Some(c) => c,
            None => FAILURE_SENTINEL,
        };
        match &mut self.log {
            Some(lb) => {
                let footer = format_log_footer(code, finished_at);
                lb.seal(footer);
            },
            None => {},
        }
        let ghost prior = self.console@;
        let mut summary = format_summary(code, &self.log_path);
        let ghost summary_view = summary@;
        self.console.append(&mut summary);
        self.phase = Phase::Terminated;
        proof {
            assert(console_view(self.console@) =~= console_view(prior) + console_view(
                summary_view,
            ));
        }
        code
    }
}

/// In any well-formed run, whatever interleaving of interrupts and
/// relayed input produced it, at most one shutdown token has ever been
/// written to the child.
pub proof fn lemma_run_sends_at_most_one_token(r: SupervisorRun)
    requires
        run_wf(r),
    ensures
        r.handle@.tokens_sent <= 1,
{
    lemma_at_most_one_shutdown_token(r.handle_events@);
}

impl SupervisorRun {
    /// Seals the log and records the summary as `finalize` does, with the
    /// current time as the completion timestamp.
    pub fn finalize_now(&mut self) -> (r: i32)
        requires
            run_wf(*old(self)),
            old(self).phase == Phase::Finalizing,
        ensures
            run_wf(*final(self)),
            final(self).phase == Phase::Terminated,
            r as int == spec_exit_code(old(self).exit_code),
            final(self).exit_code == old(self).exit_code,
            final(self).guard == old(self).guard,
            match old(self).log {
                Some(lb) => final(self).log matches Some(lb2) && lb2@.sealed && lb2@.header
                    == lb@.header && lb2@.body == lb@.body && (exists|t: Seq<char>|
                    lb2@.footer == spec_log_footer(r as int, t)),
                None => final(self).log is None,
            },
            console_view(final(self).console@) == console_view(old(self).console@)
                + spec_summary(r as int, old(self).log_path.deep_view()),
    {
        let ts = crate::logbook::now_rfc3339();
        let ghost tv = ts@;
        let code = self.finalize(ts.as_str());
        proof {
            match old(self).log {
                Some(lb) => {
                    assert(self.log matches Some(lb2) && lb2@.footer == spec_log_footer(
                        code as int,
                        tv,
                    ));
                },
                None => {},
            }
        }
        code
    }
}

} // verus!
