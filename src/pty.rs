//! The prompt-driven protocol that types a secret into a program running on
//! a pseudo-terminal.
//!
//! The terminal and the child process live with the caller. A
//! [`PromptSession`] makes every decision: the caller performs the
//! [`Action`] it asks for and reports what happened as an [`Event`].
use vstd::prelude::*;
use zeroize::Zeroize;
use crate::ansi::{strip, strip_ansi_codes};
use crate::text::{chars_of, decode_lossy, ends_with, string_of, trim_end, trim_end_len, utf8_lossy};

verus! {

/// How long a session may run and how many password prompts it answers.
#[derive(Clone, Copy, Debug)]
pub struct PtyConfig {
    /// Time allowed for the whole session, in milliseconds.
    pub timeout_ms: u64,
    /// Prompts to answer before the rest of the output is collected.
    pub password_prompt_count: u8,
}

impl PtyConfig {
    pub fn new(timeout_ms: u64, password_prompt_count: u8) -> (r: PtyConfig)
        ensures
            r.timeout_ms == timeout_ms,
            r.password_prompt_count == password_prompt_count,
    {
        PtyConfig { timeout_ms, password_prompt_count }
    }
}

impl Default for PtyConfig {
    /// One prompt, thirty seconds.
    fn default() -> (r: PtyConfig)
        ensures
            r.timeout_ms == 30_000,
            r.password_prompt_count == 1,
    {
        PtyConfig { timeout_ms: 30_000, password_prompt_count: 1 }
    }
}

/// What a finished session hands back.
#[derive(Debug)]
pub struct PtyResult {
    /// Everything the program printed after the last prompt, without
    /// terminal control sequences.
    pub output: String,
    /// The program's exit code.
    pub exit_code: i32,
}

impl PtyResult {
    /// Whether the program exited with code zero.
    pub fn success(&self) -> (r: bool)
        ensures
            r == (self.exit_code == 0),
    {
        self.exit_code == 0
    }
}

/// Why a session failed.
#[derive(Debug)]
pub enum PtyError {
    /// No terminal pair could be allocated.
    PtyCreation(String),
    /// The program could not be started.
    SpawnFailed(String),
    /// The session ran past its time limit.
    Timeout,
    /// Reading from or writing to the terminal failed.
    IoError(String),
    /// The program could not be waited for.
    CommandFailed(String),
}

pub enum ErrorView {
    PtyCreation(Seq<char>),
    SpawnFailed(Seq<char>),
    Timeout,
    IoError(Seq<char>),
    CommandFailed(Seq<char>),
}

impl View for PtyError {
    type V = ErrorView;

    open spec fn view(&self) -> ErrorView {
        match self {
            PtyError::PtyCreation(m) => ErrorView::PtyCreation(m@),
            PtyError::SpawnFailed(m) => ErrorView::SpawnFailed(m@),
            PtyError::Timeout => ErrorView::Timeout,
            PtyError::IoError(m) => ErrorView::IoError(m@),
            PtyError::CommandFailed(m) => ErrorView::CommandFailed(m@),
        }
    }
}

/// The text that describes an error.
pub open spec fn error_message(e: ErrorView) -> Seq<char> {
    match e {
        ErrorView::PtyCreation(m) => "Failed to create PTY: "@ + m,
        ErrorView::SpawnFailed(m) => "Failed to spawn command: "@ + m,
        ErrorView::Timeout => "Operation timed out"@,
        ErrorView::IoError(m) => "I/O error: "@ + m,
        ErrorView::CommandFailed(m) => "Command failed: "@ + m,
    }
}

fn prefixed(prefix: &str, m: &String) -> (r: String)
    ensures
        r@ == prefix@ + m@,
{
    let mut r = String::from_str(prefix);
    r.append(m.as_str());
    r
}

impl PtyError {
    /// The text that describes this error.
    pub fn to_string(&self) -> (r: String)
        ensures
            r@ == error_message(self@),
    {
        match self {
            PtyError::PtyCreation(m) => prefixed("Failed to create PTY: ", m),
            PtyError::SpawnFailed(m) => prefixed("Failed to spawn command: ", m),
            PtyError::Timeout => String::from_str("Operation timed out"),
            PtyError::IoError(m) => prefixed("I/O error: ", m),
            PtyError::CommandFailed(m) => prefixed("Command failed: ", m),
        }
    }
}

/// Whether `s` reads as a password prompt: it ends with `": "`, or with a
/// colon once trailing white space is ignored.
pub open spec fn is_prompt(s: Seq<char>) -> bool {
    ends_with(s, seq![':', ' ']) || {
        let t = trim_end(s);
        t.len() > 0 && t.last() == ':'
    }
}

fn prompt_at_end(s: &[char]) -> (r: bool)
    ensures
        r == is_prompt(s@),
{
    let n = s.len();
    let colon_space = n >= 2 && s[n - 2] == ':' && s[n - 1] == ' ';
    proof {
        if n >= 2 {
            let tail = s@.subrange(n - 2, n as int);
            assert(tail[0] == s@[n - 2] && tail[1] == s@[n - 1]);
            if colon_space {
                assert(tail =~= seq![':', ' ']);
            }
        }
    }
    let k = trim_end_len(s, n);
    assert(s@.take(n as int) =~= s@);
    colon_space || (k > 0 && s[k - 1] == ':')
}

/// Whether `text` reads as a password prompt.
pub fn looks_like_prompt(text: &str) -> (r: bool)
    ensures
        r == is_prompt(text@),
{
    let cs = chars_of(text);
    prompt_at_end(cs.as_slice())
}

/// What a session waits for.
#[derive(Clone, Copy, PartialEq, Eq, Structural, Debug)]
pub enum Stage {
    /// The elapsed time, before the next read.
    Clock,
    /// The outcome of a read from the terminal.
    Read,
    /// The outcome of writing the secret.
    Inject,
    /// Whether the program has exited.
    Probe,
    /// The program's exit code.
    Exit,
    /// Nothing: the session is over.
    Finished,
}

/// What the caller reports to a session.
#[derive(Debug)]
pub enum Event {
    /// Milliseconds since the program was started.
    Clock(u64),
    /// A read returned these bytes.
    Output(Vec<u8>),
    /// A read found the end of the output.
    Eof,
    /// A read found no data yet.
    WouldBlock,
    /// A read failed for another reason.
    ReadFailed(String),
    /// The secret and a newline were written and flushed.
    Injected,
    /// Writing the secret failed.
    WriteFailed(String),
    /// The program has exited.
    Exited,
    /// The program is still running.
    Running,
    /// Asking whether the program has exited failed.
    ProbeFailed,
    /// The program exited with this code.
    ExitCode(i32),
    /// Waiting for the program failed.
    WaitFailed(String),
}

/// What a session asks the caller to do next.
#[derive(Debug)]
pub enum Action {
    /// Report the elapsed time.
    CheckClock,
    /// Read from the terminal and report the outcome.
    Read,
    /// Pause briefly, then report the elapsed time.
    Sleep,
    /// Write the secret and a newline, flush, and report the outcome.
    InjectSecret,
    /// Ask, without blocking, whether the program has exited.
    ProbeExit,
    /// Wait for the program to exit and report its code.
    WaitExit,
    /// The session succeeded with this result.
    Finish(PtyResult),
    /// The session failed: stop the program if it still runs.
    Abort(PtyError),
}

pub enum ActionView {
    CheckClock,
    Read,
    Sleep,
    InjectSecret,
    ProbeExit,
    WaitExit,
    Finish(Seq<char>, i32),
    Abort(ErrorView),
}

impl View for Action {
    type V = ActionView;

    open spec fn view(&self) -> ActionView {
        match self {
            Action::CheckClock => ActionView::CheckClock,
            Action::Read => ActionView::Read,
            Action::Sleep => ActionView::Sleep,
            Action::InjectSecret => ActionView::InjectSecret,
            Action::ProbeExit => ActionView::ProbeExit,
            Action::WaitExit => ActionView::WaitExit,
            Action::Finish(r) => ActionView::Finish(r.output@, r.exit_code),
            Action::Abort(e) => ActionView::Abort(e@),
        }
    }
}

/// The state of a session.
pub struct SessionView {
    pub stage: Stage,
    /// Set once all prompts are answered or the output ended early.
    pub draining: bool,
    pub expected: nat,
    pub remaining: nat,
    pub timeout_ms: nat,
    /// Output since the last answered prompt.
    pub buffer: Seq<char>,
    /// The message of a failed read, while the session checks whether the
    /// program has exited.
    pub pending_error: Option<Seq<char>>,
}

/// The state of a new session for `config`.
pub open spec fn initial(config: PtyConfig) -> SessionView {
    SessionView {
        stage: Stage::Clock,
        draining: config.password_prompt_count == 0,
        expected: config.password_prompt_count as nat,
        remaining: config.password_prompt_count as nat,
        timeout_ms: config.timeout_ms as nat,
        buffer: Seq::empty(),
        pending_error: None,
    }
}

/// Whether a session at stage `stage` takes event `e`.
pub open spec fn accepts(stage: Stage, e: Event) -> bool {
    match e {
        Event::Clock(_) => stage == Stage::Clock,
        Event::Output(_) | Event::Eof | Event::WouldBlock | Event::ReadFailed(_) => stage
            == Stage::Read,
        Event::Injected | Event::WriteFailed(_) => stage == Stage::Inject,
        Event::Exited | Event::Running | Event::ProbeFailed => stage == Stage::Probe,
        Event::ExitCode(_) | Event::WaitFailed(_) => stage == Stage::Exit,
    }
}

pub open spec fn at(s: SessionView, stage: Stage) -> SessionView {
    SessionView { stage, ..s }
}

/// `s` once the outcome of an exit probe has settled its pending error.
pub open spec fn settled(s: SessionView) -> SessionView {
    SessionView { pending_error: None, ..s }
}

pub open spec fn aborted(s: SessionView, e: ErrorView) -> (SessionView, ActionView) {
    (at(s, Stage::Finished), ActionView::Abort(e))
}

/// A session at stage `Read` receives `text`.
pub open spec fn on_text(s: SessionView, text: Seq<char>) -> (SessionView, ActionView) {
    let buffer = s.buffer + text;
    if !s.draining && is_prompt(buffer) {
        (SessionView { stage: Stage::Inject, buffer, ..s }, ActionView::InjectSecret)
    } else {
        (SessionView { stage: Stage::Clock, buffer, ..s }, ActionView::CheckClock)
    }
}

/// What a session in state `s` does on event `e`: its next state and the
/// action it asks for.
pub open spec fn next(s: SessionView, e: Event) -> (SessionView, ActionView) {
    match e {
        Event::Clock(ms) => if ms > s.timeout_ms {
            aborted(s, ErrorView::Timeout)
        } else {
            (at(s, Stage::Read), ActionView::Read)
        },
        Event::Output(bytes) => on_text(s, utf8_lossy(bytes@)),
        Event::Eof => if s.draining {
            (at(s, Stage::Exit), ActionView::WaitExit)
        } else {
            (SessionView { stage: Stage::Clock, draining: true, ..s }, ActionView::CheckClock)
        },
        Event::WouldBlock => if s.draining {
            (SessionView { stage: Stage::Probe, pending_error: None, ..s }, ActionView::ProbeExit)
        } else {
            (at(s, Stage::Clock), ActionView::Sleep)
        },
        Event::ReadFailed(m) => if s.draining {
            (
                SessionView { stage: Stage::Probe, pending_error: Some(m@), ..s },
                ActionView::ProbeExit,
            )
        } else {
            aborted(s, ErrorView::IoError(m@))
        },
        Event::Injected => {
            let remaining = (s.remaining - 1) as nat;
            (
                SessionView {
                    stage: Stage::Clock,
                    remaining,
                    draining: remaining == 0,
                    buffer: Seq::empty(),
                    ..s
                },
                ActionView::CheckClock,
            )
        },
        Event::WriteFailed(m) => aborted(s, ErrorView::IoError(m@)),
        Event::Exited => (at(settled(s), Stage::Exit), ActionView::WaitExit),
        Event::Running => match s.pending_error {
            Some(m) => aborted(settled(s), ErrorView::IoError(m)),
            None => (at(s, Stage::Clock), ActionView::Sleep),
        },
        Event::ProbeFailed => match s.pending_error {
            Some(m) => aborted(settled(s), ErrorView::IoError(m)),
            None => (at(s, Stage::Exit), ActionView::WaitExit),
        },
        Event::ExitCode(code) => (
            at(s, Stage::Finished),
            ActionView::Finish(strip(s.buffer), code),
        ),
        Event::WaitFailed(m) => aborted(s, ErrorView::CommandFailed(m@)),
    }
}

/// Relies on zeroize's `Zeroize for Vec<char>`: it overwrites every element
/// and the spare capacity with zero and then clears the vector.
#[verifier::external_body]
fn wipe_chars(v: &mut Vec<char>)
    ensures
        final(v)@ == Seq::<char>::empty(),
    opens_invariants none
    no_unwind
{
    v.zeroize();
}

/// One run of the protocol: answer the expected prompts, collect the rest of
/// the output, and wait for the program to exit.
pub struct PromptSession {
    stage: Stage,
    draining: bool,
    expected: u8,
    remaining: u8,
    timeout_ms: u64,
    buffer: Vec<char>,
    pending_error: Option<String>,
}

impl View for PromptSession {
    type V = SessionView;

    closed spec fn view(&self) -> SessionView {
        SessionView {
            stage: self.stage,
            draining: self.draining,
            expected: self.expected as nat,
            remaining: self.remaining as nat,
            timeout_ms: self.timeout_ms as nat,
            buffer: self.buffer@,
            pending_error: match self.pending_error {
                Some(m) => Some(m@),
                None => None,
            },
        }
    }
}

/// The bounds that every reachable state keeps.
pub open spec fn well_formed(s: SessionView) -> bool {
    &&& s.remaining <= s.expected <= 255
    &&& s.timeout_ms <= u64::MAX
    &&& (s.stage == Stage::Inject ==> s.remaining > 0 && !s.draining)
    &&& (!s.draining ==> s.remaining > 0)
}

impl PromptSession {
    pub closed spec fn wf(&self) -> bool {
        well_formed(self@)
    }

    /// A new session; its first action is [`Action::CheckClock`].
    pub fn new(config: &PtyConfig) -> (r: PromptSession)
        ensures
            r@ == initial(*config),
            r.wf(),
    {
        PromptSession {
            stage: Stage::Clock,
            draining: config.password_prompt_count == 0,
            expected: config.password_prompt_count,
            remaining: config.password_prompt_count,
            timeout_ms: config.timeout_ms,
            buffer: Vec::new(),
            pending_error: None,
        }
    }

    /// What the session waits for.
    pub fn stage(&self) -> (r: Stage)
        ensures
            r == self@.stage,
    {
        self.stage
    }

    /// Prompts still to be answered.
    pub fn remaining_prompts(&self) -> (r: u8)
        ensures
            r == self@.remaining,
    {
        self.remaining
    }

    /// Whether the session takes event `e` now.
    pub fn accepts(&self, e: &Event) -> (r: bool)
        ensures
            r == accepts(self@.stage, *e),
    {
        match e {
            Event::Clock(_) => self.stage == Stage::Clock,
            Event::Output(_) | Event::Eof | Event::WouldBlock | Event::ReadFailed(_) => self.stage
                == Stage::Read,
            Event::Injected | Event::WriteFailed(_) => self.stage == Stage::Inject,
            Event::Exited | Event::Running | Event::ProbeFailed => self.stage == Stage::Probe,
            Event::ExitCode(_) | Event::WaitFailed(_) => self.stage == Stage::Exit,
        }
    }

    fn abort(&mut self, e: PtyError) -> (r: Action)
        ensures
            (final(self)@, r@) == aborted(old(self)@, e@),
    {
        self.stage = Stage::Finished;
        Action::Abort(e)
    }

    /// Takes text that a read returned, at stage `Read`.
    pub fn receive_text(&mut self, text: &str) -> (r: Action)
        requires
            old(self).wf(),
            old(self)@.stage == Stage::Read,
        ensures
            final(self).wf(),
            (final(self)@, r@) == on_text(old(self)@, text@),
    {
        let mut cs = chars_of(text);
        self.buffer.append(&mut cs);
        if !self.draining && prompt_at_end(self.buffer.as_slice()) {
            self.stage = Stage::Inject;
            Action::InjectSecret
        } else {
            self.stage = Stage::Clock;
            Action::CheckClock
        }
    }

    /// Takes the next event, and says what to do.
    pub fn handle(&mut self, e: Event) -> (r: Action)
        requires
            old(self).wf(),
            accepts(old(self)@.stage, e),
        ensures
            final(self).wf(),
            (final(self)@, r@) == next(old(self)@, e),
    {
        match e {
            Event::Clock(ms) => {
                if ms > self.timeout_ms {
                    self.abort(PtyError::Timeout)
                } else {
                    self.stage = Stage::Read;
                    Action::Read
                }
            },
            Event::Output(bytes) => {
                let mut text = decode_lossy(bytes.as_slice());
                let r = self.receive_text(text.as_str());
                crate::models::wipe(&mut text);
                r
            },
            Event::Eof => {
                if self.draining {
                    self.stage = Stage::Exit;
                    Action::WaitExit
                } else {
                    self.draining = true;
                    self.stage = Stage::Clock;
                    Action::CheckClock
                }
            },
            Event::WouldBlock => {
                if self.draining {
                    self.pending_error = None;
                    self.stage = Stage::Probe;
                    Action::ProbeExit
                } else {
                    self.stage = Stage::Clock;
                    Action::Sleep
                }
            },
            Event::ReadFailed(m) => {
                if self.draining {
                    self.pending_error = Some(m);
                    self.stage = Stage::Probe;
                    Action::ProbeExit
                } else {
                    self.abort(PtyError::IoError(m))
                }
            },
            Event::Injected => {
                self.remaining = self.remaining - 1;
                self.draining = self.remaining == 0;
                wipe_chars(&mut self.buffer);
                self.stage = Stage::Clock;
                Action::CheckClock
            },
            Event::WriteFailed(m) => self.abort(PtyError::IoError(m)),
            Event::Exited => {
                self.pending_error = None;
                self.stage = Stage::Exit;
                Action::WaitExit
            },
            Event::Running => {
                match self.pending_error.take() {
                    Some(m) => self.abort(PtyError::IoError(m)),
                    None => {
                        self.stage = Stage::Clock;
                        Action::Sleep
                    },
                }
            },
            Event::ProbeFailed => {
                match self.pending_error.take() {
                    Some(m) => self.abort(PtyError::IoError(m)),
                    None => {
                        self.stage = Stage::Exit;
                        Action::WaitExit
                    },
                }
            },
            Event::ExitCode(code) => {
                let text = string_of(self.buffer.as_slice());
                let output = strip_ansi_codes(text.as_str());
                self.stage = Stage::Finished;
                Action::Finish(PtyResult { output, exit_code: code })
            },
            Event::WaitFailed(m) => self.abort(PtyError::CommandFailed(m)),
        }
    }
}

/// The state after the events `es`, one after another, from `s`.
pub open spec fn run(s: SessionView, es: Seq<Event>) -> SessionView
    decreases es.len(),
{
    if es.len() == 0 {
        s
    } else {
        run(next(s, es[0]).0, es.drop_first())
    }
}

/// Whether each of the events `es`, from `s`, is one the session takes.
pub open spec fn accepted_run(s: SessionView, es: Seq<Event>) -> bool
    decreases es.len(),
{
    es.len() == 0 || (accepts(s.stage, es[0]) && accepted_run(next(s, es[0]).0, es.drop_first()))
}

/// How many times the events `es`, from `s`, have the session ask for the
/// secret to be written.
pub open spec fn injections(s: SessionView, es: Seq<Event>) -> nat
    decreases es.len(),
{
    if es.len() == 0 {
        0
    } else {
        let (t, a) = next(s, es[0]);
        (if a is InjectSecret {
            1nat
        } else {
            0nat
        }) + injections(t, es.drop_first())
    }
}

/// Prompts that a session in state `s` may still answer.
pub open spec fn answerable(s: SessionView) -> nat {
    if s.stage == Stage::Finished {
        0
    } else if s.stage == Stage::Inject {
        (s.remaining - 1) as nat
    } else {
        s.remaining
    }
}

/// Every event that a session takes keeps its state well formed.
pub proof fn lemma_next_well_formed(s: SessionView, e: Event)
    requires
        well_formed(s),
        accepts(s.stage, e),
    ensures
        well_formed(next(s, e).0),
{
}

proof fn lemma_injections_bounded(s: SessionView, es: Seq<Event>)
    requires
        well_formed(s),
        accepted_run(s, es),
    ensures
        injections(s, es) <= answerable(s),
    decreases es.len(),
{
    if es.len() > 0 {
        lemma_next_well_formed(s, es[0]);
        lemma_injections_bounded(next(s, es[0]).0, es.drop_first());
    }
}

/// Whatever the program prints, a session asks for the secret to be written
/// at most once for each prompt it was configured to answer.
pub proof fn lemma_secret_written_at_most_expected(config: PtyConfig, es: Seq<Event>)
    requires
        accepted_run(initial(config), es),
    ensures
        injections(initial(config), es) <= config.password_prompt_count,
{
    lemma_injections_bounded(initial(config), es);
}

/// The secret is written only when the output since the last answered
/// prompt reads as a prompt, and only while prompts remain to be answered.
pub proof fn lemma_secret_written_only_at_prompt(s: SessionView, e: Event)
    requires
        well_formed(s),
        accepts(s.stage, e),
        next(s, e).1 is InjectSecret,
    ensures
        is_prompt(next(s, e).0.buffer),
        s.remaining > 0,
        !s.draining,
{
}

/// Once the time limit has passed, the next clock reading fails the session
/// with a timeout, and the caller is told to stop the program.
pub proof fn lemma_timeout_aborts(s: SessionView, ms: u64)
    requires
        s.stage == Stage::Clock,
        ms > s.timeout_ms,
    ensures
        next(s, Event::Clock(ms)).0.stage == Stage::Finished,
        next(s, Event::Clock(ms)).1 == ActionView::Abort(ErrorView::Timeout),
{
}

/// A read that finds no data never ends the session: the session pauses and
/// reads again, or, once the prompts are answered, asks whether the program
/// has exited, and pauses and reads again while it runs. The collected
/// output and the prompts still to answer are unchanged.
pub proof fn lemma_would_block_continues(s: SessionView)
    requires
        s.stage == Stage::Read,
    ensures
        ({
            let (t, a) = next(s, Event::WouldBlock);
            &&& t.buffer == s.buffer
            &&& t.remaining == s.remaining
            &&& if s.draining {
                &&& a == ActionView::ProbeExit
                &&& next(t, Event::Running).0.stage == Stage::Clock
                &&& next(t, Event::Running).0.buffer == s.buffer
                &&& next(t, Event::Running).1 == ActionView::Sleep
            } else {
                &&& a == ActionView::Sleep
                &&& t.stage == Stage::Clock
            }
        }),
{
}

impl Drop for PromptSession {
    fn drop(&mut self)
        opens_invariants none
        no_unwind
    {
        wipe_chars(&mut self.buffer);
    }
}

} // verus!
