//! The steps of one invocation, as a machine that the caller drives: it is
//! told what happened and answers with what to do next. The caller performs
//! the reads, writes and the pause; the decisions are made here.
use vstd::prelude::*;
use crate::command::Command;

verus! {

/// How long a preview shows the new level before the old one comes back.
pub const PREVIEW_SECONDS: u64 = 3;

/// Where a run stands.
#[derive(Clone, Copy, Debug, PartialEq, Eq, Structural)]
pub enum Phase {
    /// Nothing done yet.
    Start,
    /// Waiting for the current level to be read.
    Reading,
    /// Waiting for the new level to be written.
    WritingTarget,
    /// Waiting for the preview's pause to end.
    Pausing,
    /// Waiting for the previous level to be written back.
    Restoring,
    /// Nothing more to do.
    Finished,
}

/// What happened since the last step.
#[derive(Clone, Copy, Debug, PartialEq, Eq, Structural)]
pub enum Event {
    /// The run begins.
    Begin,
    /// The level was read (`None`: the file could not be read).
    Read(Option<u16>),
    /// A write was attempted; whether it succeeded. A failed write may still
    /// have taken effect, so the run goes on either way.
    Written(bool),
    /// The pause is over.
    Resumed,
}

/// What to do next.
#[derive(Clone, Copy, Debug, PartialEq, Eq, Structural)]
pub enum Action {
    /// Read the current level.
    ReadLevel,
    /// Print the query line for this level.
    Report(u16),
    /// Write this level.
    WriteLevel(u16),
    /// Wait this many seconds.
    Pause(u64),
    /// The level read before a preview was 0, which the preview cannot put
    /// back: stop at once, as on a broken invariant.
    Abort,
    /// The run is over.
    Stop,
}

/// One invocation in progress: its command, its phase, and the level read
/// before a preview (0 until read).
#[derive(Clone, Copy, Debug, PartialEq, Eq, Structural)]
pub struct Session {
    pub command: Command,
    pub phase: Phase,
    pub prior: u16,
}

/// The session of a command before anything is done.
pub open spec fn initial(command: Command) -> Session {
    Session { command, phase: Phase::Start, prior: 0 }
}

/// The session after `s`, with nothing more to do.
pub open spec fn finished(s: Session) -> Session {
    Session { phase: Phase::Finished, ..s }
}

/// One step: from a session and what happened, the next session and what to
/// do. A query reads the level and reports it. A change without preview
/// writes the target at once. A preview reads the level first, writes the
/// target, pauses, then writes the old level back; it aborts if that old level
/// is 0. A failed read ends the run; a failed write does not. An event that
/// the phase does not wait for ends the run.
pub open spec fn transition(s: Session, e: Event) -> (Session, Action) {
    match (s.phase, e, s.command) {
        (Phase::Start, Event::Begin, Command::Change { target, preview: false }) => (
            Session { phase: Phase::WritingTarget, ..s },
            Action::WriteLevel(target),
        ),
        (Phase::Start, Event::Begin, _) => (Session { phase: Phase::Reading, ..s }, Action::ReadLevel),
        (Phase::Reading, Event::Read(None), _) => (finished(s), Action::Stop),
        (Phase::Reading, Event::Read(Some(v)), Command::Query) => (finished(s), Action::Report(v)),
        (Phase::Reading, Event::Read(Some(v)), Command::Change { target, preview: _ }) => if v == 0 {
            (finished(s), Action::Abort)
        } else {
            (Session { phase: Phase::WritingTarget, prior: v, ..s }, Action::WriteLevel(target))
        },
        (Phase::WritingTarget, Event::Written(_), Command::Change { target: _, preview: true }) => (
            Session { phase: Phase::Pausing, ..s },
            Action::Pause(PREVIEW_SECONDS),
        ),
        (Phase::Pausing, Event::Resumed, _) => (
            Session { phase: Phase::Restoring, ..s },
            Action::WriteLevel(s.prior),
        ),
        _ => (finished(s), Action::Stop),
    }
}

/// The actions that a run of `events` from `s` asks for, in order.
pub open spec fn actions(s: Session, events: Seq<Event>) -> Seq<Action>
    decreases events.len(),
{
    if events.len() == 0 {
        Seq::empty()
    } else {
        let (next, a) = transition(s, events[0]);
        seq![a] + actions(next, events.drop_first())
    }
}

impl Session {
    /// A session for `command`, before anything is done.
    pub fn new(command: Command) -> (r: Session)
        ensures
            r == initial(command),
    {
        Session { command, phase: Phase::Start, prior: 0 }
    }

    /// Takes one step, as `transition` says, and returns what to do next.
    pub fn advance(&mut self, e: Event) -> (r: Action)
        ensures
            (*final(self), r) == transition(*old(self), e),
    {
        match (self.phase, e, self.command) {
            (Phase::Start, Event::Begin, Command::Change { target, preview: false }) => {
                self.phase = Phase::WritingTarget;
                Action::WriteLevel(target)
            },
            (Phase::Start, Event::Begin, _) => {
                self.phase = Phase::Reading;
                Action::ReadLevel
            },
            (Phase::Reading, Event::Read(None), _) => {
                self.phase = Phase::Finished;
                Action::Stop
            },
            (Phase::Reading, Event::Read(Some(v)), Command::Query) => {
                self.phase = Phase::Finished;
                Action::Report(v)
            },
            (Phase::Reading, Event::Read(Some(v)), Command::Change { target, preview: _ }) => {
                if v == 0 {
                    self.phase = Phase::Finished;
                    Action::Abort
                } else {
                    self.phase = Phase::WritingTarget;
                    self.prior = v;
                    Action::WriteLevel(target)
                }
            },
            (Phase::WritingTarget, Event::Written(_), Command::Change { target: _, preview: true }) => {
                self.phase = Phase::Pausing;
                Action::Pause(PREVIEW_SECONDS)
            },
            (Phase::Pausing, Event::Resumed, _) => {
                self.phase = Phase::Restoring;
                Action::WriteLevel(self.prior)
            },
            _ => {
                self.phase = Phase::Finished;
                Action::Stop
            },
        }
    }
}

/// A preview of `target` over a previous level `prior` reads the level,
/// writes the target, pauses for the preview's length, writes `prior` back
/// and stops, whether or not each write succeeded.
pub proof fn lemma_preview_restores(target: u16, prior: u16, first_ok: bool, second_ok: bool)
    requires
        prior > 0,
    ensures
        actions(
            initial(Command::Change { target, preview: true }),
            seq![Event::Begin, Event::Read(Some(prior)), Event::Written(first_ok), Event::Resumed, Event::Written(second_ok)],
        ) == seq![Action::ReadLevel, Action::WriteLevel(target), Action::Pause(PREVIEW_SECONDS), Action::WriteLevel(prior), Action::Stop],
{
    let s0 = initial(Command::Change { target, preview: true });
    let ev = seq![Event::Begin, Event::Read(Some(prior)), Event::Written(first_ok), Event::Resumed, Event::Written(second_ok)];
    let s1 = transition(s0, ev[0]).0;
    let s2 = transition(s1, ev[1]).0;
    let s3 = transition(s2, ev[2]).0;
    let s4 = transition(s3, ev[3]).0;
    let s5 = transition(s4, ev[4]).0;
    assert(ev.drop_first() =~= seq![ev[1], ev[2], ev[3], ev[4]]);
    assert(ev.drop_first().drop_first() =~= seq![ev[2], ev[3], ev[4]]);
    assert(ev.drop_first().drop_first().drop_first() =~= seq![ev[3], ev[4]]);
    assert(ev.drop_first().drop_first().drop_first().drop_first() =~= seq![ev[4]]);
    assert(ev.drop_first().drop_first().drop_first().drop_first().drop_first() =~= Seq::<Event>::empty());
    assert(actions(s5, Seq::<Event>::empty()) =~= Seq::<Action>::empty());
    assert(actions(s4, seq![ev[4]]) =~= seq![Action::Stop]);
    assert(actions(s3, seq![ev[3], ev[4]]) =~= seq![Action::WriteLevel(prior), Action::Stop]);
    assert(actions(s2, seq![ev[2], ev[3], ev[4]]) =~= seq![Action::Pause(PREVIEW_SECONDS), Action::WriteLevel(prior), Action::Stop]);
    assert(actions(s1, seq![ev[1], ev[2], ev[3], ev[4]]) =~= seq![Action::WriteLevel(target), Action::Pause(PREVIEW_SECONDS), Action::WriteLevel(prior), Action::Stop]);
}

/// A change without preview writes the target at once, reads nothing, and
/// stops after the write, whether or not it succeeded.
pub proof fn lemma_change_writes_once(target: u16, ok: bool)
    ensures
        actions(
            initial(Command::Change { target, preview: false }),
            seq![Event::Begin, Event::Written(ok)],
        ) == seq![Action::WriteLevel(target), Action::Stop],
{
    let ev = seq![Event::Begin, Event::Written(ok)];
    let s1 = transition(initial(Command::Change { target, preview: false }), ev[0]).0;
    let s2 = transition(s1, ev[1]).0;
    assert(ev.drop_first() =~= seq![ev[1]]);
    assert(ev.drop_first().drop_first() =~= Seq::<Event>::empty());
    assert(actions(s2, Seq::<Event>::empty()) =~= Seq::<Action>::empty());
    assert(actions(s1, seq![ev[1]]) =~= seq![Action::Stop]);
}

} // verus!
