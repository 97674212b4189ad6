//! The refresh orchestrator: what the firmware loop does next.
//!
//! The orchestrator owns the framebuffer and keeps track of the panel. It
//! never touches the bus or the input itself. It names one action at a
//! time; the loop carries the action out and reports how it ended, and the
//! orchestrator answers with the next action:
//!
//! * after start-up, the panel is initialised;
//! * then the input is polled, again and again, with the panel asleep;
//! * a chunk that arrives is acknowledged, whatever it holds;
//! * if the chunk is text, one refresh follows: wake, clear, draw the text
//!   into the framebuffer, transfer it, display it, sleep;
//! * a panel command that fails ends everything: the loop is told to halt.

use vstd::prelude::*;
use vstd::utf8::valid_utf8;
use crate::framebuffer::{blank_frame, rendered, Framebuffer, FRAME_BYTES};
use crate::layout::layout_of;
use crate::panel::{
    following, next_in_refresh, state_before, transition, PanelCommand, PanelFault, PanelState,
};
use crate::payload::{retained, TextPayload};

verus! {

/// What the firmware loop is to do next.
#[derive(Clone, Copy, Debug, PartialEq, Eq, Structural)]
pub enum Action {
    /// Send this command to the panel and wait for it to end.
    Panel(PanelCommand),
    /// Ask the input for a chunk, without waiting for one.
    Poll,
    /// Send the acknowledgement. Whether it gets through does not matter.
    Acknowledge,
    /// Stop: the panel failed, and nothing more can be done.
    Halt,
}

/// How the action that was asked for ended.
#[derive(Clone, Copy, Debug)]
pub enum Event<'a> {
    /// The panel command ended, well or with a fault.
    Panel(Result<(), PanelFault>),
    /// The poll ended, with a chunk or without.
    Input(Option<&'a [u8]>),
    /// The acknowledgement was handed to the transport.
    Acknowledged,
}

/// The panel command that failed, and why.
#[derive(Clone, Copy, Debug, PartialEq, Eq, Structural)]
pub struct Failure {
    /// The command that did not complete.
    pub command: PanelCommand,
    /// What went wrong with it.
    pub fault: PanelFault,
}

/// The orchestrator's state, as contracts see it.
pub struct RefreshState {
    /// The state of the panel.
    pub panel: PanelState,
    /// The action that the loop was asked to carry out.
    pub pending: Action,
    /// The bytes of the text that is being put on the panel, if any.
    pub payload: Option<Seq<u8>>,
    /// The bytes of the framebuffer.
    pub frame: Seq<u8>,
    /// What made the orchestrator halt, if it did.
    pub failure: Option<Failure>,
}

/// The state at power-on: nothing drawn, the panel not yet initialised.
pub open spec fn initial_state() -> RefreshState {
    RefreshState {
        panel: PanelState::Uninitialized,
        pending: Action::Panel(PanelCommand::Initialize),
        payload: None,
        frame: blank_frame(),
        failure: None,
    }
}

/// The fault that is recorded when `command` did not take the panel on.
pub open spec fn fault_of(
    panel: PanelState,
    command: PanelCommand,
    outcome: Result<(), PanelFault>,
) -> PanelFault {
    match outcome {
        Err(fault) => if panel == state_before(command) {
            fault
        } else {
            PanelFault::OutOfOrder
        },
        Ok(_) => PanelFault::OutOfOrder,
    }
}

/// The state after the pending panel command ended with `outcome`.
///
/// A command that completed moves the panel on and makes the next command
/// of the refresh pending, or the next poll when the refresh is over or
/// the panel was only initialised. Between clearing the panel and
/// transferring the frame, the text is drawn into the framebuffer. A
/// command that failed is recorded, and the orchestrator halts.
pub open spec fn after_panel(
    s: RefreshState,
    command: PanelCommand,
    outcome: Result<(), PanelFault>,
) -> RefreshState {
    let panel = transition(s.panel, command, outcome is Ok);
    if panel == PanelState::Failed {
        RefreshState {
            panel,
            pending: Action::Halt,
            failure: Some(Failure { command, fault: fault_of(s.panel, command, outcome) }),
            ..s
        }
    } else {
        RefreshState {
            panel,
            pending: match following(command) {
                Some(next) => Action::Panel(next),
                None => Action::Poll,
            },
            payload: if command == PanelCommand::Sleep {
                None
            } else {
                s.payload
            },
            frame: match s.payload {
                Some(bytes) if command == PanelCommand::ClearFrame => rendered(
                    s.frame,
                    layout_of(bytes),
                ),
                _ => s.frame,
            },
            ..s
        }
    }
}

/// The state after a poll ended. Without a chunk, nothing changes. A chunk
/// is acknowledged next in any case; what the input buffer keeps of it
/// becomes the payload if it is well-formed UTF-8, and is dropped if not.
pub open spec fn after_input(s: RefreshState, chunk: Option<Seq<u8>>) -> RefreshState {
    match chunk {
        Some(bytes) => RefreshState {
            pending: Action::Acknowledge,
            payload: if valid_utf8(retained(bytes)) {
                Some(retained(bytes))
            } else {
                None
            },
            ..s
        },
        None => s,
    }
}

/// The state after the acknowledgement was sent: a refresh begins if the
/// chunk was text, and the input is polled again if it was not.
pub open spec fn after_acknowledged(s: RefreshState) -> RefreshState {
    RefreshState {
        pending: if s.payload is Some {
            Action::Panel(PanelCommand::Wake)
        } else {
            Action::Poll
        },
        ..s
    }
}

/// The state after `event`. An event that does not answer the pending
/// action changes nothing; so nothing changes once the orchestrator halted,
/// and a chunk that shows up during a refresh is not looked at.
pub open spec fn step_of(s: RefreshState, event: Event) -> RefreshState {
    match (s.pending, event) {
        (Action::Panel(command), Event::Panel(outcome)) => after_panel(s, command, outcome),
        (Action::Poll, Event::Input(Some(chunk))) => after_input(s, Some(chunk@)),
        (Action::Poll, Event::Input(None)) => after_input(s, None),
        (Action::Acknowledge, Event::Acknowledged) => after_acknowledged(s),
        _ => s,
    }
}

/// The states that the orchestrator can be in: the pending command is in
/// order for the panel, the panel sleeps while the input is polled, a
/// refresh has a text to show, and a halt has its cause on record.
pub open spec fn well_formed(s: RefreshState) -> bool {
    match s.pending {
        Action::Panel(command) => {
            &&& s.panel == state_before(command)
            &&& s.failure is None
            &&& command != PanelCommand::Initialize ==> s.payload is Some
            &&& command == PanelCommand::Initialize ==> s.payload is None
        },
        Action::Poll => s.panel == PanelState::Ready && s.failure is None && s.payload is None,
        Action::Acknowledge => s.panel == PanelState::Ready && s.failure is None,
        Action::Halt => s.panel == PanelState::Failed && s.failure is Some,
    }
}

/// The refresh orchestrator.
pub struct Orchestrator {
    panel: PanelState,
    pending: Action,
    payload: Option<TextPayload>,
    frame: Framebuffer,
    failure: Option<Failure>,
}

impl View for Orchestrator {
    type V = RefreshState;

    closed spec fn view(&self) -> RefreshState {
        RefreshState {
            panel: self.panel,
            pending: self.pending,
            payload: match self.payload {
                Some(payload) => Some(payload@),
                None => None,
            },
            frame: self.frame@,
            failure: self.failure,
        }
    }
}

impl Orchestrator {
    /// An orchestrator at power-on. Its first action is to initialise the panel.
    pub fn new() -> (orchestrator: Orchestrator)
        ensures
            orchestrator@ == initial_state(),
            well_formed(orchestrator@),
    {
        Orchestrator {
            panel: PanelState::Uninitialized,
            pending: Action::Panel(PanelCommand::Initialize),
            payload: None,
            frame: Framebuffer::new(),
            failure: None,
        }
    }

    /// The action that the loop is to carry out now.
    pub fn pending(&self) -> (action: Action)
        ensures
            action == self@.pending,
    {
        self.pending
    }

    /// The state of the panel.
    pub fn panel(&self) -> (state: PanelState)
        ensures
            state == self@.panel,
    {
        self.panel
    }

    /// What made the orchestrator halt, if it did.
    pub fn failure(&self) -> (failure: Option<Failure>)
        ensures
            failure == self@.failure,
    {
        self.failure
    }

    /// The framebuffer's bytes: what `PanelCommand::UpdateFrame` transfers.
    pub fn frame(&self) -> (bytes: &[u8])
        ensures
            bytes@ == self@.frame,
            bytes@.len() == FRAME_BYTES,
    {
        self.frame.bytes()
    }

    /// Takes in how the pending action ended, and names the next one.
    pub fn step(&mut self, event: Event<'_>) -> (next: Action)
        ensures
            final(self)@ == step_of(old(self)@, event),
            next == final(self)@.pending,
            well_formed(old(self)@) ==> well_formed(final(self)@),
    {
        match (self.pending, event) {
            (Action::Panel(command), Event::Panel(outcome)) => {
                let panel = self.panel.after(command, outcome);
                if panel == PanelState::Failed {
                    let fault = match outcome {
                        Err(fault) => if self.panel.admits(command) {
                            fault
                        } else {
                            PanelFault::OutOfOrder
                        },
                        Ok(_) => PanelFault::OutOfOrder,
                    };
                    self.failure = Some(Failure { command, fault });
                    self.pending = Action::Halt;
                } else {
                    if command == PanelCommand::ClearFrame {
                        match &self.payload {
                            Some(payload) => self.frame.render(payload),
                            None => {},
                        }
                    }
                    if command == PanelCommand::Sleep {
                        self.payload = None;
                    }
                    self.pending = match next_in_refresh(command) {
                        Some(next) => Action::Panel(next),
                        None => Action::Poll,
                    };
                }
                self.panel = panel;
            },
            (Action::Poll, Event::Input(Some(chunk))) => {
                self.payload = TextPayload::decode(chunk);
                self.pending = Action::Acknowledge;
            },
            (Action::Acknowledge, Event::Acknowledged) => {
                self.pending = if self.payload.is_some() {
                    Action::Panel(PanelCommand::Wake)
                } else {
                    Action::Poll
                };
            },
            _ => {},
        }
        self.pending
    }
}

/// The orchestrator starts out well-formed.
pub proof fn lemma_initial_state_is_well_formed()
    ensures
        well_formed(initial_state()),
{
}

/// No event leads out of the well-formed states. In particular, a panel
/// command is only ever asked for in the state in which it is in order:
/// a frame is transferred to a panel that was woken, and displayed by a
/// panel that holds it.
pub proof fn lemma_step_keeps_well_formed(s: RefreshState, event: Event)
    requires
        well_formed(s),
    ensures
        well_formed(step_of(s, event)),
{
}

/// The panel and the framebuffer are left alone between refreshes: while
/// the input is polled and brings nothing, nothing changes.
pub proof fn lemma_idle_poll_changes_nothing(s: RefreshState)
    requires
        s.pending == Action::Poll,
    ensures
        step_of(s, Event::Input(None)) == s,
{
}

/// Every chunk is acknowledged, whether it is text or not.
pub proof fn lemma_chunk_is_acknowledged(s: RefreshState, chunk: &[u8])
    requires
        s.pending == Action::Poll,
    ensures
        step_of(s, Event::Input(Some(chunk))).pending == Action::Acknowledge,
{
}

/// A chunk that is not well-formed UTF-8 is dropped: once it was
/// acknowledged, the input is polled again, and the panel, the framebuffer
/// and everything else are as they were before the chunk came.
pub proof fn lemma_malformed_chunk_is_dropped(s: RefreshState, chunk: &[u8])
    requires
        well_formed(s),
        s.pending == Action::Poll,
        !valid_utf8(retained(chunk@)),
    ensures
        step_of(step_of(s, Event::Input(Some(chunk))), Event::Acknowledged) == s,
{
}

/// The state after the events in `events`, one after the other.
pub open spec fn run_of(s: RefreshState, events: Seq<Event>) -> RefreshState
    decreases events.len(),
{
    if events.len() == 0 {
        s
    } else {
        step_of(run_of(s, events.drop_last()), events.last())
    }
}

/// What the loop reports during a refresh that meets no fault: the chunk,
/// the acknowledgement, and five panel commands that completed.
pub open spec fn refresh_events<'a>(chunk: &'a [u8]) -> Seq<Event<'a>> {
    seq![
        Event::Input(Some(chunk)),
        Event::Acknowledged,
        Event::Panel(Ok(())),
        Event::Panel(Ok(())),
        Event::Panel(Ok(())),
        Event::Panel(Ok(())),
        Event::Panel(Ok(())),
    ]
}

/// A chunk of text is followed by one full refresh, in order: the chunk is
/// acknowledged, the panel is woken and cleared, the frame is transferred
/// and displayed, and the panel is put to sleep. When no command fails,
/// the panel is asleep again at the end, the framebuffer holds the text's
/// layout drawn over what it held before, and the input is polled again.
pub proof fn lemma_refresh_runs_in_order(s: RefreshState, chunk: &[u8])
    requires
        well_formed(s),
        s.pending == Action::Poll,
        valid_utf8(retained(chunk@)),
    ensures
        run_of(s, refresh_events(chunk).take(1)).pending == Action::Acknowledge,
        run_of(s, refresh_events(chunk).take(2)).pending == Action::Panel(PanelCommand::Wake),
        run_of(s, refresh_events(chunk).take(3)).pending == Action::Panel(
            PanelCommand::ClearFrame,
        ),
        run_of(s, refresh_events(chunk).take(4)).pending == Action::Panel(
            PanelCommand::UpdateFrame,
        ),
        run_of(s, refresh_events(chunk).take(5)).pending == Action::Panel(
            PanelCommand::DisplayFrame,
        ),
        run_of(s, refresh_events(chunk).take(6)).pending == Action::Panel(PanelCommand::Sleep),
        run_of(s, refresh_events(chunk).take(2)).frame == s.frame,
        run_of(s, refresh_events(chunk).take(3)).frame == s.frame,
        run_of(s, refresh_events(chunk).take(4)).frame == rendered(
            s.frame,
            layout_of(retained(chunk@)),
        ),
        run_of(s, refresh_events(chunk)) == (RefreshState {
            frame: rendered(s.frame, layout_of(retained(chunk@))),
            ..s
        }),
{
    let events = refresh_events(chunk);
    assert(events.take(0) =~= Seq::<Event>::empty());
    assert(events.take(1).drop_last() =~= events.take(0));
    assert(events.take(2).drop_last() =~= events.take(1));
    assert(events.take(3).drop_last() =~= events.take(2));
    assert(events.take(4).drop_last() =~= events.take(3));
    assert(events.take(5).drop_last() =~= events.take(4));
    assert(events.take(6).drop_last() =~= events.take(5));
    assert(events.drop_last() =~= events.take(6));
    let s0 = run_of(s, events.take(0));
    let s1 = run_of(s, events.take(1));
    let s2 = run_of(s, events.take(2));
    let s3 = run_of(s, events.take(3));
    let s4 = run_of(s, events.take(4));
    let s5 = run_of(s, events.take(5));
    let s6 = run_of(s, events.take(6));
    assert(s0 == s);
    assert(s1 == step_of(s0, events[0]));
    assert(s2 == step_of(s1, events[1]));
    assert(s3 == step_of(s2, events[2]));
    assert(s4 == step_of(s3, events[3]));
    assert(s5 == step_of(s4, events[4]));
    assert(s6 == step_of(s5, events[5]));
    assert(run_of(s, events) == step_of(s6, events[6]));
}

/// A panel command that fails ends the refresh at once. The failure is on
/// record with the command and the fault, the framebuffer is as it was,
/// and the loop is told to halt.
pub proof fn lemma_fault_halts(s: RefreshState, command: PanelCommand, fault: PanelFault)
    requires
        well_formed(s),
        s.pending == Action::Panel(command),
    ensures
        step_of(s, Event::Panel(Err(fault))) == (RefreshState {
            panel: PanelState::Failed,
            pending: Action::Halt,
            failure: Some(Failure { command, fault }),
            ..s
        }),
{
}

/// Once halted, the orchestrator stays halted, whatever is reported to it.
pub proof fn lemma_halt_is_final(s: RefreshState, event: Event)
    requires
        s.pending == Action::Halt,
    ensures
        step_of(s, event) == s,
{
}

/// Refreshes do not overlap: a chunk is looked at only when the input was
/// polled, which happens only while the panel sleeps. Reported at any
/// other time, it changes nothing.
pub proof fn lemma_chunk_waits_for_poll(s: RefreshState, chunk: Option<&[u8]>)
    requires
        s.pending != Action::Poll,
    ensures
        step_of(s, Event::Input(chunk)) == s,
{
}

/// Drawing depends on nothing but the framebuffer and the payload: two
/// orchestrators with the same framebuffer that refresh with the same
/// chunk end with the same framebuffer.
pub proof fn lemma_refresh_is_repeatable(a: RefreshState, b: RefreshState, chunk: &[u8])
    requires
        well_formed(a),
        well_formed(b),
        a.pending == Action::Poll,
        b.pending == Action::Poll,
        a.frame == b.frame,
    ensures
        run_of(a, refresh_events(chunk)).frame == run_of(b, refresh_events(chunk)).frame,
{
    if valid_utf8(retained(chunk@)) {
        lemma_refresh_runs_in_order(a, chunk);
        lemma_refresh_runs_in_order(b, chunk);
    } else {
        lemma_malformed_chunk_runs_idle(a, chunk);
        lemma_malformed_chunk_runs_idle(b, chunk);
    }
}

/// After a chunk that is not text, the events of a refresh find nothing to
/// answer: the state stays as it was before the chunk.
proof fn lemma_malformed_chunk_runs_idle(s: RefreshState, chunk: &[u8])
    requires
        well_formed(s),
        s.pending == Action::Poll,
        !valid_utf8(retained(chunk@)),
    ensures
        run_of(s, refresh_events(chunk)) == s,
{
    let events = refresh_events(chunk);
    assert(events.take(0) =~= Seq::<Event>::empty());
    assert(events.take(1).drop_last() =~= events.take(0));
    assert(events.take(2).drop_last() =~= events.take(1));
    assert(events.take(3).drop_last() =~= events.take(2));
    assert(events.take(4).drop_last() =~= events.take(3));
    assert(events.take(5).drop_last() =~= events.take(4));
    assert(events.take(6).drop_last() =~= events.take(5));
    assert(events.drop_last() =~= events.take(6));
    assert(run_of(s, events.take(0)) == s);
    assert(run_of(s, events.take(1)) == step_of(s, events[0]));
    assert(run_of(s, events.take(2)) == s);
    assert(run_of(s, events.take(3)) == s);
    assert(run_of(s, events.take(4)) == s);
    assert(run_of(s, events.take(5)) == s);
    assert(run_of(s, events.take(6)) == s);
}

} // verus!
