//! The panel driver's state machine.
//!
//! The panel is driven through a fixed protocol: it is initialised once,
//! and each refresh wakes it, clears it, loads a frame, displays the frame
//! and puts the panel back to sleep. One pass from wake to sleep is one
//! session with the panel; the next refresh starts with a wake of its own.
//! The commands themselves go over the bus and are carried out by the
//! firmware loop; this module decides which command is in order and what
//! state the panel is in after it. A command that waits on the panel's
//! busy line waits a bounded number of looks, not for ever.

use vstd::prelude::*;

verus! {

/// What the panel is doing.
#[derive(Clone, Copy, Debug, PartialEq, Eq, Structural)]
pub enum PanelState {
    /// Power is on, the controller was not reset yet.
    Uninitialized,
    /// Initialised and asleep: the analog section is off.
    Ready,
    /// Powered up for a refresh.
    Awake,
    /// A frame was transferred and waits to be shown.
    FrameLoaded,
    /// The frame was shown; the panel is still powered.
    Displaying,
    /// A command failed or came out of order. Only a power cycle helps.
    Failed,
}

/// A command to the panel.
#[derive(Clone, Copy, Debug, PartialEq, Eq, Structural)]
pub enum PanelCommand {
    /// Reset the controller and check that it answers.
    Initialize,
    /// Power up the analog section.
    Wake,
    /// Fill the panel's memory with background.
    ClearFrame,
    /// Transfer the framebuffer to the panel's memory.
    UpdateFrame,
    /// Show what the panel's memory holds.
    DisplayFrame,
    /// Cut the power of the analog section.
    Sleep,
}

/// Why a command did not complete.
#[derive(Clone, Copy, Debug, PartialEq, Eq, Structural)]
pub enum PanelFault {
    /// The bus reported an error.
    Transport,
    /// The busy line did not clear in time.
    BusyTimeout,
    /// The command was not in order for the state the panel was in.
    OutOfOrder,
}

/// The state in which a command is in order.
pub open spec fn state_before(command: PanelCommand) -> PanelState {
    match command {
        PanelCommand::Initialize => PanelState::Uninitialized,
        PanelCommand::Wake => PanelState::Ready,
        PanelCommand::ClearFrame => PanelState::Awake,
        PanelCommand::UpdateFrame => PanelState::Awake,
        PanelCommand::DisplayFrame => PanelState::FrameLoaded,
        PanelCommand::Sleep => PanelState::Displaying,
    }
}

/// The state after a command that completed.
pub open spec fn state_after(command: PanelCommand) -> PanelState {
    match command {
        PanelCommand::Initialize => PanelState::Ready,
        PanelCommand::Wake => PanelState::Awake,
        PanelCommand::ClearFrame => PanelState::Awake,
        PanelCommand::UpdateFrame => PanelState::FrameLoaded,
        PanelCommand::DisplayFrame => PanelState::Displaying,
        PanelCommand::Sleep => PanelState::Ready,
    }
}

/// The state after a command was tried: the command's target if it was in
/// order and completed, and `Failed` otherwise.
pub open spec fn transition(state: PanelState, command: PanelCommand, completed: bool) -> PanelState {
    if completed && state == state_before(command) {
        state_after(command)
    } else {
        PanelState::Failed
    }
}

/// The state after a sequence of commands that all completed.
pub open spec fn run(state: PanelState, commands: Seq<PanelCommand>) -> PanelState
    decreases commands.len(),
{
    if commands.len() == 0 {
        state
    } else {
        transition(run(state, commands.drop_last()), commands.last(), true)
    }
}

/// The commands of one refresh, in order.
pub open spec fn refresh_cycle() -> Seq<PanelCommand> {
    seq![
        PanelCommand::Wake,
        PanelCommand::ClearFrame,
        PanelCommand::UpdateFrame,
        PanelCommand::DisplayFrame,
        PanelCommand::Sleep,
    ]
}

impl PanelState {
    /// Whether `command` is in order in this state.
    pub fn admits(self, command: PanelCommand) -> (ok: bool)
        ensures
            ok == (self == state_before(command)),
    {
        match (self, command) {
            (PanelState::Uninitialized, PanelCommand::Initialize) => true,
            (PanelState::Ready, PanelCommand::Wake) => true,
            (PanelState::Awake, PanelCommand::ClearFrame) => true,
            (PanelState::Awake, PanelCommand::UpdateFrame) => true,
            (PanelState::FrameLoaded, PanelCommand::DisplayFrame) => true,
            (PanelState::Displaying, PanelCommand::Sleep) => true,
            _ => false,
        }
    }

    /// The state after `command` was tried in this state and ended with
    /// `outcome`. A fault, or a command that was not in order, leaves the
    /// panel failed, and nothing leads out of that state.
    pub fn after(self, command: PanelCommand, outcome: Result<(), PanelFault>) -> (next: PanelState)
        ensures
            next == transition(self, command, outcome is Ok),
    {
        if outcome.is_ok() && self.admits(command) {
            match command {
                PanelCommand::Initialize => PanelState::Ready,
                PanelCommand::Wake => PanelState::Awake,
                PanelCommand::ClearFrame => PanelState::Awake,
                PanelCommand::UpdateFrame => PanelState::FrameLoaded,
                PanelCommand::DisplayFrame => PanelState::Displaying,
                PanelCommand::Sleep => PanelState::Ready,
            }
        } else {
            PanelState::Failed
        }
    }
}

/// The command that follows `command` within a refresh. Nothing follows
/// `Sleep`, which ends a refresh, nor `Initialize`, which is part of none.
pub open spec fn following(command: PanelCommand) -> Option<PanelCommand> {
    match command {
        PanelCommand::Initialize => None,
        PanelCommand::Wake => Some(PanelCommand::ClearFrame),
        PanelCommand::ClearFrame => Some(PanelCommand::UpdateFrame),
        PanelCommand::UpdateFrame => Some(PanelCommand::DisplayFrame),
        PanelCommand::DisplayFrame => Some(PanelCommand::Sleep),
        PanelCommand::Sleep => None,
    }
}

/// The command that follows `command` within a refresh, if any.
pub fn next_in_refresh(command: PanelCommand) -> (next: Option<PanelCommand>)
    ensures
        next == following(command),
{
    match command {
        PanelCommand::Initialize => None,
        PanelCommand::Wake => Some(PanelCommand::ClearFrame),
        PanelCommand::ClearFrame => Some(PanelCommand::UpdateFrame),
        PanelCommand::UpdateFrame => Some(PanelCommand::DisplayFrame),
        PanelCommand::DisplayFrame => Some(PanelCommand::Sleep),
        PanelCommand::Sleep => None,
    }
}

/// `following` walks through `refresh_cycle()`: each command of the cycle
/// is followed by the next one, and the last by none.
pub proof fn lemma_following_walks_the_cycle()
    ensures
        forall|i: int|
            0 <= i < refresh_cycle().len() - 1 ==> following(#[trigger] refresh_cycle()[i]) == Some(
                refresh_cycle()[i + 1],
            ),
        following(refresh_cycle().last()) == None::<PanelCommand>,
{
}

/// A refresh that meets no fault takes a sleeping panel through every
/// state of the protocol and leaves it asleep again, and each of its
/// commands is in order when its turn comes.
pub proof fn lemma_refresh_returns_to_ready()
    ensures
        run(PanelState::Ready, refresh_cycle()) == PanelState::Ready,
        forall|i: int|
            0 <= i < refresh_cycle().len() ==> run(PanelState::Ready, refresh_cycle().take(i))
                == state_before(#[trigger] refresh_cycle()[i]),
{
    let cycle = refresh_cycle();
    assert(cycle.take(0) =~= Seq::<PanelCommand>::empty());
    assert(cycle.take(1) =~= seq![PanelCommand::Wake]);
    assert(cycle.take(1).drop_last() =~= cycle.take(0));
    assert(cycle.take(2).drop_last() =~= cycle.take(1));
    assert(cycle.take(3).drop_last() =~= cycle.take(2));
    assert(cycle.take(4).drop_last() =~= cycle.take(3));
    assert(cycle.drop_last() =~= cycle.take(4));
    assert(run(PanelState::Ready, cycle.take(0)) == PanelState::Ready);
    assert(run(PanelState::Ready, cycle.take(1)) == PanelState::Awake);
    assert(run(PanelState::Ready, cycle.take(2)) == PanelState::Awake);
    assert(run(PanelState::Ready, cycle.take(3)) == PanelState::FrameLoaded);
    assert(run(PanelState::Ready, cycle.take(4)) == PanelState::Displaying);
}

/// Nothing leads out of the failed state.
pub proof fn lemma_failed_is_final(command: PanelCommand, completed: bool)
    ensures
        transition(PanelState::Failed, command, completed) == PanelState::Failed,
{
}

/// Whenever a sequence of commands runs through without a failure, the
/// state before each command is the one in which that command is in order.
pub proof fn lemma_run_admits_each(state: PanelState, commands: Seq<PanelCommand>, k: int)
    requires
        run(state, commands) != PanelState::Failed,
        0 <= k < commands.len(),
    ensures
        run(state, commands.take(k)) == state_before(commands[k]),
        run(state, commands.take(k + 1)) == state_after(commands[k]),
    decreases commands.len(),
{
    let front = commands.drop_last();
    if k == commands.len() - 1 {
        assert(commands.take(k) =~= front);
        assert(commands.take(k + 1) =~= commands);
    } else {
        lemma_run_admits_each(state, front, k);
        assert(front.take(k) =~= commands.take(k));
        assert(front.take(k + 1) =~= commands.take(k + 1));
    }
}

/// The panel is woken before any frame goes to it: in a sequence of
/// commands that runs through from a sleeping panel, every `UpdateFrame`
/// has a `Wake` before it, with nothing but `ClearFrame` in between.
pub proof fn lemma_transfer_follows_wake(commands: Seq<PanelCommand>, k: int) -> (w: int)
    requires
        run(PanelState::Ready, commands) != PanelState::Failed,
        0 <= k < commands.len(),
        commands[k] == PanelCommand::UpdateFrame,
    ensures
        0 <= w < k,
        commands[w] == PanelCommand::Wake,
        forall|j: int| w < j < k ==> commands[j] == PanelCommand::ClearFrame,
{
    lemma_run_admits_each(PanelState::Ready, commands, k);
    lemma_awake_since_wake(commands, k)
}

/// If the panel is awake before command `k` of a sequence that runs
/// through from a sleeping panel, a `Wake` came before, with nothing but
/// `ClearFrame` since.
proof fn lemma_awake_since_wake(commands: Seq<PanelCommand>, k: int) -> (w: int)
    requires
        run(PanelState::Ready, commands) != PanelState::Failed,
        0 <= k <= commands.len(),
        run(PanelState::Ready, commands.take(k)) == PanelState::Awake,
    ensures
        0 <= w < k,
        commands[w] == PanelCommand::Wake,
        forall|j: int| w < j < k ==> commands[j] == PanelCommand::ClearFrame,
    decreases k,
{
    if k == 0 {
        assert(commands.take(0) =~= Seq::<PanelCommand>::empty());
        0
    } else {
        lemma_run_admits_each(PanelState::Ready, commands, k - 1);
        if commands[k - 1] == PanelCommand::Wake {
            k - 1
        } else {
            lemma_awake_since_wake(commands, k - 1)
        }
    }
}

/// The panel is put to sleep after a frame was shown: in a sequence of
/// commands that runs through, nothing but `Sleep` follows a `DisplayFrame`.
pub proof fn lemma_sleep_follows_display(state: PanelState, commands: Seq<PanelCommand>, k: int)
    requires
        run(state, commands) != PanelState::Failed,
        0 <= k < commands.len() - 1,
        commands[k] == PanelCommand::DisplayFrame,
    ensures
        commands[k + 1] == PanelCommand::Sleep,
{
    lemma_run_admits_each(state, commands, k);
    lemma_run_admits_each(state, commands, k + 1);
}

/// What one look at the busy line means for a command that waits on it.
#[derive(Clone, Copy, Debug, PartialEq, Eq, Structural)]
pub enum BusyStatus {
    /// The panel is idle: the command may go on.
    Idle,
    /// The panel is busy: look again.
    Busy,
    /// The panel was busy for too long: the command fails with `PanelFault::BusyTimeout`.
    TimedOut,
}

/// What a look at the busy line means after `polls` earlier looks found
/// the panel busy, when `limit` such looks are tolerated.
pub open spec fn busy_status(limit: nat, polls: nat, busy: bool) -> BusyStatus {
    if !busy {
        BusyStatus::Idle
    } else if polls < limit {
        BusyStatus::Busy
    } else {
        BusyStatus::TimedOut
    }
}

/// The number of looks that count as spent after one more look.
pub open spec fn polls_after(limit: nat, polls: nat, busy: bool) -> nat {
    if busy && polls < limit {
        polls + 1
    } else {
        polls
    }
}

/// The number of looks spent after the line was sampled as in `samples`,
/// one look per sample, starting with none spent.
pub open spec fn polls_spent(limit: nat, samples: Seq<bool>) -> nat
    decreases samples.len(),
{
    if samples.len() == 0 {
        0
    } else {
        polls_after(limit, polls_spent(limit, samples.drop_last()), samples.last())
    }
}

/// A wait on the busy line that gives up after a fixed number of looks.
pub struct BusyWait {
    limit: u32,
    polls: u32,
}

impl BusyWait {
    #[verifier::type_invariant]
    spec fn within_limit(self) -> bool {
        self.polls <= self.limit
    }

    /// How many looks may find the panel busy before the wait gives up.
    pub closed spec fn limit(&self) -> nat {
        self.limit as nat
    }

    /// How many looks found the panel busy so far.
    pub closed spec fn polls(&self) -> nat {
        self.polls as nat
    }

    /// A wait that tolerates `limit` looks at a busy panel.
    pub fn new(limit: u32) -> (wait: BusyWait)
        ensures
            wait.limit() == limit,
            wait.polls() == 0,
    {
        BusyWait { limit, polls: 0 }
    }

    /// Takes one sample of the busy line into account. An idle panel ends
    /// the wait; a busy one costs one look, until none is left.
    pub fn observe(&mut self, busy: bool) -> (status: BusyStatus)
        ensures
            status == busy_status(old(self).limit(), old(self).polls(), busy),
            final(self).polls() == polls_after(old(self).limit(), old(self).polls(), busy),
            final(self).limit() == old(self).limit(),
    {
        proof {
            use_type_invariant(&*self);
        }
        if !busy {
            BusyStatus::Idle
        } else if self.polls < self.limit {
            self.polls = self.polls + 1;
            BusyStatus::Busy
        } else {
            BusyStatus::TimedOut
        }
    }
}

/// While the panel stays busy, every look is counted, up to the limit.
pub proof fn lemma_polls_spent_while_busy(limit: nat, samples: Seq<bool>)
    requires
        forall|i: int| 0 <= i < samples.len() ==> samples[i],
    ensures
        polls_spent(limit, samples) == if samples.len() <= limit {
            samples.len()
        } else {
            limit
        },
    decreases samples.len(),
{
    if samples.len() > 0 {
        lemma_polls_spent_while_busy(limit, samples.drop_last());
    }
}

/// A wait is bounded: while the panel stays busy, the first `limit` looks
/// say `Busy`, and the look after them says `TimedOut`.
pub proof fn lemma_wait_times_out(limit: nat, samples: Seq<bool>)
    requires
        forall|i: int| 0 <= i < samples.len() ==> samples[i],
    ensures
        samples.len() < limit ==> busy_status(limit, polls_spent(limit, samples), true)
            == BusyStatus::Busy,
        samples.len() >= limit ==> busy_status(limit, polls_spent(limit, samples), true)
            == BusyStatus::TimedOut,
{
    lemma_polls_spent_while_busy(limit, samples);
}

} // verus!
