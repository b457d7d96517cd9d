//! The conflict-safe writer as a state machine. The caller performs each
//! action on the file system and reports its outcome as the next event; the
//! machine decides what comes next.

use crate::gate::Gate;
use crate::gate::PromptAnswer;
use crate::matcher::MatchedFile;
use crate::path::join_path;
use crate::path::joined;
use vstd::prelude::*;

verus! {

/// The report that the machine is waiting for.
#[derive(Clone, Copy, Debug, PartialEq, Eq, Structural)]
pub enum Awaiting {
    /// Whether the destination root exists.
    RootCheck,
    /// The reply to the creation prompt.
    Answer,
    /// Whether the destination root could be created.
    Creation,
    /// Whether something already stands at the target of the current file.
    TargetCheck,
    /// That the current file has been written or its warning given.
    Completion,
    /// Nothing: the run is over.
    Nothing,
}

/// The writer between two actions: its gate, the index of the matched file
/// in hand, and the report that is due.
#[derive(Clone, Copy, Debug, PartialEq, Eq, Structural)]
pub struct WriterState {
    pub gate: Gate,
    pub cursor: usize,
    pub awaiting: Awaiting,
}

/// What the caller reports back.
#[derive(Clone, Copy, Debug, PartialEq, Eq, Structural)]
pub enum Event {
    RootChecked(bool),
    Answered(PromptAnswer),
    RootCreated(bool),
    TargetChecked(bool),
    Completed,
}

/// What the caller is asked to do. An index names a matched file by its
/// position in the collection.
#[derive(Clone, Copy, Debug, PartialEq, Eq, Structural)]
pub enum Action {
    /// Look whether the destination root exists.
    CheckRoot,
    /// Ask whether the destination root shall be created.
    Prompt,
    /// Create the destination root with its missing parents.
    CreateRoot,
    /// End the run with a failure status.
    Abort,
    /// Look whether anything stands at the target of this file.
    CheckTarget(usize),
    /// Warn that this file's target is taken, and leave the target alone.
    Skip(usize),
    /// Create this file's target, failing if it exists, and write its text.
    Write(usize),
    /// End the run: every matched file has been dealt with.
    Finish,
    /// The event was not the one that was due; nothing changed.
    Rejected,
}

impl WriterState {
    /// The state is one that a run over `count` matched files can be in.
    pub open spec fn wf(self, count: usize) -> bool {
        &&& self.cursor <= count
        &&& match self.awaiting {
            Awaiting::RootCheck => self.gate == Gate::Unchecked && self.cursor == 0 && count > 0,
            Awaiting::Answer | Awaiting::Creation => self.gate == Gate::PromptedCreate
                && self.cursor == 0 && count > 0,
            Awaiting::TargetCheck | Awaiting::Completion => self.gate.is_open() && self.cursor
                < count,
            Awaiting::Nothing => self.gate == Gate::Aborted || self.cursor == count,
        }
    }

    /// Whether the state is one that a run over `count` matched files can be
    /// in.
    pub fn well_formed(&self, count: usize) -> (ok: bool)
        ensures
            ok == self.wf(count),
    {
        match self.awaiting {
            Awaiting::RootCheck => self.gate == Gate::Unchecked && self.cursor == 0 && count > 0,
            Awaiting::Answer => self.gate == Gate::PromptedCreate && self.cursor == 0 && count > 0,
            Awaiting::Creation => self.gate == Gate::PromptedCreate && self.cursor == 0 && count
                > 0,
            Awaiting::TargetCheck => self.gate.open() && self.cursor < count,
            Awaiting::Completion => self.gate.open() && self.cursor < count,
            Awaiting::Nothing => self.cursor <= count && (self.gate == Gate::Aborted
                || self.cursor == count),
        }
    }
}

/// The state and the first action of a run over `count` matched files. With
/// no matched file the run is over at once and the destination is never asked
/// for.
pub open spec fn start_of(count: usize) -> (WriterState, Action) {
    if count == 0 {
        (WriterState { gate: Gate::Unchecked, cursor: 0, awaiting: Awaiting::Nothing }, Action::Finish)
    } else {
        (
            WriterState { gate: Gate::Unchecked, cursor: 0, awaiting: Awaiting::RootCheck },
            Action::CheckRoot,
        )
    }
}

/// The state and the action that follow an event.
///
/// The event that is due moves the machine on; any other is rejected, and so
/// is every event once no matched file is left, or in a state that no run
/// can be in.
pub open spec fn next(state: WriterState, event: Event, count: usize) -> (WriterState, Action) {
    let rejected = (state, Action::Rejected);
    if state.cursor >= count || !state.wf(count) {
        rejected
    } else {
        match (state.awaiting, event) {
            (Awaiting::RootCheck, Event::RootChecked(exists)) => if exists {
                (
                    WriterState { gate: Gate::Exists, awaiting: Awaiting::TargetCheck, ..state },
                    Action::CheckTarget(state.cursor),
                )
            } else {
                (
                    WriterState { gate: Gate::PromptedCreate, awaiting: Awaiting::Answer, ..state },
                    Action::Prompt,
                )
            },
            (Awaiting::Answer, Event::Answered(answer)) => match answer {
                PromptAnswer::Affirmative => (
                    WriterState { awaiting: Awaiting::Creation, ..state },
                    Action::CreateRoot,
                ),
                PromptAnswer::Negative | PromptAnswer::Cancel => (
                    WriterState { gate: Gate::Aborted, awaiting: Awaiting::Nothing, ..state },
                    Action::Abort,
                ),
                PromptAnswer::Unrecognized => (state, Action::Prompt),
            },
            (Awaiting::Creation, Event::RootCreated(created)) => if created {
                (
                    WriterState { gate: Gate::Created, awaiting: Awaiting::TargetCheck, ..state },
                    Action::CheckTarget(state.cursor),
                )
            } else {
                (
                    WriterState { gate: Gate::Aborted, awaiting: Awaiting::Nothing, ..state },
                    Action::Abort,
                )
            },
            (Awaiting::TargetCheck, Event::TargetChecked(taken)) => if taken {
                (
                    WriterState { awaiting: Awaiting::Completion, ..state },
                    Action::Skip(state.cursor),
                )
            } else {
                (
                    WriterState { awaiting: Awaiting::Completion, ..state },
                    Action::Write(state.cursor),
                )
            },
            (Awaiting::Completion, Event::Completed) => if state.cursor + 1 < count {
                (
                    WriterState {
                        cursor: (state.cursor + 1) as usize,
                        awaiting: Awaiting::TargetCheck,
                        ..state
                    },
                    Action::CheckTarget((state.cursor + 1) as usize),
                )
            } else {
                (
                    WriterState {
                        cursor: (state.cursor + 1) as usize,
                        awaiting: Awaiting::Nothing,
                        ..state
                    },
                    Action::Finish,
                )
            },
            _ => rejected,
        }
    }
}

/// Begins a run over `count` matched files.
pub fn start(count: usize) -> (begun: (WriterState, Action))
    ensures
        begun == start_of(count),
        begun.0.wf(count),
{
    if count == 0 {
        (WriterState { gate: Gate::Unchecked, cursor: 0, awaiting: Awaiting::Nothing }, Action::Finish)
    } else {
        (
            WriterState { gate: Gate::Unchecked, cursor: 0, awaiting: Awaiting::RootCheck },
            Action::CheckRoot,
        )
    }
}

/// Takes the report of the last action and says what to do next.
///
/// An event that is not the one due is rejected and changes nothing. A write
/// is only ever asked for after a target check that found nothing, with an
/// open gate, and for the file in hand.
pub fn step(state: WriterState, event: Event, count: usize) -> (after: (WriterState, Action))
    ensures
        after == next(state, event, count),
        state.wf(count) ==> after.0.wf(count),
        after.1 is Write ==> event == Event::TargetChecked(false) && state.gate.is_open()
            && after.1 == Action::Write(state.cursor) && state.cursor < count,
        after.1 is Skip ==> event == Event::TargetChecked(true) && after.1 == Action::Skip(
            state.cursor,
        ),
{
    let rejected = (state, Action::Rejected);
    if state.cursor >= count || !state.well_formed(count) {
        return rejected;
    }
    let gate = state.gate;
    let cursor: usize = state.cursor;
    match (state.awaiting, event) {
        (Awaiting::RootCheck, Event::RootChecked(true)) => (
            WriterState { gate: Gate::Exists, cursor, awaiting: Awaiting::TargetCheck },
            Action::CheckTarget(cursor),
        ),
        (Awaiting::RootCheck, Event::RootChecked(false)) => (
            WriterState { gate: Gate::PromptedCreate, cursor, awaiting: Awaiting::Answer },
            Action::Prompt,
        ),
        (Awaiting::Answer, Event::Answered(PromptAnswer::Affirmative)) => (
            WriterState { gate, cursor, awaiting: Awaiting::Creation },
            Action::CreateRoot,
        ),
        (Awaiting::Answer, Event::Answered(PromptAnswer::Unrecognized)) => (state, Action::Prompt),
        (Awaiting::Answer, Event::Answered(_)) => (
            WriterState { gate: Gate::Aborted, cursor, awaiting: Awaiting::Nothing },
            Action::Abort,
        ),
        (Awaiting::Creation, Event::RootCreated(true)) => (
            WriterState { gate: Gate::Created, cursor, awaiting: Awaiting::TargetCheck },
            Action::CheckTarget(cursor),
        ),
        (Awaiting::Creation, Event::RootCreated(false)) => (
            WriterState { gate: Gate::Aborted, cursor, awaiting: Awaiting::Nothing },
            Action::Abort,
        ),
        (Awaiting::TargetCheck, Event::TargetChecked(true)) => (
            WriterState { gate, cursor, awaiting: Awaiting::Completion },
            Action::Skip(cursor),
        ),
        (Awaiting::TargetCheck, Event::TargetChecked(false)) => (
            WriterState { gate, cursor, awaiting: Awaiting::Completion },
            Action::Write(cursor),
        ),
        (Awaiting::Completion, Event::Completed) => {
            let following: usize = cursor + 1;
            if following < count {
                (
                    WriterState { gate, cursor: following, awaiting: Awaiting::TargetCheck },
                    Action::CheckTarget(following),
                )
            } else {
                (
                    WriterState { gate, cursor: following, awaiting: Awaiting::Nothing },
                    Action::Finish,
                )
            }
        },
        _ => rejected,
    }
}

/// The state of a run over `count` matched files once the caller has
/// reported `events`, in order.
pub open spec fn state_after(count: usize, events: Seq<Event>) -> WriterState
    decreases events.len(),
{
    if events.len() == 0 {
        start_of(count).0
    } else {
        next(state_after(count, events.drop_last()), events.last(), count).0
    }
}

/// The action that the machine asked for last in such a run: the first
/// action where nothing has been reported yet, else the answer to the last
/// event.
pub open spec fn action_after(count: usize, events: Seq<Event>) -> Action {
    if events.len() == 0 {
        start_of(count).1
    } else {
        next(state_after(count, events.drop_last()), events.last(), count).1
    }
}

/// The matched file that an action settles, by writing it or by skipping it.
pub open spec fn settled(action: Action) -> Option<usize> {
    match action {
        Action::Write(index) => Some(index),
        Action::Skip(index) => Some(index),
        _ => None,
    }
}

/// Whether an action consults the destination gate.
pub open spec fn consults_gate(action: Action) -> bool {
    action == Action::CheckRoot || action == Action::Prompt || action == Action::CreateRoot
}

/// Whatever the caller reports, the machine stays in a well-formed state.
pub proof fn run_stays_well_formed(count: usize, events: Seq<Event>)
    ensures
        state_after(count, events).wf(count),
    decreases events.len(),
{
    if events.len() > 0 {
        run_stays_well_formed(count, events.drop_last());
    }
}

/// With no matched file the run is over before it begins: the first action
/// is `Finish`, every report is rejected, and so the destination is never asked for
/// and no prompt is shown.
pub proof fn no_match_never_consults_gate(events: Seq<Event>)
    ensures
        state_after(0, events) == start_of(0).0,
        state_after(0, events).gate == Gate::Unchecked,
        events.len() == 0 ==> action_after(0, events) == Action::Finish,
        events.len() > 0 ==> action_after(0, events) == Action::Rejected,
        !consults_gate(action_after(0, events)),
        !(action_after(0, events) is Write),
    decreases events.len(),
{
    if events.len() > 0 {
        no_match_never_consults_gate(events.drop_last());
    }
}

/// A write is only ever asked for in answer to a target check that found
/// nothing there, for the matched file in hand, and with an open gate.
pub proof fn write_needs_free_target(count: usize, events: Seq<Event>, index: usize)
    requires
        action_after(count, events) == Action::Write(index),
    ensures
        events.len() > 0,
        events.last() == Event::TargetChecked(false),
        index == state_after(count, events.drop_last()).cursor,
        index < count,
        state_after(count, events).gate.is_open(),
{
    if events.len() > 0 {
        run_stays_well_formed(count, events.drop_last());
    }
}

/// A gate moves only along its own edges: from unchecked to existing or
/// to prompted, from prompted to created or to aborted; everything else
/// leaves it where it is.
pub proof fn gate_moves_along_its_edges(state: WriterState, event: Event, count: usize)
    ensures
        ({
            let before = state.gate;
            let after = next(state, event, count).0.gate;
            ||| after == before
            ||| before == Gate::Unchecked && (after == Gate::Exists || after
                == Gate::PromptedCreate)
            ||| before == Gate::PromptedCreate && (after == Gate::Created || after
                == Gate::Aborted)
        }),
{
}

/// Once the destination exists or has been created, the question is settled
/// for the rest of the run: no later action looks for the root, prompts or
/// creates it, and no later event closes it again.
pub proof fn open_gate_is_not_asked_again(state: WriterState, event: Event, count: usize)
    requires
        state.gate.is_open(),
    ensures
        next(state, event, count).0.gate == state.gate,
        !consults_gate(next(state, event, count).1),
        next(state, event, count).1 != Action::Abort,
{
}

/// Declining or cancelling at the prompt aborts the run, and an aborted run
/// rejects every further report.
pub proof fn decline_aborts(state: WriterState, answer: PromptAnswer, later: Event, count: usize)
    requires
        state.wf(count),
        state.awaiting == Awaiting::Answer,
        answer == PromptAnswer::Negative || answer == PromptAnswer::Cancel,
    ensures
        next(state, Event::Answered(answer), count).1 == Action::Abort,
        next(state, Event::Answered(answer), count).0.gate == Gate::Aborted,
        next(next(state, Event::Answered(answer), count).0, later, count) == (
            next(state, Event::Answered(answer), count).0,
            Action::Rejected,
        ),
{
}

/// As long as its gate has not opened, a run has asked for no write: in a
/// run that ends with its gate unchecked, prompted or aborted, none of the
/// actions so far is a write.
pub proof fn closed_gate_writes_nothing(count: usize, events: Seq<Event>)
    requires
        !state_after(count, events).gate.is_open(),
    ensures
        forall|k: int|
            0 <= k <= events.len() ==> !(#[trigger] action_after(count, events.take(k)) is Write),
    decreases events.len(),
{
    run_stays_well_formed(count, events);
    if events.len() == 0 {
        assert forall|k: int| 0 <= k <= events.len() implies !(#[trigger] action_after(
            count,
            events.take(k),
        ) is Write) by {
            assert(events.take(k) =~= events);
        }
    } else {
        let earlier = events.drop_last();
        run_stays_well_formed(count, earlier);
        closed_gate_writes_nothing(count, earlier);
        assert forall|k: int| 0 <= k <= events.len() implies !(#[trigger] action_after(
            count,
            events.take(k),
        ) is Write) by {
            if k == events.len() {
                assert(events.take(k) =~= events);
            } else {
                assert(events.take(k) =~= earlier.take(k));
            }
        }
    }
}

/// Where every target check finds the target taken, as in a second run
/// after a first, no write is asked for at all.
pub proof fn taken_targets_are_never_written(count: usize, events: Seq<Event>)
    requires
        forall|j: int|
            0 <= j < events.len() && (#[trigger] events[j]) is TargetChecked ==> events[j]
                == Event::TargetChecked(true),
    ensures
        forall|k: int|
            0 <= k <= events.len() ==> !(#[trigger] action_after(count, events.take(k)) is Write),
{
    assert forall|k: int| 0 <= k <= events.len() implies !(#[trigger] action_after(
        count,
        events.take(k),
    ) is Write) by {
        let prefix = events.take(k);
        if action_after(count, prefix) is Write {
            let index = action_after(count, prefix)->Write_0;
            write_needs_free_target(count, prefix, index);
            assert(prefix.last() == events[k - 1]);
        }
    }
}

/// Every matched file that has been settled lies behind the cursor, or is
/// the file in hand while its completion is due.
proof fn settled_behind_cursor(count: usize, events: Seq<Event>)
    ensures
        forall|k: int|
            0 <= k <= events.len() ==> match settled(
                #[trigger] action_after(count, events.take(k)),
            ) {
                Some(index) => index < state_after(count, events).cursor || (index
                    == state_after(count, events).cursor && state_after(count, events).awaiting
                    == Awaiting::Completion),
                None => true,
            },
    decreases events.len(),
{
    if events.len() == 0 {
        assert forall|k: int| 0 <= k <= events.len() implies settled(
            #[trigger] action_after(count, events.take(k)),
        ) is None by {
            assert(events.take(k) =~= events);
        }
    } else {
        let earlier = events.drop_last();
        run_stays_well_formed(count, earlier);
        settled_behind_cursor(count, earlier);
        assert forall|k: int| 0 <= k <= events.len() implies match settled(
            #[trigger] action_after(count, events.take(k)),
        ) {
            Some(index) => index < state_after(count, events).cursor || (index == state_after(
                count,
                events,
            ).cursor && state_after(count, events).awaiting == Awaiting::Completion),
            None => true,
        } by {
            if k == events.len() {
                assert(events.take(k) =~= events);
            } else {
                assert(events.take(k) =~= earlier.take(k));
            }
        }
    }
}

/// Matched files are settled one by one in the order of the collection, each
/// at most once: of two actions that settle a file, the later one settles a
/// later file.
pub proof fn each_file_settled_once(
    count: usize,
    events: Seq<Event>,
    first: int,
    second: int,
)
    requires
        0 <= first < second <= events.len(),
        settled(action_after(count, events.take(first))) is Some,
        settled(action_after(count, events.take(second))) is Some,
    ensures
        settled(action_after(count, events.take(first)))->Some_0 < settled(
            action_after(count, events.take(second)),
        )->Some_0,
        settled(action_after(count, events.take(second)))->Some_0 < count,
{
    let upto = events.take(second);
    let earlier = upto.drop_last();
    run_stays_well_formed(count, earlier);
    settled_behind_cursor(count, earlier);
    assert(earlier.take(first) =~= events.take(first));
}

/// Where a matched file is written: directly under the destination root,
/// under its own file name, whatever directory it was found in.
pub fn target_path(root: &str, separator: &str, file: &MatchedFile) -> (path: String)
    ensures
        path@ == joined(root@, separator@, file.name@),
{
    join_path(root, separator, file.name.as_str())
}

} // verus!
