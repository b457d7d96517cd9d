//! What a run does to its surroundings, stated over a model of them: the
//! destination directory as a map from file name to text, whether the
//! destination root exists, and the replies that the user will give. The
//! model follows the writer through a run in which every report is true of
//! the surroundings, and says how the run ends and what the directory holds
//! afterwards.

use crate::gate::Gate;
use crate::gate::PromptAnswer;
use crate::matcher::file_matches;
use crate::matcher::match_of;
use crate::matcher::rank;
use crate::matcher::scanned;
use crate::matcher::scanned_holds_each_match;
use crate::matcher::scanned_holds_only_matches;
use crate::matcher::CandidateFile;
use crate::matcher::MatchedFileView;
use crate::writer::next;
use crate::writer::start_of;
use crate::writer::Action;
use crate::writer::Awaiting;
use crate::writer::Event;
use crate::writer::WriterState;
use regex::Regex;
use vstd::prelude::*;

verus! {

/// The directory after one matched file has been dealt with: a name that is
/// taken keeps its text, a free name gets the file's text.
pub open spec fn settle_one(
    dir: Map<Seq<char>, Seq<char>>,
    file: MatchedFileView,
) -> Map<Seq<char>, Seq<char>> {
    if dir.contains_key(file.name) {
        dir
    } else {
        dir.insert(file.name, file.content)
    }
}

/// The directory after the matched files from position `from` on have been
/// dealt with, in order.
pub open spec fn written_from(
    files: Seq<MatchedFileView>,
    dir: Map<Seq<char>, Seq<char>>,
    from: nat,
) -> Map<Seq<char>, Seq<char>>
    decreases files.len() - from,
{
    if from >= files.len() {
        dir
    } else {
        written_from(files, settle_one(dir, files[from as int]), from + 1)
    }
}

/// The surroundings of a run.
pub struct World {
    /// Whether the destination root exists.
    pub root_exists: bool,
    /// Whether creating the destination root will succeed.
    pub root_can_be_created: bool,
    /// The files directly under the destination root, by name.
    pub dir: Map<Seq<char>, Seq<char>>,
    /// The replies that the user has yet to give, as they will be understood.
    pub replies: Seq<PromptAnswer>,
}

/// The true report of an action: what the surroundings answer to a check
/// or a prompt, and that a write or a warning has been completed.
pub open spec fn report(files: Seq<MatchedFileView>, world: World, action: Action) -> Event {
    match action {
        Action::CheckRoot => Event::RootChecked(world.root_exists),
        Action::Prompt => Event::Answered(world.replies.first()),
        Action::CreateRoot => Event::RootCreated(world.root_can_be_created),
        Action::CheckTarget(index) => Event::TargetChecked(
            index < files.len() && world.dir.contains_key(files[index as int].name),
        ),
        _ => Event::Completed,
    }
}

/// What carrying out an action does to the surroundings: a prompt uses up a
/// reply, creating the root makes it exist where that can succeed, a write
/// puts the file's text under its name unless the name is taken, and nothing
/// else changes anything.
pub open spec fn effect(files: Seq<MatchedFileView>, world: World, action: Action) -> World {
    match action {
        Action::Prompt => World { replies: world.replies.drop_first(), ..world },
        Action::CreateRoot => World {
            root_exists: world.root_exists || world.root_can_be_created,
            ..world
        },
        Action::Write(index) => if index < files.len() {
            World { dir: settle_one(world.dir, files[index as int]), ..world }
        } else {
            world
        },
        _ => world,
    }
}

/// Whether an action can be carried out and reported: the run is not over,
/// and a prompt finds a reply.
pub open spec fn playable(world: World, action: Action) -> bool {
    match action {
        Action::Finish | Action::Abort | Action::Rejected => false,
        Action::Prompt => world.replies.len() > 0,
        _ => true,
    }
}

/// Plays a run: carries out each action on the surroundings, reports truly,
/// and goes on until the run is over, the replies have run out, or `rounds`
/// actions have been played.
pub open spec fn play(
    files: Seq<MatchedFileView>,
    state: WriterState,
    action: Action,
    world: World,
    rounds: nat,
) -> (WriterState, Action, World)
    decreases rounds,
{
    if rounds == 0 || !playable(world, action) {
        (state, action, world)
    } else {
        let after = next(state, report(files, world, action), files.len() as usize);
        play(files, after.0, after.1, effect(files, world, action), (rounds - 1) as nat)
    }
}

/// Plays a run from its beginning.
pub open spec fn play_run(files: Seq<MatchedFileView>, world: World, rounds: nat) -> (
    WriterState,
    Action,
    World,
) {
    play(
        files,
        start_of(files.len() as usize).0,
        start_of(files.len() as usize).1,
        world,
        rounds,
    )
}

/// A file that stands in the destination before the write phase stands there
/// afterwards with the same text: nothing is overwritten or removed.
pub proof fn written_keeps_what_was_there(
    files: Seq<MatchedFileView>,
    dir: Map<Seq<char>, Seq<char>>,
    from: nat,
    name: Seq<char>,
)
    requires
        dir.contains_key(name),
    ensures
        written_from(files, dir, from).contains_key(name),
        written_from(files, dir, from)[name] == dir[name],
    decreases files.len() - from,
{
    if from < files.len() {
        written_keeps_what_was_there(files, settle_one(dir, files[from as int]), from + 1, name);
    }
}

/// A file that the write phase adds carries the name of a matched file and
/// the text of the first matched file of that name: no other file appears.
pub proof fn written_adds_only_matches(
    files: Seq<MatchedFileView>,
    dir: Map<Seq<char>, Seq<char>>,
    from: nat,
    name: Seq<char>,
) -> (i: int)
    requires
        !dir.contains_key(name),
        written_from(files, dir, from).contains_key(name),
    ensures
        from <= i < files.len(),
        files[i].name == name,
        written_from(files, dir, from)[name] == files[i].content,
        forall|j: int| from <= j < i ==> (#[trigger] files[j]).name != name,
    decreases files.len() - from,
{
    let first = files[from as int];
    if first.name == name {
        written_keeps_what_was_there(files, settle_one(dir, first), from + 1, name);
        from as int
    } else {
        written_adds_only_matches(files, settle_one(dir, first), from + 1, name)
    }
}

/// After the write phase every matched file has a file of its name in the
/// destination.
pub proof fn written_holds_each_match(
    files: Seq<MatchedFileView>,
    dir: Map<Seq<char>, Seq<char>>,
    from: nat,
    i: int,
)
    requires
        from <= i < files.len(),
    ensures
        written_from(files, dir, from).contains_key(files[i].name),
    decreases files.len() - from,
{
    let settled = settle_one(dir, files[from as int]);
    if i == from {
        written_keeps_what_was_there(files, settled, from + 1, files[i].name);
    } else {
        written_holds_each_match(files, settled, from + 1, i);
    }
}

/// A matched file whose name is free in the destination, and which is the
/// first matched file of that name, is written with its own text.
pub proof fn written_has_first_match_text(
    files: Seq<MatchedFileView>,
    dir: Map<Seq<char>, Seq<char>>,
    i: int,
)
    requires
        0 <= i < files.len(),
        !dir.contains_key(files[i].name),
        forall|j: int| 0 <= j < i ==> (#[trigger] files[j]).name != files[i].name,
    ensures
        written_from(files, dir, 0).contains_key(files[i].name),
        written_from(files, dir, 0)[files[i].name] == files[i].content,
{
    written_holds_each_match(files, dir, 0, i);
    let first = written_adds_only_matches(files, dir, 0, files[i].name);
    assert(first == i);
}

/// Scanning and writing together add nothing for a file that does not
/// match: a name that appears in the destination belongs to a candidate that
/// matches, and the text under it is that candidate's text with the matches
/// replaced.
pub proof fn only_matching_files_are_copied(
    re: Regex,
    replacement: Seq<char>,
    candidates: Seq<CandidateFile>,
    dir: Map<Seq<char>, Seq<char>>,
    name: Seq<char>,
) -> (i: int)
    requires
        !dir.contains_key(name),
        written_from(scanned(re, replacement, candidates), dir, 0).contains_key(name),
    ensures
        0 <= i < candidates.len(),
        file_matches(re, candidates[i]),
        candidates[i].name@ == name,
        written_from(scanned(re, replacement, candidates), dir, 0)[name] == match_of(
            re,
            replacement,
            candidates[i],
        ).content,
{
    let records = scanned(re, replacement, candidates);
    let j = written_adds_only_matches(records, dir, 0, name);
    scanned_holds_only_matches(re, replacement, candidates, j)
}

/// Scanning and writing together leave, for every candidate that matches, a
/// file of its name in the destination.
pub proof fn each_matching_file_is_copied(
    re: Regex,
    replacement: Seq<char>,
    candidates: Seq<CandidateFile>,
    dir: Map<Seq<char>, Seq<char>>,
    i: int,
)
    requires
        0 <= i < candidates.len(),
        file_matches(re, candidates[i]),
    ensures
        written_from(scanned(re, replacement, candidates), dir, 0).contains_key(
            candidates[i].name@,
        ),
{
    let records = scanned(re, replacement, candidates);
    scanned_holds_each_match(re, replacement, candidates, i);
    written_holds_each_match(records, dir, 0, rank(re, replacement, candidates, i) as int);
}

/// Where every matched file's name is taken already, the write phase leaves
/// the destination as it is.
pub proof fn written_over_taken_names_changes_nothing(
    files: Seq<MatchedFileView>,
    dir: Map<Seq<char>, Seq<char>>,
    from: nat,
)
    requires
        forall|i: int| from <= i < files.len() ==> dir.contains_key((#[trigger] files[i]).name),
    ensures
        written_from(files, dir, from) == dir,
    decreases files.len() - from,
{
    if from < files.len() {
        assert(dir.contains_key(files[from as int].name));
        written_over_taken_names_changes_nothing(files, dir, from + 1);
    }
}

/// Running the write phase a second time over the result of the first
/// changes nothing: every matched file is skipped and the destination is
/// what the first run left.
pub proof fn second_run_changes_nothing(
    files: Seq<MatchedFileView>,
    dir: Map<Seq<char>, Seq<char>>,
)
    ensures
        written_from(files, written_from(files, dir, 0), 0) == written_from(files, dir, 0),
{
    let once = written_from(files, dir, 0);
    assert forall|i: int| 0 <= i < files.len() implies once.contains_key(
        (#[trigger] files[i]).name,
    ) by {
        written_holds_each_match(files, dir, 0, i);
    }
    written_over_taken_names_changes_nothing(files, once, 0);
}

/// A writer whose gate is open and who is about to check the target of the
/// file in hand, played with true reports, deals with every remaining file,
/// ends with `Finish`, and leaves the directory that `written_from`
/// describes. Nothing else in the surroundings changes.
pub proof fn play_settles_every_file(
    files: Seq<MatchedFileView>,
    state: WriterState,
    world: World,
    rounds: nat,
)
    requires
        files.len() <= usize::MAX,
        state.wf(files.len() as usize),
        state.awaiting == Awaiting::TargetCheck,
        rounds >= 2 * (files.len() - state.cursor),
    ensures
        play(files, state, Action::CheckTarget(state.cursor), world, rounds) == (
            WriterState {
                gate: state.gate,
                cursor: files.len() as usize,
                awaiting: Awaiting::Nothing,
            },
            Action::Finish,
            World { dir: written_from(files, world.dir, state.cursor as nat), ..world },
        ),
    decreases files.len() - state.cursor,
{
    let count = files.len() as usize;
    let file = files[state.cursor as int];
    let check = Action::CheckTarget(state.cursor);
    let checked = next(state, report(files, world, check), count);
    let settled = effect(files, world, checked.1);
    let completed = next(checked.0, report(files, world, checked.1), count);
    reveal_with_fuel(play, 3);
    assert(settled == World { dir: settle_one(world.dir, file), ..world });
    assert(play(files, state, check, world, rounds) == play(
        files,
        completed.0,
        completed.1,
        settled,
        (rounds - 2) as nat,
    ));
    if state.cursor + 1 < count {
        play_settles_every_file(files, completed.0, settled, (rounds - 2) as nat);
    } else {
        assert(written_from(files, settled.dir, (state.cursor + 1) as nat) == settled.dir);
    }
}

/// With no matched file the run ends at once and leaves its surroundings
/// untouched: the destination root is not looked for, not created, and no
/// reply is asked for.
pub proof fn run_without_matches_touches_nothing(world: World, rounds: nat)
    ensures
        play_run(Seq::empty(), world, rounds) == (start_of(0).0, Action::Finish, world),
{
    reveal_with_fuel(play, 1);
}

/// Where the destination root exists, the run ends with `Finish`, asks for
/// no reply, and leaves in the destination what `written_from` describes.
pub proof fn run_with_existing_root(files: Seq<MatchedFileView>, world: World, rounds: nat)
    requires
        files.len() <= usize::MAX,
        world.root_exists,
        rounds >= 2 * files.len() + 1,
    ensures
        play_run(files, world, rounds).1 == Action::Finish,
        play_run(files, world, rounds).2 == (World {
            dir: written_from(files, world.dir, 0),
            ..world
        }),
{
    let count = files.len() as usize;
    reveal_with_fuel(play, 2);
    if files.len() > 0 {
        let checked = next(start_of(count).0, Event::RootChecked(true), count);
        play_settles_every_file(files, checked.0, world, (rounds - 1) as nat);
    }
}

/// A second run over the same matched files writes nothing. Played in the
/// surroundings that a finished first run leaves, where the root exists and
/// the directory is what that run made of the one `before` it, the run ends
/// with `Finish` and leaves everything as it found it.
pub proof fn second_run_preserves_first(
    files: Seq<MatchedFileView>,
    before: Map<Seq<char>, Seq<char>>,
    first: World,
    rounds: nat,
)
    requires
        files.len() <= usize::MAX,
        first.root_exists,
        first.dir == written_from(files, before, 0),
        rounds >= 2 * files.len() + 1,
    ensures
        play_run(files, first, rounds).1 == Action::Finish,
        play_run(files, first, rounds).2 == first,
{
    run_with_existing_root(files, first, rounds);
    second_run_changes_nothing(files, before);
}

/// Whether the replies are not understood up to position `at`, where one is.
pub open spec fn first_clear_reply(replies: Seq<PromptAnswer>, at: int) -> bool {
    &&& 0 <= at < replies.len()
    &&& replies[at] != PromptAnswer::Unrecognized
    &&& forall|j: int| 0 <= j < at ==> (#[trigger] replies[j]) == PromptAnswer::Unrecognized
}

/// A writer that is waiting for a reply prompts again for each reply that
/// is not understood, and aborts on the first clear one if that one
/// declines or cancels. Nothing but the replies is used up.
proof fn prompting_ends_in_abort(
    files: Seq<MatchedFileView>,
    state: WriterState,
    world: World,
    at: int,
    rounds: nat,
)
    requires
        files.len() <= usize::MAX,
        state.wf(files.len() as usize),
        state.awaiting == Awaiting::Answer,
        first_clear_reply(world.replies, at),
        world.replies[at] != PromptAnswer::Affirmative,
        rounds > at,
    ensures
        play(files, state, Action::Prompt, world, rounds) == (
            WriterState { gate: Gate::Aborted, awaiting: Awaiting::Nothing, ..state },
            Action::Abort,
            World { replies: world.replies.skip(at + 1), ..world },
        ),
    decreases at,
{
    reveal_with_fuel(play, 2);
    let rest = world.replies.drop_first();
    if at == 0 {
        assert(rest =~= world.replies.skip(1));
    } else {
        let later = World { replies: rest, ..world };
        assert(world.replies[0] == PromptAnswer::Unrecognized);
        assert forall|j: int| 0 <= j < at - 1 implies (#[trigger] rest[j])
            == PromptAnswer::Unrecognized by {
            assert(rest[j] == world.replies[j + 1]);
        }
        prompting_ends_in_abort(files, state, later, at - 1, (rounds - 1) as nat);
        assert(rest.skip(at) =~= world.replies.skip(at + 1));
    }
}

/// Where the destination root does not exist and the first reply that is
/// understood declines or cancels, the run ends with `Abort`: no file is
/// written, and the root is not created.
pub proof fn run_declined_writes_nothing(
    files: Seq<MatchedFileView>,
    world: World,
    at: int,
    rounds: nat,
)
    requires
        0 < files.len() <= usize::MAX,
        !world.root_exists,
        first_clear_reply(world.replies, at),
        world.replies[at] != PromptAnswer::Affirmative,
        rounds >= at + 2,
    ensures
        play_run(files, world, rounds).1 == Action::Abort,
        play_run(files, world, rounds).0.gate == Gate::Aborted,
        play_run(files, world, rounds).2.dir == world.dir,
        !play_run(files, world, rounds).2.root_exists,
{
    let count = files.len() as usize;
    reveal_with_fuel(play, 2);
    let checked = next(start_of(count).0, Event::RootChecked(false), count);
    prompting_ends_in_abort(files, checked.0, world, at, (rounds - 1) as nat);
}

/// A writer that is waiting for a reply prompts again for each reply that
/// is not understood. On the first clear one, if it agrees, the root is
/// created and every matched file dealt with; where the root cannot be
/// created, the run aborts with nothing written.
proof fn prompting_ends_in_creation(
    files: Seq<MatchedFileView>,
    state: WriterState,
    world: World,
    at: int,
    rounds: nat,
)
    requires
        files.len() <= usize::MAX,
        state.wf(files.len() as usize),
        state.awaiting == Awaiting::Answer,
        first_clear_reply(world.replies, at),
        world.replies[at] == PromptAnswer::Affirmative,
        rounds >= at + 2 + 2 * files.len(),
    ensures
        world.root_can_be_created ==> play(files, state, Action::Prompt, world, rounds) == (
            WriterState {
                gate: Gate::Created,
                cursor: files.len() as usize,
                awaiting: Awaiting::Nothing,
            },
            Action::Finish,
            World {
                root_exists: true,
                dir: written_from(files, world.dir, 0),
                replies: world.replies.skip(at + 1),
                ..world
            },
        ),
        !world.root_can_be_created ==> play(files, state, Action::Prompt, world, rounds) == (
            WriterState { gate: Gate::Aborted, awaiting: Awaiting::Nothing, ..state },
            Action::Abort,
            World { replies: world.replies.skip(at + 1), ..world },
        ),
    decreases at,
{
    reveal_with_fuel(play, 3);
    let count = files.len() as usize;
    let rest = world.replies.drop_first();
    let later = World { replies: rest, ..world };
    if at == 0 {
        assert(rest =~= world.replies.skip(1));
        let asked = next(state, Event::Answered(PromptAnswer::Affirmative), count);
        if world.root_can_be_created {
            let created = next(asked.0, Event::RootCreated(true), count);
            let ready = World { root_exists: true, ..later };
            assert(effect(files, later, Action::CreateRoot) == ready);
            play_settles_every_file(files, created.0, ready, (rounds - 2) as nat);
        }
    } else {
        assert(world.replies[0] == PromptAnswer::Unrecognized);
        assert forall|j: int| 0 <= j < at - 1 implies (#[trigger] rest[j])
            == PromptAnswer::Unrecognized by {
            assert(rest[j] == world.replies[j + 1]);
        }
        prompting_ends_in_creation(files, state, later, at - 1, (rounds - 1) as nat);
        assert(rest.skip(at) =~= world.replies.skip(at + 1));
    }
}

/// Where the destination root does not exist and the first reply that is
/// understood agrees, the root is created and the run goes on as if it had
/// been there: it ends with `Finish` and leaves what `written_from`
/// describes. Where the root cannot be created, the run ends with `Abort`
/// and nothing is written.
pub proof fn run_creating_root(
    files: Seq<MatchedFileView>,
    world: World,
    at: int,
    rounds: nat,
)
    requires
        0 < files.len() <= usize::MAX,
        !world.root_exists,
        first_clear_reply(world.replies, at),
        world.replies[at] == PromptAnswer::Affirmative,
        rounds >= at + 3 + 2 * files.len(),
    ensures
        world.root_can_be_created ==> {
            &&& play_run(files, world, rounds).1 == Action::Finish
            &&& play_run(files, world, rounds).2.root_exists
            &&& play_run(files, world, rounds).2.dir == written_from(files, world.dir, 0)
        },
        !world.root_can_be_created ==> {
            &&& play_run(files, world, rounds).1 == Action::Abort
            &&& !play_run(files, world, rounds).2.root_exists
            &&& play_run(files, world, rounds).2.dir == world.dir
        },
{
    let count = files.len() as usize;
    reveal_with_fuel(play, 2);
    let checked = next(start_of(count).0, Event::RootChecked(false), count);
    prompting_ends_in_creation(files, checked.0, world, at, (rounds - 1) as nat);
}

} // verus!
