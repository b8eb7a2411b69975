//! The net diff of a session: lines added and removed over all tracked files.
//!
//! Finding out about a file takes work outside this library: looking whether it
//! still exists, writing its original to a scratch file, running a line diff.
//! The aggregator decides; its driver acts. The aggregator names the next
//! action, the driver performs it and reports what happened, and the
//! aggregator moves on, until every file is settled.

use crate::lines::{
    lemma_counts_unterminated, marked_line_count, nonempty_line_count, tally_lines,
};
use crate::transcript::{FileModel, FileOriginals};
use vstd::prelude::*;
use vstd::seq_lib::{commutative_foldl, lemma_fold_left_permutation};

verus! {

/// The lines that a diff reports as added and as removed: those of its output
/// that begin with `>`, and those that begin with `<`.
pub open spec fn diff_counts(output: Seq<char>) -> (nat, nat) {
    (marked_line_count(output, '>'), marked_line_count(output, '<'))
}

/// Counts the added and removed lines in the output of a line diff.
pub fn compute_diff(output: &str) -> (counts: (usize, usize))
    ensures
        counts.0 == diff_counts(output@).0,
        counts.1 == diff_counts(output@).1,
{
    let tally = tally_lines(output);
    (tally.incoming, tally.outgoing)
}

/// Counts the lines that the deletion of a file with content `original` removes.
pub fn count_deleted_lines(original: &str) -> (removed: usize)
    ensures
        removed == nonempty_line_count(original@),
{
    tally_lines(original).nonempty
}

/// What became known about one tracked file.
pub enum Observation {
    /// The file no longer exists.
    Missing,
    /// The file exists, but its original could not be written to the scratch file.
    WriteFailed,
    /// The file exists, but the diff tool could not be run.
    DiffFailed,
    /// The diff tool ran and printed this.
    Compared(Seq<char>),
}

/// The lines added and removed that one file accounts for.
pub open spec fn contribution(original: Seq<char>, seen: Observation) -> (nat, nat) {
    match seen {
        Observation::Missing => (0, nonempty_line_count(original)),
        Observation::WriteFailed => (0, 0),
        Observation::DiffFailed => (0, 0),
        Observation::Compared(output) => diff_counts(output),
    }
}

/// One tracked file's original content and what became known about the file.
pub type Visit = (Seq<char>, Observation);

/// The net diff of a session: the contributions of all its files together.
pub open spec fn net_diff(visits: Seq<Visit>) -> (nat, nat)
    decreases visits.len(),
{
    if visits.len() == 0 {
        (0, 0)
    } else {
        let before = net_diff(visits.drop_last());
        let last = contribution(visits.last().0, visits.last().1);
        (before.0 + last.0, before.1 + last.1)
    }
}

/// What the aggregator waits to hear about the file at hand.
#[derive(Clone, Copy, PartialEq, Eq, Structural, Debug)]
pub enum Phase {
    /// Whether the file exists.
    Probe,
    /// Whether the original was written to the scratch file.
    Write,
    /// What the diff tool printed.
    Compare,
}

/// The state of an aggregation.
pub struct AggregatorModel {
    /// The tracked files, in the order in which they are settled.
    pub files: Seq<FileModel>,
    /// How many files are settled.
    pub cursor: nat,
    /// What is awaited about the file at hand.
    pub phase: Phase,
    /// Lines added by the settled files.
    pub added: nat,
    /// Lines removed by the settled files.
    pub removed: nat,
}

/// What the driver reports back.
pub enum EventModel {
    /// Whether the file exists.
    Exists(bool),
    /// Whether the original was written to the scratch file.
    Written(bool),
    /// What the diff tool printed, if it could be run.
    Compared(Option<Seq<char>>),
}

/// What the driver is to do next.
pub enum ActionModel {
    /// Look whether the file at this path exists.
    CheckExists(Seq<char>),
    /// Write this content to the scratch file, replacing what it held.
    WriteScratch(Seq<char>),
    /// Diff the scratch file against the file at this path.
    RunDiff(Seq<char>),
    /// Nothing: every file is settled, and these are the lines added and removed.
    Finish(nat, nat),
}

/// The state before any file is settled.
pub open spec fn start(files: Seq<FileModel>) -> AggregatorModel {
    AggregatorModel { files, cursor: 0, phase: Phase::Probe, added: 0, removed: 0 }
}

/// Whether every file is settled.
pub open spec fn finished(s: AggregatorModel) -> bool {
    s.cursor >= s.files.len()
}

/// The action that state `s` calls for.
pub open spec fn action_of(s: AggregatorModel) -> ActionModel {
    if finished(s) {
        ActionModel::Finish(s.added, s.removed)
    } else {
        match s.phase {
            Phase::Probe => ActionModel::CheckExists(s.files[s.cursor as int].0),
            Phase::Write => ActionModel::WriteScratch(s.files[s.cursor as int].1),
            Phase::Compare => ActionModel::RunDiff(s.files[s.cursor as int].0),
        }
    }
}

/// State `s` with the file at hand settled for the given lines.
pub open spec fn settle(s: AggregatorModel, added: nat, removed: nat) -> AggregatorModel {
    AggregatorModel {
        files: s.files,
        cursor: s.cursor + 1,
        phase: Phase::Probe,
        added: s.added + added,
        removed: s.removed + removed,
    }
}

/// State `s` awaiting `phase` for the file at hand.
pub open spec fn await_phase(s: AggregatorModel, phase: Phase) -> AggregatorModel {
    AggregatorModel { phase, ..s }
}

/// The state after the driver reports `event` in state `s`.
///
/// A missing file is settled with every non-empty line of its original
/// removed. A file whose original cannot be written, or that the diff tool
/// cannot be run on, is settled with nothing. Otherwise the diff's output
/// settles it. A report that does not answer the action called for changes
/// nothing.
pub open spec fn step_model(s: AggregatorModel, event: EventModel) -> AggregatorModel {
    if finished(s) {
        s
    } else {
        let original = s.files[s.cursor as int].1;
        match (s.phase, event) {
            (Phase::Probe, EventModel::Exists(true)) => await_phase(s, Phase::Write),
            (Phase::Probe, EventModel::Exists(false)) => settle(
                s,
                0,
                nonempty_line_count(original),
            ),
            (Phase::Write, EventModel::Written(true)) => await_phase(s, Phase::Compare),
            (Phase::Write, EventModel::Written(false)) => settle(s, 0, 0),
            (Phase::Compare, EventModel::Compared(Some(output))) => settle(
                s,
                diff_counts(output).0,
                diff_counts(output).1,
            ),
            (Phase::Compare, EventModel::Compared(None)) => settle(s, 0, 0),
            _ => s,
        }
    }
}

/// The reports that lead from one file to the next, for what was seen of the file.
pub open spec fn events_of(seen: Observation) -> Seq<EventModel> {
    match seen {
        Observation::Missing => seq![EventModel::Exists(false)],
        Observation::WriteFailed => seq![EventModel::Exists(true), EventModel::Written(false)],
        Observation::DiffFailed => seq![
            EventModel::Exists(true),
            EventModel::Written(true),
            EventModel::Compared(None),
        ],
        Observation::Compared(output) => seq![
            EventModel::Exists(true),
            EventModel::Written(true),
            EventModel::Compared(Some(output)),
        ],
    }
}

/// The reports of a whole aggregation, file after file.
pub open spec fn reports_of(visits: Seq<Visit>) -> Seq<EventModel>
    decreases visits.len(),
{
    if visits.len() == 0 {
        Seq::empty()
    } else {
        reports_of(visits.drop_last()) + events_of(visits.last().1)
    }
}

/// The state that `events`, reported in order, lead to from state `s`.
pub open spec fn run(s: AggregatorModel, events: Seq<EventModel>) -> AggregatorModel
    decreases events.len(),
{
    if events.len() == 0 {
        s
    } else {
        step_model(run(s, events.drop_last()), events.last())
    }
}

/// Whether `visits` are visits to `files`, in their order.
pub open spec fn visits_match(files: Seq<FileModel>, visits: Seq<Visit>) -> bool {
    &&& visits.len() == files.len()
    &&& forall|i: int| 0 <= i < files.len() ==> (#[trigger] visits[i]).0 == files[i].1
}

/// A file that no longer exists counts every non-empty line of its original
/// as removed, and adds no line.
pub proof fn lemma_missing_file_removes_its_lines(s: AggregatorModel)
    requires
        !finished(s),
        s.phase == Phase::Probe,
    ensures
        step_model(s, EventModel::Exists(false)).removed == s.removed + nonempty_line_count(
            s.files[s.cursor as int].1,
        ),
        step_model(s, EventModel::Exists(false)).added == s.added,
        step_model(s, EventModel::Exists(false)).cursor == s.cursor + 1,
{
}

/// A diff that prints nothing, as it does for a file that equals its
/// original, leaves both totals as they were.
pub proof fn lemma_silent_diff_changes_nothing(s: AggregatorModel)
    requires
        !finished(s),
        s.phase == Phase::Compare,
    ensures
        step_model(s, EventModel::Compared(Some(Seq::empty()))).added == s.added,
        step_model(s, EventModel::Compared(Some(Seq::empty()))).removed == s.removed,
        contribution(s.files[s.cursor as int].1, Observation::Compared(Seq::empty())) == (
            0nat,
            0nat,
        ),
{
    lemma_counts_unterminated(Seq::empty(), '>');
    lemma_counts_unterminated(Seq::empty(), '<');
}

/// Reporting one run of events after another is reporting them all in a row.
pub proof fn lemma_run_concat(s: AggregatorModel, first: Seq<EventModel>, then: Seq<EventModel>)
    ensures
        run(s, first + then) == run(run(s, first), then),
    decreases then.len(),
{
    if then.len() == 0 {
        assert(first + then =~= first);
    } else {
        assert((first + then).drop_last() =~= first + then.drop_last());
        lemma_run_concat(s, first, then.drop_last());
    }
}

/// The reports on one file settle it for its contribution.
pub proof fn lemma_run_one_file(s: AggregatorModel, seen: Observation)
    requires
        !finished(s),
        s.phase == Phase::Probe,
    ensures
        run(s, events_of(seen)) == settle(
            s,
            contribution(s.files[s.cursor as int].1, seen).0,
            contribution(s.files[s.cursor as int].1, seen).1,
        ),
{
    let events = events_of(seen);
    let none = Seq::<EventModel>::empty();
    assert(run(s, none) == s);
    if events.len() == 1 {
        assert(events.drop_last() =~= none);
    } else if events.len() == 2 {
        let one = seq![events[0]];
        assert(one.drop_last() =~= none);
        assert(events.drop_last() =~= one);
        assert(run(s, one) == step_model(s, events[0]));
    } else {
        let one = seq![events[0]];
        let two = seq![events[0], events[1]];
        assert(one.drop_last() =~= none);
        assert(two.drop_last() =~= one);
        assert(events.drop_last() =~= two);
        assert(run(s, one) == step_model(s, events[0]));
        assert(run(s, two) == step_model(run(s, one), events[1]));
    }
}

/// After the reports on the first `count` files, exactly those are settled,
/// for their net diff.
pub proof fn lemma_run_prefix(files: Seq<FileModel>, visits: Seq<Visit>, count: int)
    requires
        visits_match(files, visits),
        0 <= count <= files.len(),
    ensures
        run(start(files), reports_of(visits.take(count))) == (AggregatorModel {
            files,
            cursor: count as nat,
            phase: Phase::Probe,
            added: net_diff(visits.take(count)).0,
            removed: net_diff(visits.take(count)).1,
        }),
    decreases count,
{
    if count == 0 {
        assert(visits.take(0) =~= Seq::<Visit>::empty());
    } else {
        let upto = visits.take(count);
        let before = visits.take(count - 1);
        assert(upto.drop_last() =~= before);
        assert(upto.last() == visits[count - 1]);
        lemma_run_prefix(files, visits, count - 1);
        let s = run(start(files), reports_of(before));
        lemma_run_concat(start(files), reports_of(before), events_of(upto.last().1));
        lemma_run_one_file(s, upto.last().1);
    }
}

/// An aggregation that hears about every file ends with the net diff of the session.
pub proof fn lemma_run_reaches_net_diff(files: Seq<FileModel>, visits: Seq<Visit>)
    requires
        visits_match(files, visits),
    ensures
        action_of(run(start(files), reports_of(visits))) == ActionModel::Finish(
            net_diff(visits).0,
            net_diff(visits).1,
        ),
{
    lemma_run_prefix(files, visits, files.len() as int);
    assert(visits.take(files.len() as int) =~= visits);
}

/// Aggregating twice gives the same totals both times, as long as the
/// transcript yields the same files and each file is found in the same state.
pub proof fn lemma_aggregation_repeats(
    files: Seq<FileModel>,
    first: Seq<Visit>,
    second: Seq<Visit>,
)
    requires
        visits_match(files, first),
        visits_match(files, second),
        forall|i: int| 0 <= i < files.len() ==> (#[trigger] first[i]).1 == second[i].1,
    ensures
        action_of(run(start(files), reports_of(first))) == action_of(
            run(start(files), reports_of(second)),
        ),
        action_of(run(start(files), reports_of(first))) == ActionModel::Finish(
            net_diff(first).0,
            net_diff(first).1,
        ),
{
    assert(first =~= second);
    lemma_run_reaches_net_diff(files, first);
}

/// The net diff does not depend on the order in which the files are visited:
/// two aggregations that see the same files in the same states agree on both
/// totals, whichever file each takes first.
pub proof fn lemma_net_diff_ignores_order(one: Seq<Visit>, other: Seq<Visit>)
    requires
        one.to_multiset() == other.to_multiset(),
    ensures
        net_diff(one) == net_diff(other),
{
    let add = |sum: (nat, nat), visit: Visit|
        (sum.0 + contribution(visit.0, visit.1).0, sum.1 + contribution(visit.0, visit.1).1);
    assert(commutative_foldl(add));
    lemma_fold_left_permutation(one, other, add, (0nat, 0nat));
    lemma_net_diff_is_fold(one);
    lemma_net_diff_is_fold(other);
}

/// The net diff is the fold of the contributions.
proof fn lemma_net_diff_is_fold(visits: Seq<Visit>)
    ensures
        net_diff(visits) == visits.fold_left(
            (0nat, 0nat),
            |sum: (nat, nat), visit: Visit|
                (
                    sum.0 + contribution(visit.0, visit.1).0,
                    sum.1 + contribution(visit.0, visit.1).1,
                ),
        ),
    decreases visits.len(),
{
    if visits.len() > 0 {
        lemma_net_diff_is_fold(visits.drop_last());
    }
}

/// What the driver reports back to the aggregator.
#[derive(Debug, PartialEq, Eq)]
pub enum Event {
    /// Whether the file exists.
    Exists(bool),
    /// Whether the original was written to the scratch file.
    Written(bool),
    /// What the diff tool printed, if it could be run.
    Compared(Option<String>),
}

impl View for Event {
    type V = EventModel;

    open spec fn view(&self) -> EventModel {
        match self {
            Event::Exists(exists) => EventModel::Exists(*exists),
            Event::Written(written) => EventModel::Written(*written),
            Event::Compared(Some(output)) => EventModel::Compared(Some(output@)),
            Event::Compared(None) => EventModel::Compared(None),
        }
    }
}

/// What the aggregator asks its driver to do next.
#[derive(Clone, Copy, Debug, PartialEq, Eq)]
pub enum Action<'a> {
    /// Look whether the file at this path exists.
    CheckExists(&'a String),
    /// Write this content to the scratch file, replacing what it held.
    WriteScratch(&'a String),
    /// Diff the scratch file against the file at this path.
    RunDiff(&'a String),
    /// Nothing: every file is settled, and these are the lines added and removed.
    Finish(u128, u128),
}

impl<'a> View for Action<'a> {
    type V = ActionModel;

    open spec fn view(&self) -> ActionModel {
        match self {
            Action::CheckExists(path) => ActionModel::CheckExists(path@),
            Action::WriteScratch(content) => ActionModel::WriteScratch(content@),
            Action::RunDiff(path) => ActionModel::RunDiff(path@),
            Action::Finish(added, removed) => ActionModel::Finish(*added as nat, *removed as nat),
        }
    }
}

/// Most lines that a single file can account for, on either side.
const MAX_LINES_PER_FILE: u128 = 0xFFFF_FFFF_FFFF_FFFF;

/// Adds up the net diff of a session, one file at a time.
pub struct DiffAggregator {
    originals: FileOriginals,
    cursor: usize,
    phase: Phase,
    added: u128,
    removed: u128,
}

impl View for DiffAggregator {
    type V = AggregatorModel;

    closed spec fn view(&self) -> AggregatorModel {
        AggregatorModel {
            files: self.originals.files(),
            cursor: self.cursor as nat,
            phase: self.phase,
            added: self.added as nat,
            removed: self.removed as nat,
        }
    }
}

impl DiffAggregator {
    #[verifier::type_invariant]
    spec fn totals_fit(&self) -> bool {
        &&& self.cursor <= self.originals.files().len()
        &&& self.added <= self.cursor * MAX_LINES_PER_FILE
        &&& self.removed <= self.cursor * MAX_LINES_PER_FILE
    }

    /// An aggregator for `originals`, with no file settled yet.
    pub fn new(originals: FileOriginals) -> (aggregator: Self)
        ensures
            aggregator@ == start(originals.files()),
    {
        DiffAggregator { originals, cursor: 0, phase: Phase::Probe, added: 0, removed: 0 }
    }

    /// The action that the driver is to perform next.
    pub fn next_action(&self) -> (action: Action<'_>)
        ensures
            action@ == action_of(self@),
    {
        proof {
            use_type_invariant(self);
        }
        if self.cursor >= self.originals.len() {
            Action::Finish(self.added, self.removed)
        } else {
            match self.phase {
                Phase::Probe => Action::CheckExists(self.originals.path_at(self.cursor)),
                Phase::Write => Action::WriteScratch(self.originals.original_at(self.cursor)),
                Phase::Compare => Action::RunDiff(self.originals.path_at(self.cursor)),
            }
        }
    }

    /// Whether every file is settled.
    pub fn is_finished(&self) -> (done: bool)
        ensures
            done == finished(self@),
    {
        self.cursor >= self.originals.len()
    }

    /// The lines added and removed by the files settled so far.
    pub fn totals(&self) -> (totals: (u128, u128))
        ensures
            totals.0 == self@.added,
            totals.1 == self@.removed,
    {
        (self.added, self.removed)
    }

    /// Settles the file at hand for the given lines.
    fn settled(self, added: usize, removed: usize) -> (after: Self)
        requires
            !finished(self@),
        ensures
            after@ == settle(self@, added as nat, removed as nat),
    {
        proof {
            use_type_invariant(&self);
        }
        // The files are counted in a `usize`, so the cursor can move on.
        let _ = self.originals.len();
        DiffAggregator {
            originals: self.originals,
            cursor: self.cursor + 1,
            phase: Phase::Probe,
            added: self.added + added as u128,
            removed: self.removed + removed as u128,
        }
    }

    /// Awaits `phase` for the file at hand.
    fn awaiting(self, phase: Phase) -> (after: Self)
        ensures
            after@ == await_phase(self@, phase),
    {
        proof {
            use_type_invariant(&self);
        }
        DiffAggregator {
            originals: self.originals,
            cursor: self.cursor,
            phase,
            added: self.added,
            removed: self.removed,
        }
    }

    /// Takes the driver's report on the action last called for and moves on.
    pub fn step(self, event: &Event) -> (after: Self)
        ensures
            after@ == step_model(self@, event@),
    {
        proof {
            use_type_invariant(&self);
        }
        if self.cursor >= self.originals.len() {
            return self;
        }
        match self.phase {
            Phase::Probe => match event {
                Event::Exists(true) => self.awaiting(Phase::Write),
                Event::Exists(false) => {
                    let removed = count_deleted_lines(
                        self.originals.original_at(self.cursor).as_str(),
                    );
                    self.settled(0, removed)
                },
                _ => self,
            },
            Phase::Write => match event {
                Event::Written(true) => self.awaiting(Phase::Compare),
                Event::Written(false) => self.settled(0, 0),
                _ => self,
            },
            Phase::Compare => match event {
                Event::Compared(Some(output)) => {
                    let counts = compute_diff(output.as_str());
                    self.settled(counts.0, counts.1)
                },
                Event::Compared(None) => self.settled(0, 0),
                _ => self,
            },
        }
    }
}

} // verus!
