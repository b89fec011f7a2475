//! Showing every remembered image again, one monitor after the other.
//!
//! Like a job that sets one image, a job that shows all of them runs no program itself:
//! it says which step is due and takes in how it went. It reads the state once, when it
//! is made, and never changes it.

use vstd::prelude::*;
use crate::engine::{
    derivative_path, rotated_image_path, Action, ActionView, Assignment, AssignmentView, Notice,
};
use crate::state::{StateView, WallpaperState};
use crate::transform::{Orientation, Rotation};

verus! {

/// Where the work on one remembered image stands.
#[derive(Clone, Copy, Debug, PartialEq, Eq, Structural)]
pub enum ReapplyPhase {
    /// The caller is to say whether the image file exists.
    Probing,
    /// The converter is due.
    Rotating,
    /// The daemon is due, with the turned copy where `rotated` holds.
    Showing { rotated: bool },
}

/// What is shown again for the images listed in `applied`, in that order: each image
/// on its monitor, with the transform that `state` remembers for the monitor, and
/// `Horizontal` and `Deg0` where it remembers none.
pub open spec fn entries_of(
    applied: Seq<(Seq<char>, Seq<char>)>,
    state: StateView,
) -> Seq<AssignmentView> {
    Seq::new(
        applied.len(),
        |i: int|
            AssignmentView {
                monitor: applied[i].0,
                image_path: applied[i].1,
                orientation: state.orientation_of(applied[i].0),
                rotation: state.rotation_of(applied[i].0),
            },
    )
}

/// A `ReapplyJob` as plain values.
pub struct ReapplyView {
    /// What is shown again, in order.
    pub entries: Seq<AssignmentView>,
    /// Where a turned copy is written.
    pub slot: Seq<char>,
    /// How many entries are dealt with.
    pub cursor: int,
    /// Where the work on the entry at `cursor` stands.
    pub phase: ReapplyPhase,
}

impl ReapplyView {
    /// The job for `entries` before anything was done.
    pub open spec fn start(entries: Seq<AssignmentView>, slot: Seq<char>) -> ReapplyView {
        ReapplyView { entries, slot, cursor: 0, phase: ReapplyPhase::Probing }
    }

    /// Every entry is dealt with.
    pub open spec fn finished(self) -> bool {
        self.cursor >= self.entries.len()
    }

    /// The entry in work.
    pub open spec fn current(self) -> AssignmentView {
        self.entries[self.cursor]
    }

    /// Holds of every job that `start` and `step` lead to: the cursor stays within the
    /// entries, a finished job rests, and the converter is never due, nor a turned copy
    /// ever shown, for an image that needs no turn.
    pub open spec fn valid(self) -> bool {
        &&& 0 <= self.cursor <= self.entries.len()
        &&& self.finished() ==> self.phase == ReapplyPhase::Probing
        &&& !self.finished() && self.current().degrees() == 0 ==> self.phase
            != ReapplyPhase::Rotating && self.phase != (ReapplyPhase::Showing { rotated: true })
    }

    /// The step that is due.
    pub open spec fn action(self) -> ActionView {
        if self.finished() {
            ActionView::Done
        } else {
            match self.phase {
                ReapplyPhase::Probing => ActionView::Probe { path: self.current().image_path },
                ReapplyPhase::Rotating => ActionView::Rotate {
                    source: self.current().image_path,
                    degrees: self.current().degrees(),
                    target: self.slot,
                },
                ReapplyPhase::Showing { rotated } => ActionView::Show {
                    monitor: self.current().monitor,
                    path: self.current().effective_path(self.slot, rotated),
                },
            }
        }
    }

    /// This job with the entry in work behind it.
    pub open spec fn advance(self) -> ReapplyView {
        ReapplyView { cursor: self.cursor + 1, phase: ReapplyPhase::Probing, ..self }
    }

    /// The job and the notice after the step that was due ended as `succeeded` says.
    ///
    /// An image whose file is gone is passed over. A failed converter changes only the
    /// file that is shown. Whether the daemon succeeds or fails, the next entry follows.
    pub open spec fn step(self, succeeded: bool) -> (ReapplyView, Notice) {
        if self.finished() {
            (self, Notice::Quiet)
        } else {
            match self.phase {
                ReapplyPhase::Probing => if !succeeded {
                    (self.advance(), Notice::ImageMissing)
                } else if self.current().degrees() == 0 {
                    (
                        ReapplyView { phase: ReapplyPhase::Showing { rotated: false }, ..self },
                        Notice::Quiet,
                    )
                } else {
                    (ReapplyView { phase: ReapplyPhase::Rotating, ..self }, Notice::Quiet)
                },
                ReapplyPhase::Rotating => (
                    ReapplyView { phase: ReapplyPhase::Showing { rotated: succeeded }, ..self },
                    if succeeded {
                        Notice::Quiet
                    } else {
                        Notice::RotateFailed
                    },
                ),
                ReapplyPhase::Showing { rotated } => (
                    self.advance(),
                    if succeeded {
                        Notice::Applied
                    } else {
                        Notice::ApplyFailed
                    },
                ),
            }
        }
    }
}

/// The views of `entries`, in order.
pub open spec fn views_of(entries: Seq<Assignment>) -> Seq<AssignmentView> {
    Seq::new(entries.len(), |i: int| entries[i]@)
}

/// The work of showing every remembered image again.
#[derive(Debug)]
pub struct ReapplyJob {
    entries: Vec<Assignment>,
    slot: String,
    cursor: usize,
    phase: ReapplyPhase,
}

impl View for ReapplyJob {
    type V = ReapplyView;

    closed spec fn view(&self) -> ReapplyView {
        ReapplyView {
            entries: views_of(self.entries@),
            slot: self.slot@,
            cursor: self.cursor as int,
            phase: self.phase,
        }
    }
}

/// Begins the work of showing again every image that `state` remembers, in the order in
/// which `state.applied` holds them. A turned copy goes to the one slot under `temp_dir`.
pub fn reapply_saved_wallpapers(state: &WallpaperState, temp_dir: &str) -> (job: ReapplyJob)
    ensures
        job@ == ReapplyView::start(
            entries_of(state.applied.pairs(), state@),
            derivative_path(temp_dir@),
        ),
        job@.valid(),
        job@.finished() <==> state@.applied == Map::<Seq<char>, Seq<char>>::empty(),
{
    let mut entries: Vec<Assignment> = Vec::new();
    let mut i: usize = 0;
    while i < state.applied.len()
        invariant
            i <= state.applied.pairs().len(),
            views_of(entries@) == entries_of(state.applied.pairs(), state@).take(i as int),
        decreases state.applied.pairs().len() - i,
    {
        if let Some((monitor, image_path)) = state.applied.entry(i) {
            let entry = Assignment {
                monitor: monitor.clone(),
                image_path: image_path.clone(),
                orientation: state.orientation_of(monitor.as_str()),
                rotation: state.rotation_of(monitor.as_str()),
            };
            let ghost before = entries@;
            let ghost all = entries_of(state.applied.pairs(), state@);
            entries.push(entry);
            assert(views_of(entries@) =~= views_of(before).push(all[i as int]));
            assert(all.take(i + 1) =~= all.take(i as int).push(all[i as int]));
        }
        i += 1;
    }
    proof {
        state.applied.lemma_empty();
        assert(entries_of(state.applied.pairs(), state@).take(i as int) =~= entries_of(
            state.applied.pairs(),
            state@,
        ));
    }
    ReapplyJob {
        entries,
        slot: rotated_image_path(temp_dir),
        cursor: 0,
        phase: ReapplyPhase::Probing,
    }
}

impl ReapplyJob {
    #[verifier::type_invariant]
    spec fn inv(&self) -> bool {
        self@.valid()
    }

    /// The entry in work, if the job is not finished.
    pub fn current(&self) -> (entry: Option<&Assignment>)
        ensures
            match entry {
                Some(entry) => !self@.finished() && entry@ == self@.current(),
                None => self@.finished(),
            },
    {
        if self.cursor < self.entries.len() {
            Some(&self.entries[self.cursor])
        } else {
            None
        }
    }

    /// Whether every entry is dealt with.
    pub fn is_done(&self) -> (done: bool)
        ensures
            done == self@.finished(),
            done == (self@.action() == ActionView::Done),
    {
        self.cursor >= self.entries.len()
    }

    /// The step that is due.
    pub fn pending(&self) -> (action: Action)
        ensures
            action@ == self@.action(),
            self@.valid(),
    {
        proof {
            use_type_invariant(self);
        }
        if self.cursor >= self.entries.len() {
            return Action::Done;
        }
        let entry = &self.entries[self.cursor];
        match self.phase {
            ReapplyPhase::Probing => Action::Probe { path: entry.image_path.clone() },
            ReapplyPhase::Rotating => Action::Rotate {
                source: entry.image_path.clone(),
                degrees: entry.degrees(),
                target: self.slot.clone(),
            },
            ReapplyPhase::Showing { rotated } => Action::Show {
                monitor: entry.monitor.clone(),
                path: if rotated {
                    self.slot.clone()
                } else {
                    entry.image_path.clone()
                },
            },
        }
    }

    /// Takes in how the pending step went.
    pub fn report(&mut self, succeeded: bool) -> (notice: Notice)
        ensures
            final(self)@ == old(self)@.step(succeeded).0,
            notice == old(self)@.step(succeeded).1,
            final(self)@.valid(),
    {
        proof {
            use_type_invariant(&*self);
        }
        if self.cursor >= self.entries.len() {
            return Notice::Quiet;
        }
        match self.phase {
            ReapplyPhase::Probing => {
                if !succeeded {
                    self.phase = ReapplyPhase::Probing;
                    self.cursor = self.cursor + 1;
                    Notice::ImageMissing
                } else if self.entries[self.cursor].degrees() == 0 {
                    self.phase = ReapplyPhase::Showing { rotated: false };
                    Notice::Quiet
                } else {
                    self.phase = ReapplyPhase::Rotating;
                    Notice::Quiet
                }
            },
            ReapplyPhase::Rotating => {
                self.phase = ReapplyPhase::Showing { rotated: succeeded };
                if succeeded {
                    Notice::Quiet
                } else {
                    Notice::RotateFailed
                }
            },
            ReapplyPhase::Showing { rotated: _ } => {
                self.phase = ReapplyPhase::Probing;
                self.cursor = self.cursor + 1;
                if succeeded {
                    Notice::Applied
                } else {
                    Notice::ApplyFailed
                }
            },
        }
    }
}

impl ReapplyView {
    /// The job after `outcomes` were reported one after the other.
    pub open spec fn run(self, outcomes: Seq<bool>) -> ReapplyView
        decreases outcomes.len(),
    {
        if outcomes.len() == 0 {
            self
        } else {
            self.step(outcomes[0]).0.run(outcomes.drop_first())
        }
    }

    /// The steps that were due before each of `outcomes` was reported.
    pub open spec fn trace(self, outcomes: Seq<bool>) -> Seq<ActionView>
        decreases outcomes.len(),
    {
        if outcomes.len() == 0 {
            Seq::empty()
        } else {
            seq![self.action()] + self.step(outcomes[0]).0.trace(outcomes.drop_first())
        }
    }
}

/// How the outside steps for one remembered image end. An outcome counts only where
/// its step is taken.
pub struct EntryOutcome {
    /// The image file exists.
    pub exists: bool,
    /// The converter wrote the turned copy.
    pub rotated: bool,
    /// The daemon showed the image.
    pub shown: bool,
}

/// The outcomes that a job is told for `entry`, in order, when the steps for it end as
/// `outcome` says.
pub open spec fn entry_reports(entry: AssignmentView, outcome: EntryOutcome) -> Seq<bool> {
    if !outcome.exists {
        seq![false]
    } else if entry.degrees() == 0 {
        seq![true, outcome.shown]
    } else {
        seq![true, outcome.rotated, outcome.shown]
    }
}

/// The steps for one remembered image: the look for its file and, where the file
/// exists, the converter where the image needs a turn, then the daemon, with the turned
/// copy where one was made.
pub open spec fn entry_steps(
    entry: AssignmentView,
    slot: Seq<char>,
    outcome: EntryOutcome,
) -> Seq<ActionView> {
    let probe = ActionView::Probe { path: entry.image_path };
    if !outcome.exists {
        seq![probe]
    } else if entry.degrees() == 0 {
        seq![probe, ActionView::Show { monitor: entry.monitor, path: entry.image_path }]
    } else {
        seq![
            probe,
            ActionView::Rotate { source: entry.image_path, degrees: entry.degrees(), target: slot },
            ActionView::Show {
                monitor: entry.monitor,
                path: entry.effective_path(slot, outcome.rotated),
            },
        ]
    }
}

/// The outcomes that a job is told for all of `entries`, those of one entry after
/// those of the entry before it.
pub open spec fn all_reports(entries: Seq<AssignmentView>, outcomes: Seq<EntryOutcome>) -> Seq<
    bool,
>
    decreases entries.len(),
{
    if entries.len() == 0 {
        Seq::empty()
    } else {
        all_reports(entries.drop_last(), outcomes.drop_last()) + entry_reports(
            entries.last(),
            outcomes[entries.len() - 1],
        )
    }
}

/// The steps for all of `entries`: those of one entry after those of the entry before
/// it, each entry's steps made of that entry and its own outcome alone.
pub open spec fn all_steps(
    entries: Seq<AssignmentView>,
    slot: Seq<char>,
    outcomes: Seq<EntryOutcome>,
) -> Seq<ActionView>
    decreases entries.len(),
{
    if entries.len() == 0 {
        Seq::empty()
    } else {
        all_steps(entries.drop_last(), slot, outcomes.drop_last()) + entry_steps(
            entries.last(),
            slot,
            outcomes[entries.len() - 1],
        )
    }
}

/// A step keeps a job valid and its entries as they are.
pub proof fn lemma_reapply_step_valid(job: ReapplyView, succeeded: bool)
    requires
        job.valid(),
    ensures
        job.step(succeeded).0.valid(),
        job.step(succeeded).0.entries == job.entries,
        job.step(succeeded).0.slot == job.slot,
{
}

/// Reporting two runs of outcomes in a row is reporting the first, then the second.
pub proof fn lemma_reapply_run_append(job: ReapplyView, first: Seq<bool>, second: Seq<bool>)
    ensures
        job.run(first + second) == job.run(first).run(second),
        job.trace(first + second) == job.trace(first) + job.run(first).trace(second),
    decreases first.len(),
{
    if first.len() == 0 {
        assert(first + second =~= second);
        assert(job.trace(first) + job.run(first).trace(second) =~= job.trace(second));
    } else {
        let next = job.step(first[0]).0;
        assert((first + second).drop_first() =~= first.drop_first() + second);
        lemma_reapply_run_append(next, first.drop_first(), second);
        assert(job.trace(first + second) =~= job.trace(first) + job.run(first).trace(second));
    }
}

/// From the look for an entry's file on, a job takes the steps of `entry_steps` for
/// that entry and then stands at the next one.
pub proof fn lemma_entry_runs(job: ReapplyView, outcome: EntryOutcome)
    requires
        job.valid(),
        !job.finished(),
        job.phase == ReapplyPhase::Probing,
    ensures
        job.trace(entry_reports(job.current(), outcome)) == entry_steps(
            job.current(),
            job.slot,
            outcome,
        ),
        job.run(entry_reports(job.current(), outcome)) == job.advance(),
{
    let reports = entry_reports(job.current(), outcome);
    reveal_with_fuel(ReapplyView::run, 4);
    reveal_with_fuel(ReapplyView::trace, 4);
    if !outcome.exists {
        assert(reports.drop_first() =~= Seq::<bool>::empty());
    } else if job.current().degrees() == 0 {
        assert(reports.drop_first() =~= seq![outcome.shown]);
        assert(reports.drop_first().drop_first() =~= Seq::<bool>::empty());
    } else {
        assert(reports.drop_first() =~= seq![outcome.rotated, outcome.shown]);
        assert(reports.drop_first().drop_first() =~= seq![outcome.shown]);
        assert(reports.drop_first().drop_first().drop_first() =~= Seq::<bool>::empty());
    }
    assert(job.trace(reports) =~= entry_steps(job.current(), job.slot, outcome));
}

/// After the outcomes for the first `done` entries, a job has taken the steps for
/// those entries and stands at the look for the next entry's file.
pub proof fn lemma_reapply_prefix(
    entries: Seq<AssignmentView>,
    slot: Seq<char>,
    outcomes: Seq<EntryOutcome>,
    done: int,
)
    requires
        outcomes.len() == entries.len(),
        0 <= done <= entries.len(),
    ensures
        ReapplyView::start(entries, slot).trace(
            all_reports(entries.take(done), outcomes.take(done)),
        ) == all_steps(entries.take(done), slot, outcomes.take(done)),
        ReapplyView::start(entries, slot).run(
            all_reports(entries.take(done), outcomes.take(done)),
        ) == (ReapplyView { cursor: done, ..ReapplyView::start(entries, slot) }),
    decreases done,
{
    let job = ReapplyView::start(entries, slot);
    if done > 0 {
        let before = all_reports(entries.take(done - 1), outcomes.take(done - 1));
        let own = entry_reports(entries[done - 1], outcomes[done - 1]);
        lemma_reapply_prefix(entries, slot, outcomes, done - 1);
        assert(entries.take(done).drop_last() =~= entries.take(done - 1));
        assert(outcomes.take(done).drop_last() =~= outcomes.take(done - 1));
        assert(all_reports(entries.take(done), outcomes.take(done)) == before + own);
        lemma_reapply_run_append(job, before, own);
        lemma_entry_runs(job.run(before), outcomes[done - 1]);
    }
}

/// Showing every remembered image again takes the steps of `all_steps` and is
/// finished when they are taken.
pub proof fn lemma_reapply_runs(
    entries: Seq<AssignmentView>,
    slot: Seq<char>,
    outcomes: Seq<EntryOutcome>,
)
    requires
        outcomes.len() == entries.len(),
    ensures
        ReapplyView::start(entries, slot).trace(all_reports(entries, outcomes)) == all_steps(
            entries,
            slot,
            outcomes,
        ),
        ReapplyView::start(entries, slot).run(all_reports(entries, outcomes)).finished(),
{
    lemma_reapply_prefix(entries, slot, outcomes, entries.len() as int);
    assert(entries.take(entries.len() as int) =~= entries);
    assert(outcomes.take(entries.len() as int) =~= outcomes);
}

/// The steps for the first entries come first among the steps for more of them.
pub proof fn lemma_steps_prefix(
    entries: Seq<AssignmentView>,
    slot: Seq<char>,
    outcomes: Seq<EntryOutcome>,
    fewer: int,
    more: int,
)
    requires
        outcomes.len() == entries.len(),
        0 <= fewer <= more <= entries.len(),
    ensures
        all_steps(entries.take(fewer), slot, outcomes.take(fewer)).len() <= all_steps(
            entries.take(more),
            slot,
            outcomes.take(more),
        ).len(),
        all_steps(entries.take(more), slot, outcomes.take(more)).take(
            all_steps(entries.take(fewer), slot, outcomes.take(fewer)).len() as int,
        ) == all_steps(entries.take(fewer), slot, outcomes.take(fewer)),
    decreases more - fewer,
{
    let short = all_steps(entries.take(fewer), slot, outcomes.take(fewer));
    if fewer == more {
        assert(short.take(short.len() as int) =~= short);
    } else {
        lemma_steps_prefix(entries, slot, outcomes, fewer, more - 1);
        assert(entries.take(more).drop_last() =~= entries.take(more - 1));
        assert(outcomes.take(more).drop_last() =~= outcomes.take(more - 1));
        let middle = all_steps(entries.take(more - 1), slot, outcomes.take(more - 1));
        let long = all_steps(entries.take(more), slot, outcomes.take(more));
        assert(long == middle + entry_steps(entries[more - 1], slot, outcomes[more - 1]));
        assert(long.take(short.len() as int) =~= middle.take(short.len() as int));
    }
}

/// What is done for one monitor depends on no other monitor. Among the steps of a whole
/// run, those for the entry at place `i` follow those for the entries before it and are
/// the steps of `entry_steps` for that entry and its own outcome, however the steps for
/// the other entries end.
pub proof fn lemma_entry_independent(
    entries: Seq<AssignmentView>,
    slot: Seq<char>,
    outcomes: Seq<EntryOutcome>,
    i: int,
)
    requires
        outcomes.len() == entries.len(),
        0 <= i < entries.len(),
    ensures
        ({
            let whole = ReapplyView::start(entries, slot).trace(all_reports(entries, outcomes));
            let before = all_steps(entries.take(i), slot, outcomes.take(i)).len() as int;
            let own = entry_steps(entries[i], slot, outcomes[i]);
            &&& before + own.len() <= whole.len()
            &&& whole.subrange(before, before + own.len()) == own
        }),
{
    lemma_reapply_runs(entries, slot, outcomes);
    lemma_steps_prefix(entries, slot, outcomes, i + 1, entries.len() as int);
    assert(entries.take(entries.len() as int) =~= entries);
    assert(outcomes.take(entries.len() as int) =~= outcomes);
    assert(entries.take(i + 1).drop_last() =~= entries.take(i));
    assert(outcomes.take(i + 1).drop_last() =~= outcomes.take(i));
    let whole = all_steps(entries, slot, outcomes);
    let before = all_steps(entries.take(i), slot, outcomes.take(i));
    let own = entry_steps(entries[i], slot, outcomes[i]);
    let upto = all_steps(entries.take(i + 1), slot, outcomes.take(i + 1));
    assert(upto == before + own);
    assert(whole.take(upto.len() as int) == upto);
    assert forall|j: int| 0 <= j < own.len() implies whole[before.len() + j] == own[j] by {
        assert(whole.take(upto.len() as int)[before.len() + j] == upto[before.len() + j]);
    }
    assert(whole.subrange(before.len() as int, before.len() as int + own.len()) =~= own);
}

/// Whatever is reported to a job that shows the remembered images again, it never asks
/// for the state to be written, and it asks the converter for one turn only: that of the
/// orientation (a quarter for `Vertical`) and that of the rotation (a half for `Deg180`)
/// remembered for the monitor, added within the full circle. Where that is no turn, the
/// converter is not asked at all.
pub proof fn lemma_reapply_steps(job: ReapplyView, outcomes: Seq<bool>, k: int)
    requires
        job.valid(),
        0 <= k < job.trace(outcomes).len(),
    ensures
        job.trace(outcomes)[k] != ActionView::Save,
        job.trace(outcomes)[k] matches ActionView::Rotate { source, degrees, target } ==> exists|
            i: int,
        |
            {
                &&& 0 <= i < job.entries.len()
                &&& source == (#[trigger] job.entries[i]).image_path
                &&& target == job.slot
                &&& degrees != 0
                &&& degrees == ((if job.entries[i].orientation == Orientation::Vertical {
                    90nat
                } else {
                    0nat
                }) + (if job.entries[i].rotation == Rotation::Deg180 {
                    180nat
                } else {
                    0nat
                })) % 360
            },
    decreases outcomes.len(),
{
    if k > 0 {
        lemma_reapply_step_valid(job, outcomes[0]);
        lemma_reapply_steps(job.step(outcomes[0]).0, outcomes.drop_first(), k - 1);
    } else {
        if job.action() is Rotate {
            assert(job.entries[job.cursor] == job.current());
        }
    }
}

/// A monitor without a remembered orientation is taken as `Horizontal`, and one without
/// a remembered rotation as `Deg0`.
pub proof fn lemma_missing_transform_defaults(
    applied: Seq<(Seq<char>, Seq<char>)>,
    state: StateView,
    i: int,
)
    requires
        0 <= i < applied.len(),
    ensures
        !state.orientation.contains_key(applied[i].0) ==> entries_of(applied, state)[i].orientation
            == Orientation::Horizontal,
        !state.rotation.contains_key(applied[i].0) ==> entries_of(applied, state)[i].rotation
            == Rotation::Deg0,
        state.orientation.contains_key(applied[i].0) ==> entries_of(applied, state)[i].orientation
            == state.orientation[applied[i].0],
        state.rotation.contains_key(applied[i].0) ==> entries_of(applied, state)[i].rotation
            == state.rotation[applied[i].0],
{
}

} // verus!
