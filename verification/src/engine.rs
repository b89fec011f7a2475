//! Setting an image on a monitor, step by step.
//!
//! The work needs three outside programs: one that turns an image, one that shows it,
//! and the store that writes the state down. None of them is run here. A job says which
//! step is due, the caller carries it out and reports how it went, and the job decides
//! what follows.

use vstd::prelude::*;
use vstd::string::StringExecFns;
use crate::state::{StateView, WallpaperState};
use crate::text::{join_path, joined};
use crate::transform::{total_degrees, total_turn, Orientation, Rotation};

verus! {

/// One image for one monitor, with the transform of that monitor.
#[derive(Debug)]
pub struct Assignment {
    pub monitor: String,
    /// The image the user chose, never a turned copy of it.
    pub image_path: String,
    pub orientation: Orientation,
    pub rotation: Rotation,
}

/// An `Assignment` with its texts as sequences of characters.
pub struct AssignmentView {
    pub monitor: Seq<char>,
    pub image_path: Seq<char>,
    pub orientation: Orientation,
    pub rotation: Rotation,
}

impl View for Assignment {
    type V = AssignmentView;

    open spec fn view(&self) -> AssignmentView {
        AssignmentView {
            monitor: self.monitor@,
            image_path: self.image_path@,
            orientation: self.orientation,
            rotation: self.rotation,
        }
    }
}

impl AssignmentView {
    /// The degrees by which the image has to be turned before it is shown.
    pub open spec fn degrees(self) -> nat {
        total_turn(self.orientation, self.rotation)
    }

    /// The path handed to the daemon: the turned copy at `slot` where one was made,
    /// the image itself otherwise.
    pub open spec fn effective_path(self, slot: Seq<char>, rotated: bool) -> Seq<char> {
        if rotated {
            slot
        } else {
            self.image_path
        }
    }
}

impl Assignment {
    /// The degrees by which the image has to be turned before it is shown.
    pub fn degrees(&self) -> (d: u32)
        ensures
            d == self@.degrees(),
    {
        total_degrees(self.orientation, self.rotation)
    }
}

/// A step that the caller carries out.
#[derive(Debug)]
pub enum Action {
    /// Find out whether a file exists at `path`.
    Probe { path: String },
    /// Have the converter write `source`, turned by `degrees`, to `target`.
    Rotate { source: String, degrees: u32, target: String },
    /// Have the daemon show the file at `path` on `monitor`.
    Show { monitor: String, path: String },
    /// Write the state to the store.
    Save,
    /// Nothing is left to do.
    Done,
}

/// An `Action` with its texts as sequences of characters.
pub enum ActionView {
    Probe { path: Seq<char> },
    Rotate { source: Seq<char>, degrees: nat, target: Seq<char> },
    Show { monitor: Seq<char>, path: Seq<char> },
    Save,
    Done,
}

impl View for Action {
    type V = ActionView;

    open spec fn view(&self) -> ActionView {
        match self {
            Action::Probe { path } => ActionView::Probe { path: path@ },
            Action::Rotate { source, degrees, target } => ActionView::Rotate {
                source: source@,
                degrees: *degrees as nat,
                target: target@,
            },
            Action::Show { monitor, path } => ActionView::Show { monitor: monitor@, path: path@ },
            Action::Save => ActionView::Save,
            Action::Done => ActionView::Done,
        }
    }
}

/// What a reported outcome means to the user.
#[derive(Clone, Copy, Debug, PartialEq, Eq, Structural)]
pub enum Notice {
    /// Nothing worth telling.
    Quiet,
    /// The image file is gone: its monitor is passed over and stays remembered.
    ImageMissing,
    /// The converter failed: the image is shown as it is.
    RotateFailed,
    /// The daemon shows the image.
    Applied,
    /// The daemon failed: nothing is remembered of this request.
    ApplyFailed,
    /// The state could not be written: it is remembered until the program ends.
    SaveFailed,
}

/// The file name of the turned copy. Every job writes to the same name.
pub open spec fn slot_name() -> Seq<char> {
    "wallpaper_rotated.jpg"@
}

/// The path of the turned copy in the temporary directory `temp_dir`.
pub open spec fn derivative_path(temp_dir: Seq<char>) -> Seq<char> {
    joined(temp_dir, slot_name())
}

/// The path of the turned copy in the temporary directory `temp_dir`.
pub fn rotated_image_path(temp_dir: &str) -> (path: String)
    ensures
        path@ == derivative_path(temp_dir@),
{
    join_path(temp_dir, "wallpaper_rotated.jpg")
}

/// Where a job to set one image stands.
#[derive(Clone, Copy, Debug, PartialEq, Eq, Structural)]
pub enum SetPhase {
    /// The converter is due.
    Rotating,
    /// The daemon is due, with the turned copy where `rotated` holds.
    Showing { rotated: bool },
    /// The image is shown and remembered; the store is due.
    Saving,
    /// Nothing is due.
    Done,
}

/// A `SetJob` as plain values.
pub struct SetJobView {
    pub assignment: AssignmentView,
    /// Where the turned copy is written.
    pub slot: Seq<char>,
    pub phase: SetPhase,
}

impl SetJobView {
    /// The job for `assignment` before anything was done: the converter comes first
    /// where the image has to be turned, the daemon otherwise.
    pub open spec fn start(assignment: AssignmentView, slot: Seq<char>) -> SetJobView {
        SetJobView {
            assignment,
            slot,
            phase: if assignment.degrees() == 0 {
                SetPhase::Showing { rotated: false }
            } else {
                SetPhase::Rotating
            },
        }
    }

    /// Holds of every job that `start` and `step` lead to: the converter is never due,
    /// and no turned copy is ever shown, for an image that needs no turn.
    pub open spec fn valid(self) -> bool {
        self.assignment.degrees() == 0 ==> self.phase != SetPhase::Rotating && self.phase
            != (SetPhase::Showing { rotated: true })
    }

    /// The step that is due.
    pub open spec fn action(self) -> ActionView {
        match self.phase {
            SetPhase::Rotating => ActionView::Rotate {
                source: self.assignment.image_path,
                degrees: self.assignment.degrees(),
                target: self.slot,
            },
            SetPhase::Showing { rotated } => ActionView::Show {
                monitor: self.assignment.monitor,
                path: self.assignment.effective_path(self.slot, rotated),
            },
            SetPhase::Saving => ActionView::Save,
            SetPhase::Done => ActionView::Done,
        }
    }

    /// The job, the state and the notice after the step that was due ended as
    /// `succeeded` says.
    ///
    /// A failed converter changes only the file that is shown. The state changes in one
    /// place, when the daemon succeeds, and then by the whole assignment; when it fails
    /// the job ends with the state as it was.
    pub open spec fn step(self, state: StateView, succeeded: bool) -> (
        SetJobView,
        StateView,
        Notice,
    ) {
        match self.phase {
            SetPhase::Rotating => (
                SetJobView { phase: SetPhase::Showing { rotated: succeeded }, ..self },
                state,
                if succeeded {
                    Notice::Quiet
                } else {
                    Notice::RotateFailed
                },
            ),
            SetPhase::Showing { rotated } => if succeeded {
                (
                    SetJobView { phase: SetPhase::Saving, ..self },
                    state.assign(
                        self.assignment.monitor,
                        self.assignment.image_path,
                        self.assignment.orientation,
                        self.assignment.rotation,
                    ),
                    Notice::Applied,
                )
            } else {
                (SetJobView { phase: SetPhase::Done, ..self }, state, Notice::ApplyFailed)
            },
            SetPhase::Saving => (
                SetJobView { phase: SetPhase::Done, ..self },
                state,
                if succeeded {
                    Notice::Quiet
                } else {
                    Notice::SaveFailed
                },
            ),
            SetPhase::Done => (self, state, Notice::Quiet),
        }
    }
}

/// The work of showing one image on one monitor and remembering it.
#[derive(Debug)]
pub struct SetJob {
    assignment: Assignment,
    slot: String,
    phase: SetPhase,
}

impl View for SetJob {
    type V = SetJobView;

    closed spec fn view(&self) -> SetJobView {
        SetJobView { assignment: self.assignment@, slot: self.slot@, phase: self.phase }
    }
}

/// Begins the work of showing `image_path` on `monitor`, turned as `orientation` and
/// `rotation` ask. A turned copy goes to the one slot under `temp_dir`.
pub fn set_wallpaper(
    monitor: &str,
    image_path: &str,
    orientation: Orientation,
    rotation: Rotation,
    temp_dir: &str,
) -> (job: SetJob)
    ensures
        job@ == SetJobView::start(
            AssignmentView { monitor: monitor@, image_path: image_path@, orientation, rotation },
            derivative_path(temp_dir@),
        ),
        job@.valid(),
{
    let phase = if total_degrees(orientation, rotation) == 0 {
        SetPhase::Showing { rotated: false }
    } else {
        SetPhase::Rotating
    };
    SetJob {
        assignment: Assignment {
            monitor: String::from_str(monitor),
            image_path: String::from_str(image_path),
            orientation,
            rotation,
        },
        slot: rotated_image_path(temp_dir),
        phase,
    }
}

impl SetJob {
    #[verifier::type_invariant]
    spec fn inv(&self) -> bool {
        self@.valid()
    }

    /// What this job sets.
    pub fn assignment(&self) -> (assignment: &Assignment)
        ensures
            assignment@ == self@.assignment,
    {
        &self.assignment
    }

    /// Where this job stands.
    pub fn phase(&self) -> (phase: SetPhase)
        ensures
            phase == self@.phase,
    {
        self.phase
    }

    /// Whether nothing is due any more.
    pub fn is_done(&self) -> (done: bool)
        ensures
            done == (self@.phase == SetPhase::Done),
            done == (self@.action() == ActionView::Done),
    {
        self.phase == SetPhase::Done
    }

    /// The step that is due.
    pub fn pending(&self) -> (action: Action)
        ensures
            action@ == self@.action(),
            self@.valid(),
    {
        proof {
            use_type_invariant(self);
        }
        match self.phase {
            SetPhase::Rotating => Action::Rotate {
                source: self.assignment.image_path.clone(),
                degrees: self.assignment.degrees(),
                target: self.slot.clone(),
            },
            SetPhase::Showing { rotated } => Action::Show {
                monitor: self.assignment.monitor.clone(),
                path: if rotated {
                    self.slot.clone()
                } else {
                    self.assignment.image_path.clone()
                },
            },
            SetPhase::Saving => Action::Save,
            SetPhase::Done => Action::Done,
        }
    }

    /// Takes in how the pending step went, and changes `state` where that is owed.
    pub fn report(&mut self, state: &mut WallpaperState, succeeded: bool) -> (notice: Notice)
        ensures
            final(self)@ == old(self)@.step(old(state)@, succeeded).0,
            final(state)@ == old(self)@.step(old(state)@, succeeded).1,
            notice == old(self)@.step(old(state)@, succeeded).2,
            final(self)@.valid(),
    {
        proof {
            use_type_invariant(&*self);
        }
        match self.phase {
            SetPhase::Rotating => {
                self.phase = SetPhase::Showing { rotated: succeeded };
                if succeeded {
                    Notice::Quiet
                } else {
                    Notice::RotateFailed
                }
            },
            SetPhase::Showing { rotated: _ } => {
                if succeeded {
                    state.assign(
                        self.assignment.monitor.as_str(),
                        self.assignment.image_path.as_str(),
                        self.assignment.orientation,
                        self.assignment.rotation,
                    );
                    self.phase = SetPhase::Saving;
                    Notice::Applied
                } else {
                    self.phase = SetPhase::Done;
                    Notice::ApplyFailed
                }
            },
            SetPhase::Saving => {
                self.phase = SetPhase::Done;
                if succeeded {
                    Notice::Quiet
                } else {
                    Notice::SaveFailed
                }
            },
            SetPhase::Done => Notice::Quiet,
        }
    }
}

/// How the outside steps of one request to set an image end. An outcome counts only
/// where its step is taken.
pub struct SetOutcome {
    /// The converter wrote the turned copy.
    pub rotated: bool,
    /// The daemon showed the image.
    pub shown: bool,
    /// The store wrote the state.
    pub saved: bool,
}

/// The outcomes that a job for `assignment` is told, in order, when its steps end as
/// `outcome` says.
pub open spec fn set_reports(assignment: AssignmentView, outcome: SetOutcome) -> Seq<bool> {
    let rotate = if assignment.degrees() == 0 {
        Seq::<bool>::empty()
    } else {
        seq![outcome.rotated]
    };
    let save = if outcome.shown {
        seq![outcome.saved]
    } else {
        Seq::<bool>::empty()
    };
    rotate + seq![outcome.shown] + save
}

/// The steps of a request to set an image: the converter where the image needs a turn,
/// then the daemon, with the turned copy where one was made, then the store where the
/// daemon showed the image.
pub open spec fn set_steps(
    assignment: AssignmentView,
    slot: Seq<char>,
    outcome: SetOutcome,
) -> Seq<ActionView> {
    let rotate = if assignment.degrees() == 0 {
        Seq::<ActionView>::empty()
    } else {
        seq![
            ActionView::Rotate {
                source: assignment.image_path,
                degrees: assignment.degrees(),
                target: slot,
            },
        ]
    };
    let show = ActionView::Show {
        monitor: assignment.monitor,
        path: assignment.effective_path(slot, assignment.degrees() != 0 && outcome.rotated),
    };
    let save = if outcome.shown {
        seq![ActionView::Save]
    } else {
        Seq::<ActionView>::empty()
    };
    rotate + seq![show] + save
}

/// The state after a request to set an image: with the assignment where the daemon
/// showed the image, unchanged where it did not.
pub open spec fn set_result(
    assignment: AssignmentView,
    state: StateView,
    outcome: SetOutcome,
) -> StateView {
    if outcome.shown {
        state.assign(
            assignment.monitor,
            assignment.image_path,
            assignment.orientation,
            assignment.rotation,
        )
    } else {
        state
    }
}

impl SetJobView {
    /// The job and the state after `outcomes` were reported one after the other.
    pub open spec fn run(self, state: StateView, outcomes: Seq<bool>) -> (SetJobView, StateView)
        decreases outcomes.len(),
    {
        if outcomes.len() == 0 {
            (self, state)
        } else {
            let after = self.step(state, outcomes[0]);
            after.0.run(after.1, outcomes.drop_first())
        }
    }

    /// The steps that were due before each of `outcomes` was reported.
    pub open spec fn trace(self, state: StateView, outcomes: Seq<bool>) -> Seq<ActionView>
        decreases outcomes.len(),
    {
        if outcomes.len() == 0 {
            Seq::empty()
        } else {
            let after = self.step(state, outcomes[0]);
            seq![self.action()] + after.0.trace(after.1, outcomes.drop_first())
        }
    }
}

/// A step keeps a job valid.
pub proof fn lemma_set_step_valid(job: SetJobView, state: StateView, succeeded: bool)
    requires
        job.valid(),
    ensures
        job.step(state, succeeded).0.valid(),
        job.step(state, succeeded).0.assignment == job.assignment,
        job.step(state, succeeded).0.slot == job.slot,
{
}

/// A request to set an image takes the steps of `set_steps`, ends when they are
/// taken, and leaves the state of `set_result`.
pub proof fn lemma_set_wallpaper_runs(
    assignment: AssignmentView,
    slot: Seq<char>,
    state: StateView,
    outcome: SetOutcome,
)
    ensures
        SetJobView::start(assignment, slot).trace(state, set_reports(assignment, outcome))
            == set_steps(assignment, slot, outcome),
        SetJobView::start(assignment, slot).run(state, set_reports(assignment, outcome)).0.phase
            == SetPhase::Done,
        SetJobView::start(assignment, slot).run(state, set_reports(assignment, outcome)).1
            == set_result(assignment, state, outcome),
{
    let job = SetJobView::start(assignment, slot);
    let reports = set_reports(assignment, outcome);
    reveal_with_fuel(SetJobView::run, 4);
    reveal_with_fuel(SetJobView::trace, 4);
    if assignment.degrees() == 0 {
        if outcome.shown {
            assert(reports =~= seq![true, outcome.saved]);
            assert(reports.drop_first() =~= seq![outcome.saved]);
            assert(reports.drop_first().drop_first() =~= Seq::<bool>::empty());
        } else {
            assert(reports =~= seq![false]);
            assert(reports.drop_first() =~= Seq::<bool>::empty());
        }
    } else {
        if outcome.shown {
            assert(reports =~= seq![outcome.rotated, true, outcome.saved]);
            assert(reports.drop_first() =~= seq![true, outcome.saved]);
            assert(reports.drop_first().drop_first() =~= seq![outcome.saved]);
            assert(reports.drop_first().drop_first().drop_first() =~= Seq::<bool>::empty());
        } else {
            assert(reports =~= seq![outcome.rotated, false]);
            assert(reports.drop_first() =~= seq![false]);
            assert(reports.drop_first().drop_first() =~= Seq::<bool>::empty());
        }
    }
    assert(job.trace(state, reports) =~= set_steps(assignment, slot, outcome));
}

/// After a request for a monitor that did not hold the requested image before, the
/// monitor holds it exactly when the daemon showed it; and what it then holds is the
/// image the user chose, whatever file was handed to the daemon.
pub proof fn lemma_applied_iff_shown(
    assignment: AssignmentView,
    slot: Seq<char>,
    state: StateView,
    outcome: SetOutcome,
)
    requires
        !(state.applied.contains_key(assignment.monitor) && state.applied[assignment.monitor]
            == assignment.image_path),
    ensures
        ({
            let after = SetJobView::start(assignment, slot).run(
                state,
                set_reports(assignment, outcome),
            ).1;
            &&& outcome.shown <==> after.applied.contains_key(assignment.monitor)
                && after.applied[assignment.monitor] == assignment.image_path
            &&& !outcome.shown ==> after == state
        }),
{
    lemma_set_wallpaper_runs(assignment, slot, state, outcome);
}

/// Whatever is reported to a job, the converter is asked for one turn only: that of the
/// orientation (a quarter for `Vertical`) and that of the rotation (a half for `Deg180`)
/// added within the full circle. Where that is no turn, it is not asked at all.
pub proof fn lemma_set_rotation_degrees(
    job: SetJobView,
    state: StateView,
    outcomes: Seq<bool>,
    k: int,
)
    requires
        job.valid(),
        0 <= k < job.trace(state, outcomes).len(),
    ensures
        job.trace(state, outcomes)[k] matches ActionView::Rotate { source, degrees, target } ==> {
            &&& degrees == ((if job.assignment.orientation == Orientation::Vertical {
                90nat
            } else {
                0nat
            }) + (if job.assignment.rotation == Rotation::Deg180 {
                180nat
            } else {
                0nat
            })) % 360
            &&& degrees != 0
            &&& source == job.assignment.image_path
            &&& target == job.slot
        },
    decreases outcomes.len(),
{
    if k > 0 {
        let after = job.step(state, outcomes[0]);
        lemma_set_step_valid(job, state, outcomes[0]);
        lemma_set_rotation_degrees(after.0, after.1, outcomes.drop_first(), k - 1);
    }
}

} // verus!
