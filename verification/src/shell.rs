//! The picker window: which dialog is open, and what a click leads to.
//!
//! The window itself is drawn elsewhere. Here is what it has to remember between two
//! frames, and for every click the change to that and the request that follows: to set
//! an image, or to rename or delete a file.

use vstd::prelude::*;
use crate::state::{StateView, WallpaperState};
use crate::text::{chars_of, is_space, join_path, joined, lemma_run_len, run_end};
use crate::transform::{Orientation, Rotation};

verus! {

/// The dialog that asks how the monitor is mounted before an image is set on it.
#[derive(Debug)]
pub struct OrientationDialog {
    pub monitor: String,
    pub image_path: String,
    /// The choice shown as taken.
    pub orientation: Orientation,
}

/// The dialog that asks for the new name of an image file.
#[derive(Debug)]
pub struct RenameDialog {
    /// The path of the file to rename.
    pub target: String,
    /// The name typed so far.
    pub new_name: String,
}

/// What the window remembers between two frames. At most one dialog of each kind is open.
#[derive(Debug)]
pub struct Shell {
    pub orientation_dialog: Option<OrientationDialog>,
    pub rename_dialog: Option<RenameDialog>,
    /// The path of the file whose deletion waits to be confirmed.
    pub delete_dialog: Option<String>,
}

/// A click.
#[derive(Debug)]
pub enum Event {
    /// The button of `monitor` beside the image at `image_path`.
    SetClicked { monitor: String, image_path: String },
    /// `Apply` in the orientation dialog.
    ApplyClicked,
    /// `Cancel` in the orientation dialog.
    OrientationCancelled,
    /// `Rename` beside the image at `image_path`, whose file name is `file_name`.
    RenameClicked { image_path: String, file_name: String },
    /// `Save` in the rename dialog.
    RenameSaveClicked,
    /// The file system's answer to the last request to rename.
    RenameFinished { renamed: bool },
    /// `Cancel` in the rename dialog.
    RenameCancelled,
    /// `Delete` beside the image at `image_path`.
    DeleteClicked { image_path: String },
    /// `Yes` in the delete dialog.
    DeleteConfirmed,
    /// `Cancel` in the delete dialog.
    DeleteCancelled,
}

/// What the window asks of its caller after a click.
#[derive(Debug)]
pub enum Request {
    Nothing,
    /// Set the image on the monitor, with this transform.
    SetWallpaper {
        monitor: String,
        image_path: String,
        orientation: Orientation,
        rotation: Rotation,
    },
    /// Rename the file at `from` to `to`, and answer with `RenameFinished`.
    Rename { from: String, to: String },
    /// Delete the file at `path`.
    Delete { path: String },
}

/// An `OrientationDialog` with its texts as sequences of characters.
pub struct OrientationDialogView {
    pub monitor: Seq<char>,
    pub image_path: Seq<char>,
    pub orientation: Orientation,
}

/// A `RenameDialog` with its texts as sequences of characters.
pub struct RenameDialogView {
    pub target: Seq<char>,
    pub new_name: Seq<char>,
}

/// A `Shell` with its texts as sequences of characters.
pub struct ShellView {
    pub orientation_dialog: Option<OrientationDialogView>,
    pub rename_dialog: Option<RenameDialogView>,
    pub delete_dialog: Option<Seq<char>>,
}

/// An `Event` with its texts as sequences of characters.
pub enum EventView {
    SetClicked { monitor: Seq<char>, image_path: Seq<char> },
    ApplyClicked,
    OrientationCancelled,
    RenameClicked { image_path: Seq<char>, file_name: Seq<char> },
    RenameSaveClicked,
    RenameFinished { renamed: bool },
    RenameCancelled,
    DeleteClicked { image_path: Seq<char> },
    DeleteConfirmed,
    DeleteCancelled,
}

/// A `Request` with its texts as sequences of characters.
pub enum RequestView {
    Nothing,
    SetWallpaper {
        monitor: Seq<char>,
        image_path: Seq<char>,
        orientation: Orientation,
        rotation: Rotation,
    },
    Rename { from: Seq<char>, to: Seq<char> },
    Delete { path: Seq<char> },
}

impl View for OrientationDialog {
    type V = OrientationDialogView;

    open spec fn view(&self) -> OrientationDialogView {
        OrientationDialogView {
            monitor: self.monitor@,
            image_path: self.image_path@,
            orientation: self.orientation,
        }
    }
}

impl View for RenameDialog {
    type V = RenameDialogView;

    open spec fn view(&self) -> RenameDialogView {
        RenameDialogView { target: self.target@, new_name: self.new_name@ }
    }
}

impl View for Shell {
    type V = ShellView;

    open spec fn view(&self) -> ShellView {
        ShellView {
            orientation_dialog: match self.orientation_dialog {
                Some(dialog) => Some(dialog@),
                None => None,
            },
            rename_dialog: match self.rename_dialog {
                Some(dialog) => Some(dialog@),
                None => None,
            },
            delete_dialog: match self.delete_dialog {
                Some(path) => Some(path@),
                None => None,
            },
        }
    }
}

impl View for Event {
    type V = EventView;

    open spec fn view(&self) -> EventView {
        match self {
            Event::SetClicked { monitor, image_path } => EventView::SetClicked {
                monitor: monitor@,
                image_path: image_path@,
            },
            Event::ApplyClicked => EventView::ApplyClicked,
            Event::OrientationCancelled => EventView::OrientationCancelled,
            Event::RenameClicked { image_path, file_name } => EventView::RenameClicked {
                image_path: image_path@,
                file_name: file_name@,
            },
            Event::RenameSaveClicked => EventView::RenameSaveClicked,
            Event::RenameFinished { renamed } => EventView::RenameFinished { renamed: *renamed },
            Event::RenameCancelled => EventView::RenameCancelled,
            Event::DeleteClicked { image_path } => EventView::DeleteClicked {
                image_path: image_path@,
            },
            Event::DeleteConfirmed => EventView::DeleteConfirmed,
            Event::DeleteCancelled => EventView::DeleteCancelled,
        }
    }
}

impl View for Request {
    type V = RequestView;

    open spec fn view(&self) -> RequestView {
        match self {
            Request::Nothing => RequestView::Nothing,
            Request::SetWallpaper { monitor, image_path, orientation, rotation } =>
                RequestView::SetWallpaper {
                    monitor: monitor@,
                    image_path: image_path@,
                    orientation: *orientation,
                    rotation: *rotation,
                },
            Request::Rename { from, to } => RequestView::Rename { from: from@, to: to@ },
            Request::Delete { path } => RequestView::Delete { path: path@ },
        }
    }
}

/// Whether `name` holds nothing but white space.
pub open spec fn is_blank(name: Seq<char>) -> bool {
    forall|i: int| 0 <= i < name.len() ==> is_space(#[trigger] name[i])
}

/// Whether `name` holds nothing but white space.
pub fn is_blank_name(name: &str) -> (blank: bool)
    ensures
        blank == is_blank(name@),
{
    let chars = chars_of(name);
    let end = run_end(&chars, 0, true);
    proof {
        assert(chars@.skip(0) =~= chars@);
        lemma_run_len(chars@, true);
        if end < chars@.len() {
            assert(!is_space(name@[end as int]));
        }
    }
    end == chars.len()
}

impl ShellView {
    /// The window with no dialog open.
    pub open spec fn closed() -> ShellView {
        ShellView { orientation_dialog: None, rename_dialog: None, delete_dialog: None }
    }

    /// The window and the request after `event`.
    ///
    /// The orientation dialog opens with the orientation remembered for the monitor.
    /// `Apply` asks for the image to be set with the orientation chosen in the dialog and
    /// the rotation remembered for the monitor. `Save` asks for the file to be renamed
    /// within `images_dir` unless the new name is blank, and the rename dialog closes
    /// only when the file was renamed. `Yes` asks for the file to be deleted. A click in
    /// a dialog that is not open does nothing.
    pub open spec fn step(self, event: EventView, state: StateView, images_dir: Seq<char>) -> (
        ShellView,
        RequestView,
    ) {
        match event {
            EventView::SetClicked { monitor, image_path } => (
                ShellView {
                    orientation_dialog: Some(
                        OrientationDialogView {
                            monitor,
                            image_path,
                            orientation: state.orientation_of(monitor),
                        },
                    ),
                    ..self
                },
                RequestView::Nothing,
            ),
            EventView::ApplyClicked => match self.orientation_dialog {
                Some(dialog) => (
                    ShellView { orientation_dialog: None, ..self },
                    RequestView::SetWallpaper {
                        monitor: dialog.monitor,
                        image_path: dialog.image_path,
                        orientation: dialog.orientation,
                        rotation: state.rotation_of(dialog.monitor),
                    },
                ),
                None => (self, RequestView::Nothing),
            },
            EventView::OrientationCancelled => (
                ShellView { orientation_dialog: None, ..self },
                RequestView::Nothing,
            ),
            EventView::RenameClicked { image_path, file_name } => (
                ShellView {
                    rename_dialog: Some(
                        RenameDialogView { target: image_path, new_name: file_name },
                    ),
                    ..self
                },
                RequestView::Nothing,
            ),
            EventView::RenameSaveClicked => match self.rename_dialog {
                Some(dialog) if !is_blank(dialog.new_name) => (
                    self,
                    RequestView::Rename {
                        from: dialog.target,
                        to: joined(images_dir, dialog.new_name),
                    },
                ),
                _ => (self, RequestView::Nothing),
            },
            EventView::RenameFinished { renamed } => if renamed {
                (ShellView { rename_dialog: None, ..self }, RequestView::Nothing)
            } else {
                (self, RequestView::Nothing)
            },
            EventView::RenameCancelled => (
                ShellView { rename_dialog: None, ..self },
                RequestView::Nothing,
            ),
            EventView::DeleteClicked { image_path } => (
                ShellView { delete_dialog: Some(image_path), ..self },
                RequestView::Nothing,
            ),
            EventView::DeleteConfirmed => match self.delete_dialog {
                Some(path) => (
                    ShellView { delete_dialog: None, ..self },
                    RequestView::Delete { path },
                ),
                None => (self, RequestView::Nothing),
            },
            EventView::DeleteCancelled => (
                ShellView { delete_dialog: None, ..self },
                RequestView::Nothing,
            ),
        }
    }
}

impl Shell {
    /// The window with no dialog open.
    pub fn new() -> (shell: Shell)
        ensures
            shell@ == ShellView::closed(),
    {
        Shell { orientation_dialog: None, rename_dialog: None, delete_dialog: None }
    }

    /// Takes in a click. `state` is what is remembered of the monitors, and `images_dir`
    /// the folder whose images are shown.
    pub fn handle(&mut self, event: Event, state: &WallpaperState, images_dir: &str) -> (request:
        Request)
        ensures
            final(self)@ == old(self)@.step(event@, state@, images_dir@).0,
            request@ == old(self)@.step(event@, state@, images_dir@).1,
    {
        match event {
            Event::SetClicked { monitor, image_path } => {
                let orientation = state.orientation_of(monitor.as_str());
                self.orientation_dialog = Some(
                    OrientationDialog { monitor, image_path, orientation },
                );
                Request::Nothing
            },
            Event::ApplyClicked => {
                let dialog = self.orientation_dialog.take();
                match dialog {
                    Some(dialog) => {
                        let rotation = state.rotation_of(dialog.monitor.as_str());
                        Request::SetWallpaper {
                            monitor: dialog.monitor,
                            image_path: dialog.image_path,
                            orientation: dialog.orientation,
                            rotation,
                        }
                    },
                    None => Request::Nothing,
                }
            },
            Event::OrientationCancelled => {
                self.orientation_dialog = None;
                Request::Nothing
            },
            Event::RenameClicked { image_path, file_name } => {
                self.rename_dialog = Some(RenameDialog { target: image_path, new_name: file_name });
                Request::Nothing
            },
            Event::RenameSaveClicked => {
                match &self.rename_dialog {
                    Some(dialog) => {
                        if is_blank_name(dialog.new_name.as_str()) {
                            Request::Nothing
                        } else {
                            Request::Rename {
                                from: dialog.target.clone(),
                                to: join_path(images_dir, dialog.new_name.as_str()),
                            }
                        }
                    },
                    None => Request::Nothing,
                }
            },
            Event::RenameFinished { renamed } => {
                if renamed {
                    self.rename_dialog = None;
                }
                Request::Nothing
            },
            Event::RenameCancelled => {
                self.rename_dialog = None;
                Request::Nothing
            },
            Event::DeleteClicked { image_path } => {
                self.delete_dialog = Some(image_path);
                Request::Nothing
            },
            Event::DeleteConfirmed => {
                let dialog = self.delete_dialog.take();
                match dialog {
                    Some(path) => Request::Delete { path },
                    None => Request::Nothing,
                }
            },
            Event::DeleteCancelled => {
                self.delete_dialog = None;
                Request::Nothing
            },
        }
    }
}

} // verus!
