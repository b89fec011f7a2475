//! Display transforms: how a panel is mounted and the extra turn a user picks.

use vstd::prelude::*;
use crate::text::same_text;

verus! {

/// How the physical panel is mounted.
#[derive(Clone, Copy, Debug, PartialEq, Eq, Structural)]
pub enum Orientation {
    Horizontal,
    Vertical,
}

/// An extra turn chosen by the user, on top of the orientation.
#[derive(Clone, Copy, Debug, PartialEq, Eq, Structural)]
pub enum Rotation {
    /// No extra turn; stored under the name `None`.
    Deg0,
    Deg180,
}

impl View for Orientation {
    type V = Orientation;

    open spec fn view(&self) -> Orientation {
        *self
    }
}

impl View for Rotation {
    type V = Rotation;

    open spec fn view(&self) -> Rotation {
        *self
    }
}

impl Orientation {
    /// Degrees an image is turned by for a panel mounted this way.
    pub open spec fn turn(self) -> nat {
        match self {
            Orientation::Horizontal => 0,
            Orientation::Vertical => 90,
        }
    }

    /// The name under which this value is stored.
    pub open spec fn label(self) -> Seq<char> {
        match self {
            Orientation::Horizontal => "Horizontal"@,
            Orientation::Vertical => "Vertical"@,
        }
    }

    /// The value stored under `name`, if `name` is one of the two labels.
    pub open spec fn parse(name: Seq<char>) -> Option<Orientation> {
        if name == "Horizontal"@ {
            Some(Orientation::Horizontal)
        } else if name == "Vertical"@ {
            Some(Orientation::Vertical)
        } else {
            None
        }
    }

    /// Degrees an image is turned by for a panel mounted this way.
    pub fn degrees(self) -> (d: u32)
        ensures
            d == self.turn(),
    {
        match self {
            Orientation::Horizontal => 0,
            Orientation::Vertical => 90,
        }
    }

    /// The name under which this value is stored.
    pub fn name(self) -> (s: &'static str)
        ensures
            s@ == self.label(),
    {
        match self {
            Orientation::Horizontal => "Horizontal",
            Orientation::Vertical => "Vertical",
        }
    }

    /// The orientation stored under `name`; none where `name` is no label of one.
    pub fn from_name(name: &str) -> (o: Option<Orientation>)
        ensures
            o == Orientation::parse(name@),
    {
        if same_text(name, "Horizontal") {
            Some(Orientation::Horizontal)
        } else if same_text(name, "Vertical") {
            Some(Orientation::Vertical)
        } else {
            None
        }
    }

    /// Every orientation is read back from its own label.
    pub proof fn lemma_label_parses(self)
        ensures
            Orientation::parse(self.label()) == Some(self),
    {
        reveal_strlit("Horizontal");
        reveal_strlit("Vertical");
        assert("Horizontal"@.len() != "Vertical"@.len());
    }

    /// A name that parses is the label of what it parses to.
    pub proof fn lemma_parse_is_label(name: Seq<char>)
        ensures
            Orientation::parse(name) matches Some(o) ==> o.label() == name,
    {
    }
}

impl Rotation {
    /// Degrees this extra turn adds.
    pub open spec fn turn(self) -> nat {
        match self {
            Rotation::Deg0 => 0,
            Rotation::Deg180 => 180,
        }
    }

    /// The name under which this value is stored.
    pub open spec fn label(self) -> Seq<char> {
        match self {
            Rotation::Deg0 => "None"@,
            Rotation::Deg180 => "Deg180"@,
        }
    }

    /// The value stored under `name`, if `name` is one of the two labels.
    pub open spec fn parse(name: Seq<char>) -> Option<Rotation> {
        if name == "None"@ {
            Some(Rotation::Deg0)
        } else if name == "Deg180"@ {
            Some(Rotation::Deg180)
        } else {
            None
        }
    }

    /// Degrees this extra turn adds.
    pub fn degrees(self) -> (d: u32)
        ensures
            d == self.turn(),
    {
        match self {
            Rotation::Deg0 => 0,
            Rotation::Deg180 => 180,
        }
    }

    /// The name under which this value is stored.
    pub fn name(self) -> (s: &'static str)
        ensures
            s@ == self.label(),
    {
        match self {
            Rotation::Deg0 => "None",
            Rotation::Deg180 => "Deg180",
        }
    }

    /// The rotation stored under `name`; none where `name` is no label of one.
    pub fn from_name(name: &str) -> (r: Option<Rotation>)
        ensures
            r == Rotation::parse(name@),
    {
        if same_text(name, "None") {
            Some(Rotation::Deg0)
        } else if same_text(name, "Deg180") {
            Some(Rotation::Deg180)
        } else {
            None
        }
    }

    /// Every rotation is read back from its own label.
    pub proof fn lemma_label_parses(self)
        ensures
            Rotation::parse(self.label()) == Some(self),
    {
        reveal_strlit("None");
        reveal_strlit("Deg180");
        assert("None"@.len() != "Deg180"@.len());
    }

    /// A name that parses is the label of what it parses to.
    pub proof fn lemma_parse_is_label(name: Seq<char>)
        ensures
            Rotation::parse(name) matches Some(r) ==> r.label() == name,
    {
    }
}

/// The turn, in degrees, that brings an image upright on a panel mounted as
/// `orientation` with the extra `rotation`: both turns added, within a full circle.
pub open spec fn total_turn(orientation: Orientation, rotation: Rotation) -> nat {
    (orientation.turn() + rotation.turn()) % 360
}

/// The degrees by which an image is turned for `orientation` and `rotation` together.
pub fn total_degrees(orientation: Orientation, rotation: Rotation) -> (d: u32)
    ensures
        d == total_turn(orientation, rotation),
{
    (orientation.degrees() + rotation.degrees()) % 360
}

} // verus!
