//! The remembered assignments, and the document in which they are stored.

use vstd::prelude::*;
use vstd::string::StringExecFns;
use crate::monitor_map::{
    distinct_keys, lemma_fresh_key, lemma_position_unique, lemma_relabel, map_of, position, relabel,
    MonitorMap,
};
use crate::text::same_text;
use crate::transform::{Orientation, Rotation};

verus! {

/// What is remembered of every monitor: the image last shown on it, how the panel is
/// mounted and the extra turn chosen for it.
///
/// A monitor may have any of the three without the others.
#[derive(Debug)]
pub struct WallpaperState {
    pub applied: MonitorMap<String>,
    pub orientation: MonitorMap<Orientation>,
    pub rotation: MonitorMap<Rotation>,
}

/// A `WallpaperState` as three maps keyed by monitor name.
#[verifier::ext_equal]
pub struct StateView {
    pub applied: Map<Seq<char>, Seq<char>>,
    pub orientation: Map<Seq<char>, Orientation>,
    pub rotation: Map<Seq<char>, Rotation>,
}

impl StateView {
    /// The state in which nothing is remembered.
    pub open spec fn empty() -> StateView {
        StateView { applied: Map::empty(), orientation: Map::empty(), rotation: Map::empty() }
    }

    /// The orientation remembered for `monitor`; `Horizontal` where none is.
    pub open spec fn orientation_of(self, monitor: Seq<char>) -> Orientation {
        if self.orientation.contains_key(monitor) {
            self.orientation[monitor]
        } else {
            Orientation::Horizontal
        }
    }

    /// The rotation remembered for `monitor`; `Deg0` where none is.
    pub open spec fn rotation_of(self, monitor: Seq<char>) -> Rotation {
        if self.rotation.contains_key(monitor) {
            self.rotation[monitor]
        } else {
            Rotation::Deg0
        }
    }

    /// This state after `image_path` was shown on `monitor` with the given transform.
    pub open spec fn assign(
        self,
        monitor: Seq<char>,
        image_path: Seq<char>,
        orientation: Orientation,
        rotation: Rotation,
    ) -> StateView {
        StateView {
            applied: self.applied.insert(monitor, image_path),
            orientation: self.orientation.insert(monitor, orientation),
            rotation: self.rotation.insert(monitor, rotation),
        }
    }
}

impl View for WallpaperState {
    type V = StateView;

    open spec fn view(&self) -> StateView {
        StateView {
            applied: self.applied@,
            orientation: self.orientation@,
            rotation: self.rotation@,
        }
    }
}

impl Default for WallpaperState {
    fn default() -> (state: WallpaperState)
        ensures
            state@ == StateView::empty(),
            state.lists_nothing(),
    {
        WallpaperState::new()
    }
}

impl WallpaperState {
    /// None of the three maps lists an entry.
    pub open spec fn lists_nothing(&self) -> bool {
        &&& self.applied.pairs().len() == 0
        &&& self.orientation.pairs().len() == 0
        &&& self.rotation.pairs().len() == 0
    }

    /// The state in which nothing is remembered.
    pub fn new() -> (state: WallpaperState)
        ensures
            state@ == StateView::empty(),
            state.lists_nothing(),
    {
        WallpaperState {
            applied: MonitorMap::new(),
            orientation: MonitorMap::new(),
            rotation: MonitorMap::new(),
        }
    }

    /// The orientation remembered for `monitor`; `Horizontal` where none is.
    pub fn orientation_of(&self, monitor: &str) -> (orientation: Orientation)
        ensures
            orientation == self@.orientation_of(monitor@),
    {
        match self.orientation.get(monitor) {
            Some(orientation) => *orientation,
            None => Orientation::Horizontal,
        }
    }

    /// The rotation remembered for `monitor`; `Deg0` where none is.
    pub fn rotation_of(&self, monitor: &str) -> (rotation: Rotation)
        ensures
            rotation == self@.rotation_of(monitor@),
    {
        match self.rotation.get(monitor) {
            Some(rotation) => *rotation,
            None => Rotation::Deg0,
        }
    }

    /// Whether `image_path` is the image remembered for `monitor`.
    pub fn is_applied(&self, monitor: &str, image_path: &str) -> (applied: bool)
        ensures
            applied == (self@.applied.contains_key(monitor@) && self@.applied[monitor@]
                == image_path@),
    {
        match self.applied.get(monitor) {
            Some(path) => same_text(path.as_str(), image_path),
            None => false,
        }
    }

    /// Remembers that `image_path` was shown on `monitor` with the given transform.
    pub fn assign(
        &mut self,
        monitor: &str,
        image_path: &str,
        orientation: Orientation,
        rotation: Rotation,
    )
        ensures
            final(self)@ == old(self)@.assign(monitor@, image_path@, orientation, rotation),
    {
        self.orientation.insert(String::from_str(monitor), orientation);
        self.rotation.insert(String::from_str(monitor), rotation);
        self.applied.insert(String::from_str(monitor), String::from_str(image_path));
    }
}

/// The stored form of a `WallpaperState`: three objects keyed by monitor name whose
/// values are all text.
#[derive(Debug)]
pub struct StateDocument {
    pub applied: MonitorMap<String>,
    pub orientation: MonitorMap<String>,
    pub rotation: MonitorMap<String>,
}

/// A `StateDocument` as three maps from monitor name to text.
#[verifier::ext_equal]
pub struct DocumentView {
    pub applied: Map<Seq<char>, Seq<char>>,
    pub orientation: Map<Seq<char>, Seq<char>>,
    pub rotation: Map<Seq<char>, Seq<char>>,
}

impl View for StateDocument {
    type V = DocumentView;

    open spec fn view(&self) -> DocumentView {
        DocumentView {
            applied: self.applied@,
            orientation: self.orientation@,
            rotation: self.rotation@,
        }
    }
}

impl StateDocument {
    /// The document with three empty objects.
    pub fn new() -> (document: StateDocument)
        ensures
            document@ == encode(StateView::empty()),
            document.applied.pairs().len() == 0,
            document.orientation.pairs().len() == 0,
            document.rotation.pairs().len() == 0,
    {
        let document = StateDocument {
            applied: MonitorMap::new(),
            orientation: MonitorMap::new(),
            rotation: MonitorMap::new(),
        };
        assert(document@ =~= encode(StateView::empty()));
        document
    }
}

/// Gives each orientation its stored name.
pub open spec fn orientation_label() -> spec_fn(Orientation) -> Seq<char> {
    |orientation: Orientation| orientation.label()
}

/// Gives each rotation its stored name.
pub open spec fn rotation_label() -> spec_fn(Rotation) -> Seq<char> {
    |rotation: Rotation| rotation.label()
}

/// Reads an orientation from its stored name.
pub open spec fn orientation_named() -> spec_fn(Seq<char>) -> Orientation {
    |name: Seq<char>| Orientation::parse(name).unwrap()
}

/// Reads a rotation from its stored name.
pub open spec fn rotation_named() -> spec_fn(Seq<char>) -> Rotation {
    |name: Seq<char>| Rotation::parse(name).unwrap()
}

/// The document that stores `state`.
pub open spec fn encode(state: StateView) -> DocumentView {
    DocumentView {
        applied: state.applied,
        orientation: state.orientation.map_values(orientation_label()),
        rotation: state.rotation.map_values(rotation_label()),
    }
}

/// Every orientation in `document` and every rotation in it is a known name.
pub open spec fn well_formed(document: DocumentView) -> bool {
    &&& forall|monitor: Seq<char>| #[trigger]
        document.orientation.contains_key(monitor) ==> Orientation::parse(
            document.orientation[monitor],
        ) is Some
    &&& forall|monitor: Seq<char>| #[trigger]
        document.rotation.contains_key(monitor) ==> Rotation::parse(document.rotation[monitor])
            is Some
}

/// The state that `document` stores; none where a value in it is no known name.
pub open spec fn decode(document: DocumentView) -> Option<StateView> {
    if well_formed(document) {
        Some(
            StateView {
                applied: document.applied,
                orientation: document.orientation.map_values(orientation_named()),
                rotation: document.rotation.map_values(rotation_named()),
            },
        )
    } else {
        None
    }
}

/// The state in use after a read: what the document stores, and the empty state where
/// nothing could be read or the document stores none.
pub open spec fn restored(document: Option<DocumentView>) -> StateView {
    match document {
        Some(document) => match decode(document) {
            Some(state) => state,
            None => StateView::empty(),
        },
        None => StateView::empty(),
    }
}

/// Storing a state and reading the document back gives the state again.
pub proof fn lemma_state_round_trip(state: StateView)
    ensures
        decode(encode(state)) == Some(state),
        restored(Some(encode(state))) == state,
{
    let document = encode(state);
    assert forall|monitor: Seq<char>| #[trigger]
        document.orientation.contains_key(monitor) implies Orientation::parse(
        document.orientation[monitor],
    ) == Some(state.orientation[monitor]) by {
        state.orientation[monitor].lemma_label_parses();
    }
    assert forall|monitor: Seq<char>| #[trigger]
        document.rotation.contains_key(monitor) implies Rotation::parse(
        document.rotation[monitor],
    ) == Some(state.rotation[monitor]) by {
        state.rotation[monitor].lemma_label_parses();
    }
    assert(document.orientation.map_values(orientation_named()) =~= state.orientation);
    assert(document.rotation.map_values(rotation_named()) =~= state.rotation);
    assert(decode(document).unwrap() =~= state);
}

/// Reading a document that stores a state and storing that state unchanged gives the
/// document again.
pub proof fn lemma_document_round_trip(document: DocumentView)
    requires
        decode(document) is Some,
    ensures
        encode(restored(Some(document))) == document,
{
    let state = decode(document).unwrap();
    assert forall|monitor: Seq<char>| #[trigger]
        document.orientation.contains_key(monitor) implies state.orientation[monitor].label()
        == document.orientation[monitor] by {
        Orientation::lemma_parse_is_label(document.orientation[monitor]);
    }
    assert forall|monitor: Seq<char>| #[trigger]
        document.rotation.contains_key(monitor) implies state.rotation[monitor].label()
        == document.rotation[monitor] by {
        Rotation::lemma_parse_is_label(document.rotation[monitor]);
    }
    assert(state.orientation.map_values(orientation_label()) =~= document.orientation);
    assert(state.rotation.map_values(rotation_label()) =~= document.rotation);
    assert(encode(state) =~= document);
}

/// Leaves the values of a list as they are.
pub open spec fn unchanged() -> spec_fn(Seq<char>) -> Seq<char> {
    |text: Seq<char>| text
}

fn copy_texts(source: &MonitorMap<String>) -> (copy: MonitorMap<String>)
    ensures
        copy.pairs() == source.pairs(),
        copy@ == source@,
{
    proof {
        use_type_invariant(source);
    }
    let mut copy: MonitorMap<String> = MonitorMap::new();
    let mut i: usize = 0;
    while i < source.len()
        invariant
            source.wf(),
            i <= source.pairs().len(),
            copy.pairs() == relabel(source.pairs().take(i as int), unchanged()),
        decreases source.pairs().len() - i,
    {
        if let Some((name, text)) = source.entry(i) {
            proof {
                lemma_fresh_key(source.pairs(), unchanged(), i as int);
            }
            copy.insert(name.clone(), text.clone());
        }
        i += 1;
    }
    proof {
        assert(source.pairs().take(i as int) =~= source.pairs());
        assert(relabel(source.pairs(), unchanged()) =~= source.pairs());
    }
    copy
}

fn orientation_names(source: &MonitorMap<Orientation>) -> (names: MonitorMap<String>)
    ensures
        names.pairs() == relabel(source.pairs(), orientation_label()),
        names@ == source@.map_values(orientation_label()),
{
    proof {
        use_type_invariant(source);
    }
    let mut names: MonitorMap<String> = MonitorMap::new();
    let mut i: usize = 0;
    while i < source.len()
        invariant
            source.wf(),
            i <= source.pairs().len(),
            names.pairs() == relabel(source.pairs().take(i as int), orientation_label()),
        decreases source.pairs().len() - i,
    {
        if let Some((name, orientation)) = source.entry(i) {
            proof {
                lemma_fresh_key(source.pairs(), orientation_label(), i as int);
            }
            names.insert(name.clone(), String::from_str(orientation.name()));
        }
        i += 1;
    }
    proof {
        assert(source.pairs().take(i as int) =~= source.pairs());
        lemma_relabel(source.pairs(), orientation_label());
    }
    names
}

fn rotation_names(source: &MonitorMap<Rotation>) -> (names: MonitorMap<String>)
    ensures
        names.pairs() == relabel(source.pairs(), rotation_label()),
        names@ == source@.map_values(rotation_label()),
{
    proof {
        use_type_invariant(source);
    }
    let mut names: MonitorMap<String> = MonitorMap::new();
    let mut i: usize = 0;
    while i < source.len()
        invariant
            source.wf(),
            i <= source.pairs().len(),
            names.pairs() == relabel(source.pairs().take(i as int), rotation_label()),
        decreases source.pairs().len() - i,
    {
        if let Some((name, rotation)) = source.entry(i) {
            proof {
                lemma_fresh_key(source.pairs(), rotation_label(), i as int);
            }
            names.insert(name.clone(), String::from_str(rotation.name()));
        }
        i += 1;
    }
    proof {
        assert(source.pairs().take(i as int) =~= source.pairs());
        lemma_relabel(source.pairs(), rotation_label());
    }
    names
}

/// Whether every value of the map that `pairs` lists meets `known`.
proof fn lemma_all_known<T>(pairs: Seq<(Seq<char>, T)>, known: spec_fn(T) -> bool)
    requires
        distinct_keys(pairs),
    ensures
        (forall|i: int| 0 <= i < pairs.len() ==> known(#[trigger] pairs[i].1)) <==> (forall|
            key: Seq<char>,
        | #[trigger] map_of(pairs).contains_key(key) ==> known(map_of(pairs)[key])),
{
    if forall|i: int| 0 <= i < pairs.len() ==> known(#[trigger] pairs[i].1) {
        assert forall|key: Seq<char>| #[trigger] map_of(pairs).contains_key(key) implies known(
            map_of(pairs)[key],
        ) by {
            let i = position(pairs, key).unwrap();
            assert(known(pairs[i].1));
        }
    }
    if forall|key: Seq<char>| #[trigger]
        map_of(pairs).contains_key(key) ==> known(map_of(pairs)[key]) {
        assert forall|i: int| 0 <= i < pairs.len() implies known(#[trigger] pairs[i].1) by {
            lemma_position_unique(pairs, i);
            assert(map_of(pairs).contains_key(pairs[i].0));
        }
    }
}

fn orientations_named(names: &MonitorMap<String>) -> (orientations: Option<
    MonitorMap<Orientation>,
>)
    ensures
        match orientations {
            Some(read) => {
                &&& forall|monitor: Seq<char>| #[trigger]
                    names@.contains_key(monitor) ==> Orientation::parse(names@[monitor]) is Some
                &&& read.pairs() == relabel(names.pairs(), orientation_named())
                &&& read@ == names@.map_values(orientation_named())
            },
            None => exists|monitor: Seq<char>| #[trigger]
                names@.contains_key(monitor) && Orientation::parse(names@[monitor]) is None,
        },
{
    proof {
        use_type_invariant(names);
    }
    let mut read: MonitorMap<Orientation> = MonitorMap::new();
    let mut i: usize = 0;
    while i < names.len()
        invariant
            names.wf(),
            i <= names.pairs().len(),
            read.pairs() == relabel(names.pairs().take(i as int), orientation_named()),
            forall|j: int| 0 <= j < i ==> Orientation::parse(#[trigger] names.pairs()[j].1) is Some,
        decreases names.pairs().len() - i,
    {
        if let Some((name, text)) = names.entry(i) {
            match Orientation::from_name(text.as_str()) {
                Some(orientation) => {
                    proof {
                        lemma_fresh_key(names.pairs(), orientation_named(), i as int);
                    }
                    read.insert(name.clone(), orientation);
                },
                None => {
                    proof {
                        lemma_position_unique(names.pairs(), i as int);
                        assert(names@.contains_key(name@));
                    }
                    return None;
                },
            }
        }
        i += 1;
    }
    proof {
        assert(names.pairs().take(i as int) =~= names.pairs());
        lemma_relabel(names.pairs(), orientation_named());
        lemma_all_known(names.pairs(), |text: Seq<char>| Orientation::parse(text) is Some);
    }
    Some(read)
}

fn rotations_named(names: &MonitorMap<String>) -> (rotations: Option<MonitorMap<Rotation>>)
    ensures
        match rotations {
            Some(read) => {
                &&& forall|monitor: Seq<char>| #[trigger]
                    names@.contains_key(monitor) ==> Rotation::parse(names@[monitor]) is Some
                &&& read.pairs() == relabel(names.pairs(), rotation_named())
                &&& read@ == names@.map_values(rotation_named())
            },
            None => exists|monitor: Seq<char>| #[trigger]
                names@.contains_key(monitor) && Rotation::parse(names@[monitor]) is None,
        },
{
    proof {
        use_type_invariant(names);
    }
    let mut read: MonitorMap<Rotation> = MonitorMap::new();
    let mut i: usize = 0;
    while i < names.len()
        invariant
            names.wf(),
            i <= names.pairs().len(),
            read.pairs() == relabel(names.pairs().take(i as int), rotation_named()),
            forall|j: int| 0 <= j < i ==> Rotation::parse(#[trigger] names.pairs()[j].1) is Some,
        decreases names.pairs().len() - i,
    {
        if let Some((name, text)) = names.entry(i) {
            match Rotation::from_name(text.as_str()) {
                Some(rotation) => {
                    proof {
                        lemma_fresh_key(names.pairs(), rotation_named(), i as int);
                    }
                    read.insert(name.clone(), rotation);
                },
                None => {
                    proof {
                        lemma_position_unique(names.pairs(), i as int);
                        assert(names@.contains_key(name@));
                    }
                    return None;
                },
            }
        }
        i += 1;
    }
    proof {
        assert(names.pairs().take(i as int) =~= names.pairs());
        lemma_relabel(names.pairs(), rotation_named());
        lemma_all_known(names.pairs(), |text: Seq<char>| Rotation::parse(text) is Some);
    }
    Some(read)
}

impl WallpaperState {
    /// The document that stores this state. Every object lists its monitors in the
    /// order in which the state holds them.
    pub fn to_document(&self) -> (document: StateDocument)
        ensures
            document@ == encode(self@),
            document.applied.pairs() == self.applied.pairs(),
            document.orientation.pairs() == relabel(
                self.orientation.pairs(),
                orientation_label(),
            ),
            document.rotation.pairs() == relabel(self.rotation.pairs(), rotation_label()),
    {
        StateDocument {
            applied: copy_texts(&self.applied),
            orientation: orientation_names(&self.orientation),
            rotation: rotation_names(&self.rotation),
        }
    }

    /// The state to go on with after a read: what `document` stores, and the empty
    /// state where there is no document or it stores none. A state that is read lists
    /// its monitors in the order of the document.
    pub fn from_document(document: Option<&StateDocument>) -> (state: WallpaperState)
        ensures
            state@ == restored(
                match document {
                    Some(document) => Some(document@),
                    None => None,
                },
            ),
            match document {
                Some(read) if decode(read@) is Some => {
                    &&& state.applied.pairs() == read.applied.pairs()
                    &&& state.orientation.pairs() == relabel(
                        read.orientation.pairs(),
                        orientation_named(),
                    )
                    &&& state.rotation.pairs() == relabel(read.rotation.pairs(), rotation_named())
                },
                _ => state.lists_nothing(),
            },
    {
        let document = match document {
            Some(document) => document,
            None => return WallpaperState::new(),
        };
        let orientation = match orientations_named(&document.orientation) {
            Some(orientation) => orientation,
            None => return WallpaperState::new(),
        };
        let rotation = match rotations_named(&document.rotation) {
            Some(rotation) => rotation,
            None => return WallpaperState::new(),
        };
        WallpaperState { applied: copy_texts(&document.applied), orientation, rotation }
    }
}

} // verus!
