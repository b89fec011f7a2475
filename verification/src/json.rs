//! The state file as JSON text.
//!
//! The file holds one object with the members `applied`, `orientation` and `rotation`,
//! each an object of strings. Reading and writing the text itself is left to
//! `serde_json`; what the members mean is decided here.

use vstd::prelude::*;
use vstd::string::StringExecFns;
use crate::monitor_map::{
    distinct_keys, lemma_relabel, map_of, position, put, relabel, MonitorMap,
};
use crate::state::{
    decode, encode, lemma_document_round_trip, lemma_state_round_trip, orientation_label, restored,
    rotation_label, DocumentView, StateDocument, StateView, WallpaperState,
};
use crate::text::same_text;

verus! {

/// One entry of a JSON object: its key, and its value where the value is a string.
#[derive(Debug)]
pub struct Entry {
    pub key: String,
    /// None for a value that is no string.
    pub text: Option<String>,
}

/// One member of the outermost JSON object: its name, and its entries where its
/// value is an object.
#[derive(Debug)]
pub struct Member {
    pub name: String,
    /// None for a value that is no object.
    pub entries: Option<Vec<Entry>>,
}

/// An `Entry` with its texts as sequences of characters.
pub struct EntryView {
    pub key: Seq<char>,
    pub text: Option<Seq<char>>,
}

/// A `Member` with its texts as sequences of characters.
pub struct MemberView {
    pub name: Seq<char>,
    pub entries: Option<Seq<EntryView>>,
}

impl View for Entry {
    type V = EntryView;

    open spec fn view(&self) -> EntryView {
        EntryView {
            key: self.key@,
            text: match self.text {
                Some(text) => Some(text@),
                None => None,
            },
        }
    }
}

/// The views of `entries`, in order.
pub open spec fn entry_views(entries: Seq<Entry>) -> Seq<EntryView> {
    Seq::new(entries.len(), |i: int| entries[i]@)
}

impl View for Member {
    type V = MemberView;

    open spec fn view(&self) -> MemberView {
        MemberView {
            name: self.name@,
            entries: match self.entries {
                Some(entries) => Some(entry_views(entries@)),
                None => None,
            },
        }
    }
}

/// The views of `members`, in order.
pub open spec fn member_views(members: Seq<Member>) -> Seq<MemberView> {
    Seq::new(members.len(), |i: int| members[i]@)
}

/// The members that `serde_json::from_str` reads from `text`; none where `text` is no
/// JSON text or its outermost value is no object.
pub uninterp spec fn parsed_members(text: Seq<char>) -> Option<Seq<MemberView>>;

/// The text that `serde_json::to_string_pretty` writes for the object with the
/// members `members`; none where it refuses.
pub uninterp spec fn rendered_members(members: Seq<MemberView>) -> Option<Seq<char>>;

/// Parses `text` with `serde_json::from_str` as a JSON object and hands out its
/// members in the order in which `serde_json` keeps them: of a member that is itself an
/// object the entries, and of an entry that is a string the string. The contract gives
/// the result a name and claims nothing else of it.
#[verifier::external_body]
fn parse_members(text: &str) -> (members: Option<Vec<Member>>)
    ensures
        parsed_members(text@) == match members {
            Some(members) => Some(member_views(members@)),
            None => None,
        },
{
    let root: serde_json::Map<String, serde_json::Value> = serde_json::from_str(text).ok()?;
    Some(root.iter().map(|(name, value)| Member {
        name: name.clone(),
        entries: value.as_object().map(|object| object.iter().map(|(key, value)| Entry {
            key: key.clone(),
            text: value.as_str().map(str::to_owned),
        }).collect()),
    }).collect())
}

/// Builds the JSON object with the members `members` and writes it with
/// `serde_json::to_string_pretty`. A member without entries and an entry without text
/// are written as `null`. The contract gives the result a name and claims nothing else
/// of it.
#[verifier::external_body]
fn render_members(members: &Vec<Member>) -> (text: Option<String>)
    ensures
        rendered_members(member_views(members@)) == match text {
            Some(text) => Some(text@),
            None => None,
        },
{
    let root: serde_json::Map<String, serde_json::Value> = members.iter().map(|member| (
        member.name.clone(),
        member.entries.as_ref().map(|entries| entries.iter().map(|entry| (
            entry.key.clone(),
            serde_json::Value::from(entry.text.clone()),
        )).collect::<serde_json::Map<String, serde_json::Value>>()).into(),
    )).collect();
    serde_json::to_string_pretty(&root).ok()
}

/// Whether the member at place `i` is the first one named `name`.
pub open spec fn is_first_named(members: Seq<MemberView>, name: Seq<char>, i: int) -> bool {
    &&& 0 <= i < members.len()
    &&& members[i].name == name
    &&& forall|j: int| 0 <= j < i ==> (#[trigger] members[j]).name != name
}

/// The keys and texts of `entries`, in order; none where an entry has no text.
pub open spec fn texts_of(entries: Seq<EntryView>) -> Option<Seq<(Seq<char>, Seq<char>)>> {
    if forall|i: int| 0 <= i < entries.len() ==> (#[trigger] entries[i]).text is Some {
        Some(Seq::new(entries.len(), |i: int| (entries[i].key, entries[i].text.unwrap())))
    } else {
        None
    }
}

/// What the object named `name` holds: nothing where no member has that name, the
/// keys and texts of the first member of that name where it is an object of strings,
/// and none where it is anything else.
pub open spec fn section(members: Seq<MemberView>, name: Seq<char>) -> Option<
    Seq<(Seq<char>, Seq<char>)>,
> {
    if exists|i: int| is_first_named(members, name, i) {
        let i = choose|i: int| is_first_named(members, name, i);
        match members[i].entries {
            Some(entries) => texts_of(entries),
            None => None,
        }
    } else {
        Some(Seq::empty())
    }
}

/// The list that comes of setting the keys of `pairs` one after the other: every key
/// once, where it first occurs, with the value it has last.
pub open spec fn listed<T>(pairs: Seq<(Seq<char>, T)>) -> Seq<(Seq<char>, T)>
    decreases pairs.len(),
{
    if pairs.len() == 0 {
        Seq::empty()
    } else {
        put(listed(pairs.drop_last()), pairs.last().0, pairs.last().1)
    }
}

/// The three lists that `members` hold; none where one of the three members is
/// there but is no object of strings. Members of other names count for nothing.
pub open spec fn sections(members: Seq<MemberView>) -> Option<
    (Seq<(Seq<char>, Seq<char>)>, Seq<(Seq<char>, Seq<char>)>, Seq<(Seq<char>, Seq<char>)>),
> {
    match (
        section(members, "applied"@),
        section(members, "orientation"@),
        section(members, "rotation"@),
    ) {
        (Some(applied), Some(orientation), Some(rotation)) => Some(
            (listed(applied), listed(orientation), listed(rotation)),
        ),
        _ => None,
    }
}

/// The document that `members` hold.
pub open spec fn document_in(members: Seq<MemberView>) -> Option<DocumentView> {
    match sections(members) {
        Some((applied, orientation, rotation)) => Some(
            DocumentView {
                applied: map_of(applied),
                orientation: map_of(orientation),
                rotation: map_of(rotation),
            },
        ),
        None => None,
    }
}

/// The state to go on with after the file was read: `members` is what was parsed from
/// it, and none where it could not be read or parsed.
pub open spec fn state_in(members: Option<Seq<MemberView>>) -> StateView {
    restored(
        match members {
            Some(members) => document_in(members),
            None => None,
        },
    )
}

/// The entries that write `pairs`.
pub open spec fn entries_for(pairs: Seq<(Seq<char>, Seq<char>)>) -> Seq<EntryView> {
    Seq::new(pairs.len(), |i: int| EntryView { key: pairs[i].0, text: Some(pairs[i].1) })
}

/// The members that write three lists as `applied`, `orientation` and `rotation`.
pub open spec fn members_for(
    applied: Seq<(Seq<char>, Seq<char>)>,
    orientation: Seq<(Seq<char>, Seq<char>)>,
    rotation: Seq<(Seq<char>, Seq<char>)>,
) -> Seq<MemberView> {
    seq![
        MemberView { name: "applied"@, entries: Some(entries_for(applied)) },
        MemberView { name: "orientation"@, entries: Some(entries_for(orientation)) },
        MemberView { name: "rotation"@, entries: Some(entries_for(rotation)) },
    ]
}

/// A list without repeated keys comes out of `listed` as it went in.
pub proof fn lemma_listed_same<T>(pairs: Seq<(Seq<char>, T)>)
    requires
        distinct_keys(pairs),
    ensures
        listed(pairs) == pairs,
    decreases pairs.len(),
{
    if pairs.len() > 0 {
        let front = pairs.drop_last();
        lemma_listed_same(front);
        assert(position(front, pairs.last().0) is None) by {
            if position(front, pairs.last().0) is Some {
                let i = position(front, pairs.last().0).unwrap();
                assert(pairs[i].0 != pairs[pairs.len() - 1].0);
            }
        }
        assert(front.push(pairs.last()) =~= pairs);
    }
}

/// Three lists without repeated keys are read back from the members that write them.
pub proof fn lemma_members_round_trip(
    applied: Seq<(Seq<char>, Seq<char>)>,
    orientation: Seq<(Seq<char>, Seq<char>)>,
    rotation: Seq<(Seq<char>, Seq<char>)>,
)
    requires
        distinct_keys(applied),
        distinct_keys(orientation),
        distinct_keys(rotation),
    ensures
        sections(members_for(applied, orientation, rotation)) == Some(
            (applied, orientation, rotation),
        ),
{
    let members = members_for(applied, orientation, rotation);
    reveal_strlit("applied");
    reveal_strlit("orientation");
    reveal_strlit("rotation");
    assert("applied"@.len() == 7 && "orientation"@.len() == 11 && "rotation"@.len() == 8);
    assert(is_first_named(members, "applied"@, 0));
    assert(is_first_named(members, "orientation"@, 1));
    assert(is_first_named(members, "rotation"@, 2));
    assert(texts_of(entries_for(applied)).unwrap() =~= applied);
    assert(texts_of(entries_for(orientation)).unwrap() =~= orientation);
    assert(texts_of(entries_for(rotation)).unwrap() =~= rotation);
    lemma_listed_same(applied);
    lemma_listed_same(orientation);
    lemma_listed_same(rotation);
}

/// Writing a state and reading what was written gives the state again, as far as the
/// members go: the members that `save_state` hands to the writer are read by
/// `load_state` as the state they were made from.
pub proof fn lemma_saved_state_loads(state: WallpaperState)
    requires
        state.applied.wf(),
        state.orientation.wf(),
        state.rotation.wf(),
    ensures
        state_in(Some(members_of_state(state))) == state@,
{
    let applied = state.applied.pairs();
    let orientation = relabel(state.orientation.pairs(), orientation_label());
    let rotation = relabel(state.rotation.pairs(), rotation_label());
    lemma_relabel(state.orientation.pairs(), orientation_label());
    lemma_relabel(state.rotation.pairs(), rotation_label());
    lemma_members_round_trip(applied, orientation, rotation);
    lemma_state_round_trip(state@);
    assert(document_in(members_of_state(state)).unwrap() =~= encode(state@));
}

/// Reading members that store a state and writing that state unchanged gives members
/// that hold the same document.
pub proof fn lemma_loaded_state_saves(members: Seq<MemberView>, state: WallpaperState)
    requires
        state.applied.wf(),
        state.orientation.wf(),
        state.rotation.wf(),
        document_in(members) matches Some(document) && decode(document) is Some,
        state@ == state_in(Some(members)),
    ensures
        document_in(members_of_state(state)) == document_in(members),
{
    let applied = state.applied.pairs();
    let orientation = relabel(state.orientation.pairs(), orientation_label());
    let rotation = relabel(state.rotation.pairs(), rotation_label());
    lemma_relabel(state.orientation.pairs(), orientation_label());
    lemma_relabel(state.rotation.pairs(), rotation_label());
    lemma_members_round_trip(applied, orientation, rotation);
    lemma_document_round_trip(document_in(members).unwrap());
    assert(document_in(members_of_state(state)).unwrap() =~= encode(state@));
}

/// The members that write `state`.
pub open spec fn members_of_state(state: WallpaperState) -> Seq<MemberView> {
    members_for(
        state.applied.pairs(),
        relabel(state.orientation.pairs(), orientation_label()),
        relabel(state.rotation.pairs(), rotation_label()),
    )
}

fn entries_of_map(map: &MonitorMap<String>) -> (entries: Vec<Entry>)
    ensures
        entry_views(entries@) == entries_for(map.pairs()),
{
    let mut entries: Vec<Entry> = Vec::new();
    let mut i: usize = 0;
    while i < map.len()
        invariant
            i <= map.pairs().len(),
            entry_views(entries@) == entries_for(map.pairs()).take(i as int),
        decreases map.pairs().len() - i,
    {
        if let Some((key, text)) = map.entry(i) {
            let ghost before = entries@;
            let ghost all = entries_for(map.pairs());
            entries.push(Entry { key: key.clone(), text: Some(text.clone()) });
            assert(entry_views(entries@) =~= entry_views(before).push(all[i as int]));
            assert(all.take(i + 1) =~= all.take(i as int).push(all[i as int]));
        }
        i += 1;
    }
    assert(entries_for(map.pairs()).take(i as int) =~= entries_for(map.pairs()));
    entries
}

/// The members that write `document`: `applied`, `orientation` and `rotation`, each
/// with the entries of its map in the order of the map.
pub fn members_of(document: &StateDocument) -> (members: Vec<Member>)
    ensures
        member_views(members@) == members_for(
            document.applied.pairs(),
            document.orientation.pairs(),
            document.rotation.pairs(),
        ),
{
    let mut members: Vec<Member> = Vec::new();
    members.push(
        Member {
            name: String::from_str("applied"),
            entries: Some(entries_of_map(&document.applied)),
        },
    );
    members.push(
        Member {
            name: String::from_str("orientation"),
            entries: Some(entries_of_map(&document.orientation)),
        },
    );
    members.push(
        Member {
            name: String::from_str("rotation"),
            entries: Some(entries_of_map(&document.rotation)),
        },
    );
    assert(member_views(members@) =~= members_for(
        document.applied.pairs(),
        document.orientation.pairs(),
        document.rotation.pairs(),
    ));
    members
}

/// The map that the object named `name` holds, if it is there as an object of strings
/// or not there at all.
fn section_map(members: &Vec<Member>, name: &str) -> (map: Option<MonitorMap<String>>)
    ensures
        match map {
            Some(map) => section(member_views(members@), name@) is Some && map.pairs()
                == listed(section(member_views(members@), name@).unwrap()),
            None => section(member_views(members@), name@) is None,
        },
{
    let ghost views = member_views(members@);
    let mut i: usize = 0;
    while i < members.len()
        invariant
            i <= members@.len(),
            views == member_views(members@),
            forall|j: int| 0 <= j < i ==> (#[trigger] views[j]).name != name@,
        decreases members@.len() - i,
    {
        if same_text(members[i].name.as_str(), name) {
            proof {
                assert(is_first_named(views, name@, i as int));
                let chosen = choose|k: int| is_first_named(views, name@, k);
                assert(chosen == i) by {
                    if chosen < i {
                        assert(views[chosen].name != name@);
                    } else if i < chosen {
                        assert(views[i as int].name != name@);
                    }
                }
            }
            return match &members[i].entries {
                Some(entries) => map_of_entries(entries),
                None => None,
            };
        }
        i += 1;
    }
    proof {
        assert forall|k: int| !is_first_named(views, name@, k) by {
            if 0 <= k < views.len() {
                assert(views[k].name != name@);
            }
        }
    }
    Some(MonitorMap::new())
}

/// The map that `entries` hold, if all of them have text.
fn map_of_entries(entries: &Vec<Entry>) -> (map: Option<MonitorMap<String>>)
    ensures
        match map {
            Some(map) => texts_of(entry_views(entries@)) is Some && map.pairs() == listed(
                texts_of(entry_views(entries@)).unwrap(),
            ),
            None => texts_of(entry_views(entries@)) is None,
        },
{
    let ghost views = entry_views(entries@);
    let ghost pairs = Seq::new(views.len(), |i: int| (views[i].key, views[i].text.unwrap()));
    let mut map: MonitorMap<String> = MonitorMap::new();
    let mut i: usize = 0;
    while i < entries.len()
        invariant
            i <= entries@.len(),
            views == entry_views(entries@),
            pairs == Seq::new(views.len(), |i: int| (views[i].key, views[i].text.unwrap())),
            forall|j: int| 0 <= j < i ==> (#[trigger] views[j]).text is Some,
            map.pairs() == listed(pairs.take(i as int)),
        decreases entries@.len() - i,
    {
        match &entries[i].text {
            Some(text) => {
                proof {
                    assert(pairs.take(i + 1).drop_last() =~= pairs.take(i as int));
                    assert(pairs.take(i + 1).last() == (views[i as int].key, text@));
                }
                map.insert(entries[i].key.clone(), text.clone());
            },
            None => {
                assert(views[i as int].text is None);
                return None;
            },
        }
        i += 1;
    }
    assert(pairs.take(i as int) =~= pairs);
    Some(map)
}

/// Reads the document from the members of the outermost object. A member that is
/// missing reads as an empty object, members of other names are passed over, and there
/// is no document where one of the three is no object of strings.
pub fn document_of(members: &Vec<Member>) -> (document: Option<StateDocument>)
    ensures
        match document {
            Some(document) => {
                &&& document_in(member_views(members@)) == Some(document@)
                &&& sections(member_views(members@)) == Some(
                    (
                        document.applied.pairs(),
                        document.orientation.pairs(),
                        document.rotation.pairs(),
                    ),
                )
            },
            None => document_in(member_views(members@)) is None,
        },
{
    let applied = match section_map(members, "applied") {
        Some(applied) => applied,
        None => return None,
    };
    let orientation = match section_map(members, "orientation") {
        Some(orientation) => orientation,
        None => return None,
    };
    let rotation = match section_map(members, "rotation") {
        Some(rotation) => rotation,
        None => return None,
    };
    Some(StateDocument { applied, orientation, rotation })
}

/// The state to go on with after the state file was read. `text` is what the file
/// holds, and none where it could not be read. Text that is no JSON object, or whose
/// members do not store a state, gives the empty state, as a file that could not be
/// read does.
pub fn load_state(text: Option<&str>) -> (state: WallpaperState)
    ensures
        state@ == state_in(
            match text {
                Some(text) => parsed_members(text@),
                None => None,
            },
        ),
{
    let text = match text {
        Some(text) => text,
        None => return WallpaperState::new(),
    };
    let members = match parse_members(text) {
        Some(members) => members,
        None => return WallpaperState::new(),
    };
    let document = document_of(&members);
    WallpaperState::from_document(document.as_ref())
}

/// The text to write to the state file for `state`; none where the writer refuses.
pub fn save_state(state: &WallpaperState) -> (text: Option<String>)
    ensures
        rendered_members(members_of_state(*state)) == match text {
            Some(text) => Some(text@),
            None => None,
        },
{
    let document = state.to_document();
    let members = members_of(&document);
    render_members(&members)
}

} // verus!
