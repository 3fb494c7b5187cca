//! The local references as the fetch sees them.

use vstd::prelude::*;
use crate::bytes::views;
use crate::hash::ObjectId;
use crate::fetch::name::FullName;

verus! {

/// What is stored under a reference name.
#[derive(Debug, Clone, PartialEq, Eq)]
pub enum RefValue {
    /// The reference points to an object.
    Direct(ObjectId),
    /// The reference points to another reference.
    Symbolic(FullName),
    /// Something is stored under the name, but it could not be read.
    Unreadable,
}

/// The model of a `RefValue`.
pub enum RefValueView {
    Direct(Seq<u8>),
    Symbolic(Seq<u8>),
    Unreadable,
}

impl View for RefValue {
    type V = RefValueView;

    open spec fn view(&self) -> RefValueView {
        match self {
            RefValue::Direct(id) => RefValueView::Direct(id@),
            RefValue::Symbolic(name) => RefValueView::Symbolic(name@),
            RefValue::Unreadable => RefValueView::Unreadable,
        }
    }
}

impl RefValue {
    /// An independent copy of this value.
    pub fn duplicate(&self) -> (r: RefValue)
        ensures
            r@ == self@,
    {
        match self {
            RefValue::Direct(id) => RefValue::Direct(id.duplicate()),
            RefValue::Symbolic(name) => RefValue::Symbolic(name.duplicate()),
            RefValue::Unreadable => RefValue::Unreadable,
        }
    }
}

/// A reference name together with what is stored under it.
#[derive(Debug, Clone, PartialEq, Eq)]
pub struct RefEntry {
    pub name: FullName,
    pub value: RefValue,
}

/// A line in the log of a reference: the value it was given and why.
#[derive(Debug, Clone, PartialEq, Eq)]
pub struct LogLine {
    /// The reference that was written.
    pub name: FullName,
    /// The object it points to since.
    pub new: ObjectId,
    /// What the writer had to say.
    pub message: String,
}

/// The model of a `LogLine`.
pub struct LogLineView {
    pub name: Seq<u8>,
    pub new: Seq<u8>,
    pub message: Seq<char>,
}

impl View for LogLine {
    type V = LogLineView;

    open spec fn view(&self) -> LogLineView {
        LogLineView { name: self.name@, new: self.new@, message: self.message@ }
    }
}

/// The references of a repository, and the log of what was committed to
/// them. Of several entries with one name the first counts. The view maps
/// each name that has an entry to its value.
#[derive(Debug, Clone, PartialEq, Eq)]
pub struct RefStore {
    pub entries: Vec<RefEntry>,
    /// One line for each edit that was committed, the oldest first.
    pub log: Vec<LogLine>,
}

/// The position of the first entry at or after `from` that is named `name`.
pub open spec fn position_from(entries: Seq<RefEntry>, name: Seq<u8>, from: int) -> Option<int>
    decreases entries.len() - from,
{
    if from < 0 || from >= entries.len() {
        None
    } else if entries[from].name@ == name {
        Some(from)
    } else {
        position_from(entries, name, from + 1)
    }
}

/// The map from names to values that `entries` stands for.
pub open spec fn contents(entries: Seq<RefEntry>) -> Map<Seq<u8>, RefValueView> {
    Map::new(
        |name: Seq<u8>| position_from(entries, name, 0) is Some,
        |name: Seq<u8>| entries[position_from(entries, name, 0)->0].value@,
    )
}

/// What `position_from` finds is the first match, and it finds one if there is any.
pub proof fn lemma_position_from(entries: Seq<RefEntry>, name: Seq<u8>, from: int)
    requires
        0 <= from,
    ensures
        match position_from(entries, name, from) {
            Some(i) => {
                &&& from <= i < entries.len()
                &&& entries[i].name@ == name
                &&& forall|j: int| from <= j < i ==> entries[j].name@ != name
            },
            None => forall|j: int| from <= j < entries.len() ==> entries[j].name@ != name,
        },
    decreases entries.len() - from,
{
    if from < entries.len() && entries[from].name@ != name {
        lemma_position_from(entries, name, from + 1);
    }
}

/// Where the entries of two lists carry the same names, a name is found at
/// the same position in both.
proof fn lemma_position_by_names(a: Seq<RefEntry>, b: Seq<RefEntry>, name: Seq<u8>, from: int)
    requires
        0 <= from,
        a.len() == b.len(),
        forall|j: int| 0 <= j < a.len() ==> a[j].name@ == b[j].name@,
    ensures
        position_from(a, name, from) == position_from(b, name, from),
    decreases a.len() - from,
{
    if from < a.len() && a[from].name@ != name {
        lemma_position_by_names(a, b, name, from + 1);
    }
}

/// A name is found in a list with one more entry where it was found before,
/// or else at the new entry if that carries the name.
proof fn lemma_position_push(entries: Seq<RefEntry>, entry: RefEntry, name: Seq<u8>, from: int)
    requires
        0 <= from <= entries.len(),
    ensures
        position_from(entries.push(entry), name, from) == (match position_from(
            entries,
            name,
            from,
        ) {
            Some(i) => Some(i),
            None => if entry.name@ == name {
                Some(entries.len() as int)
            } else {
                None
            },
        }),
    decreases entries.len() - from,
{
    let after = entries.push(entry);
    if from < entries.len() {
        assert(after[from] == entries[from]);
        if entries[from].name@ != name {
            lemma_position_push(entries, entry, name, from + 1);
        }
    } else {
        assert(after[from] == entry);
        assert(position_from(after, name, from + 1) is None);
    }
}

/// Replacing the value of the first entry named `name` stores that value
/// under `name` and changes nothing else.
proof fn lemma_contents_update(entries: Seq<RefEntry>, i: int, entry: RefEntry)
    requires
        position_from(entries, entry.name@, 0) == Some(i),
    ensures
        0 <= i < entries.len(),
        contents(entries.update(i, entry)) == contents(entries).insert(entry.name@, entry.value@),
{
    lemma_position_from(entries, entry.name@, 0);
    let after = entries.update(i, entry);
    assert forall|name: Seq<u8>| #[trigger]
        position_from(after, name, 0) == position_from(entries, name, 0) by {
        lemma_position_by_names(after, entries, name, 0);
    }
    assert forall|name: Seq<u8>|
        name != entry.name@ && position_from(entries, name, 0) is Some implies after[position_from(
        entries,
        name,
        0,
    )->0] == entries[position_from(entries, name, 0)->0] by {
        lemma_position_from(entries, name, 0);
    }
    assert(contents(after) =~= contents(entries).insert(entry.name@, entry.value@));
}

/// Appending an entry under a name that has none stores its value under
/// that name and changes nothing else.
proof fn lemma_contents_push(entries: Seq<RefEntry>, entry: RefEntry)
    requires
        position_from(entries, entry.name@, 0) is None,
    ensures
        contents(entries.push(entry)) == contents(entries).insert(entry.name@, entry.value@),
{
    let after = entries.push(entry);
    assert forall|name: Seq<u8>| #[trigger]
        position_from(after, name, 0) == (match position_from(entries, name, 0) {
            Some(i) => Some(i),
            None => if entry.name@ == name {
                Some(entries.len() as int)
            } else {
                None
            },
        }) by {
        lemma_position_push(entries, entry, name, 0);
    }
    assert forall|name: Seq<u8>| position_from(entries, name, 0) is Some implies after[position_from(
        entries,
        name,
        0,
    )->0] == entries[position_from(entries, name, 0)->0] by {
        lemma_position_from(entries, name, 0);
    }
    assert(contents(after) =~= contents(entries).insert(entry.name@, entry.value@));
}

impl View for RefStore {
    type V = Map<Seq<u8>, RefValueView>;

    open spec fn view(&self) -> Map<Seq<u8>, RefValueView> {
        contents(self.entries@)
    }
}

impl RefStore {
    /// The lines of the log, the oldest first.
    pub open spec fn logged(&self) -> Seq<LogLineView> {
        views(self.log@)
    }

    /// A store without references and with an empty log.
    pub fn new() -> (r: RefStore)
        ensures
            r@ == Map::<Seq<u8>, RefValueView>::empty(),
            r.logged() == Seq::<LogLineView>::empty(),
    {
        let r = RefStore { entries: Vec::new(), log: Vec::new() };
        assert(r@ =~= Map::<Seq<u8>, RefValueView>::empty());
        assert(r.logged() =~= Seq::<LogLineView>::empty());
        r
    }

    /// The position of the entry that counts for `name`.
    fn position(&self, name: &FullName) -> (r: Option<usize>)
        ensures
            match r {
                Some(i) => i < self.entries.len() && position_from(self.entries@, name@, 0) == Some(
                    i as int,
                ),
                None => position_from(self.entries@, name@, 0) is None,
            },
    {
        let mut i: usize = 0;
        while i < self.entries.len()
            invariant
                i <= self.entries.len(),
                position_from(self.entries@, name@, 0) == position_from(
                    self.entries@,
                    name@,
                    i as int,
                ),
            decreases self.entries.len() - i,
        {
            if self.entries[i].name.same_as(name) {
                return Some(i);
            }
            i += 1;
        }
        None
    }

    /// What is stored under `name`, if anything.
    pub fn read(&self, name: &FullName) -> (r: Option<&RefValue>)
        ensures
            match r {
                Some(value) => self@.contains_key(name@) && self@[name@] == value@,
                None => !self@.contains_key(name@),
            },
    {
        match self.position(name) {
            Some(i) => Some(&self.entries[i].value),
            None => None,
        }
    }

    /// Stores `value` under `name`, in place of what was there, without
    /// a line in the log.
    pub fn set(&mut self, name: &FullName, value: RefValue)
        ensures
            final(self)@ == old(self)@.insert(name@, value@),
            final(self).log == old(self).log,
    {
        let entry = RefEntry { name: name.duplicate(), value };
        match self.position(name) {
            Some(i) => {
                proof {
                    lemma_contents_update(self.entries@, i as int, entry);
                }
                self.entries.set(i, entry);
            },
            None => {
                proof {
                    lemma_contents_push(self.entries@, entry);
                }
                self.entries.push(entry);
            },
        }
    }
}

} // verus!
