//! The field map of one equipment record: field names, each with one text
//! value.

use vstd::prelude::*;
use crate::text::{begins_with, chars_of, matches_at, same_text};

verus! {

/// The prefix of the names whose values are inserted into a template as
/// they are.
pub open spec fn raw_prefix() -> Seq<char> {
    seq!['N', 'O', 'E', 'S', 'C']
}

/// Whether the value stored under `name` is inserted without escaping.
pub open spec fn is_raw_name(name: Seq<char>) -> bool {
    begins_with(name, raw_prefix())
}

/// The fields of `fields` whose values are escaped on insertion.
pub open spec fn escaped_part(fields: Map<Seq<char>, Seq<char>>) -> Map<Seq<char>, Seq<char>> {
    Map::new(
        |name: Seq<char>| fields.contains_key(name) && !is_raw_name(name),
        |name: Seq<char>| fields[name],
    )
}

/// Tests whether the value stored under `name` is inserted without
/// escaping.
pub fn is_raw(name: &str) -> (b: bool)
    ensures
        b == is_raw_name(name@),
{
    let mut p: Vec<char> = Vec::new();
    p.push('N');
    p.push('O');
    p.push('E');
    p.push('S');
    p.push('C');
    assert(p@ == raw_prefix());
    let v = chars_of(name);
    matches_at(&v, 0, &p)
}

/// One named value.
pub struct Field {
    pub name: String,
    pub value: String,
}

/// A mapping from field names to text values. Names are case-sensitive,
/// and storing under a name that is present replaces its value.
pub struct FieldMap {
    entries: Vec<Field>,
}

/// The map that a sequence of entries stands for: each entry stores its
/// value under its name, a later one in place of an earlier one.
pub closed spec fn map_of(entries: Seq<Field>) -> Map<Seq<char>, Seq<char>>
    decreases entries.len(),
{
    if entries.len() == 0 {
        Map::empty()
    } else {
        map_of(entries.drop_last()).insert(entries.last().name@, entries.last().value@)
    }
}

/// A name that no entry bears is not in the map.
proof fn lemma_absent(entries: Seq<Field>, name: Seq<char>)
    requires
        forall|j: int| 0 <= j < entries.len() ==> entries[j].name@ != name,
    ensures
        !map_of(entries).contains_key(name),
    decreases entries.len(),
{
    if entries.len() > 0 {
        lemma_absent(entries.drop_last(), name);
    }
}

/// The last entry that bears a name gives the name's value.
proof fn lemma_last_counts(entries: Seq<Field>, name: Seq<char>, i: int)
    requires
        0 <= i < entries.len(),
        entries[i].name@ == name,
        forall|j: int| i < j < entries.len() ==> entries[j].name@ != name,
    ensures
        map_of(entries).contains_key(name),
        map_of(entries)[name] == entries[i].value@,
    decreases entries.len(),
{
    if i < entries.len() - 1 {
        lemma_last_counts(entries.drop_last(), name, i);
    }
}

impl View for FieldMap {
    type V = Map<Seq<char>, Seq<char>>;

    closed spec fn view(&self) -> Map<Seq<char>, Seq<char>> {
        map_of(self.entries@)
    }
}

impl FieldMap {
    /// A map without fields.
    pub fn new() -> (m: FieldMap)
        ensures
            m@ == Map::<Seq<char>, Seq<char>>::empty(),
    {
        FieldMap { entries: Vec::new() }
    }

    /// Whether a field called `name` is present.
    pub fn contains_key(&self, name: &str) -> (b: bool)
        ensures
            b == self@.contains_key(name@),
    {
        self.get(name).is_some()
    }

    /// The value of the field called `name`, if it is present.
    pub fn get(&self, name: &str) -> (v: Option<&String>)
        ensures
            v is Some <==> self@.contains_key(name@),
            v matches Some(text) ==> text@ == self@[name@],
    {
        let mut i: usize = self.entries.len();
        while i > 0
            invariant
                i <= self.entries@.len(),
                forall|j: int| i <= j < self.entries@.len() ==> self.entries@[j].name@ != name@,
            decreases i,
        {
            i -= 1;
            if same_text(self.entries[i].name.as_str(), name) {
                proof {
                    lemma_last_counts(self.entries@, name@, i as int);
                }
                return Some(&self.entries[i].value);
            }
        }
        proof {
            lemma_absent(self.entries@, name@);
        }
        None
    }

    /// Stores `value` under `name`, in place of the value that was there.
    pub fn insert(&mut self, name: String, value: String)
        ensures
            final(self)@ == old(self)@.insert(name@, value@),
    {
        self.remove(name.as_str());
        let ghost before = self.entries@;
        self.entries.push(Field { name, value });
        assert(self.entries@.drop_last() == before);
        assert(self@ =~= old(self)@.insert(name@, value@));
    }

    /// Takes out the field called `name`, if it is present.
    pub fn remove(&mut self, name: &str)
        ensures
            final(self)@ == old(self)@.remove(name@),
    {
        let mut kept: Vec<Field> = Vec::new();
        let mut i: usize = 0;
        while i < self.entries.len()
            invariant
                i <= self.entries@.len(),
                map_of(kept@) == map_of(self.entries@.take(i as int)).remove(name@),
            decreases self.entries@.len() - i,
        {
            let entry = &self.entries[i];
            let ghost seen = self.entries@.take(i as int);
            let ghost kept_before = kept@;
            assert(self.entries@.take(i + 1).drop_last() == seen);
            if !same_text(entry.name.as_str(), name) {
                kept.push(Field { name: entry.name.clone(), value: entry.value.clone() });
                assert(kept@.drop_last() == kept_before);
                assert(map_of(kept@) =~= map_of(self.entries@.take(i + 1)).remove(name@));
            } else {
                assert(map_of(kept@) =~= map_of(self.entries@.take(i + 1)).remove(name@));
            }
            i += 1;
        }
        assert(self.entries@.take(self.entries@.len() as int) == self.entries@);
        self.entries = kept;
    }

    /// Takes out every field whose value would be inserted without
    /// escaping.
    pub fn drop_raw(&mut self)
        ensures
            final(self)@ == escaped_part(old(self)@),
    {
        let mut kept: Vec<Field> = Vec::new();
        let mut i: usize = 0;
        assert(map_of(Seq::<Field>::empty()) =~= escaped_part(map_of(Seq::<Field>::empty())));
        while i < self.entries.len()
            invariant
                i <= self.entries@.len(),
                map_of(kept@) == escaped_part(map_of(self.entries@.take(i as int))),
            decreases self.entries@.len() - i,
        {
            let entry = &self.entries[i];
            let ghost seen = self.entries@.take(i as int);
            let ghost kept_before = kept@;
            assert(self.entries@.take(i + 1).drop_last() == seen);
            if !is_raw(entry.name.as_str()) {
                kept.push(Field { name: entry.name.clone(), value: entry.value.clone() });
                assert(kept@.drop_last() == kept_before);
                assert(map_of(kept@) =~= escaped_part(map_of(self.entries@.take(i + 1))));
            } else {
                assert(map_of(kept@) =~= escaped_part(map_of(self.entries@.take(i + 1))));
            }
            i += 1;
        }
        assert(self.entries@.take(self.entries@.len() as int) == self.entries@);
        self.entries = kept;
    }
}

} // verus!
