//! Maps from names to numbers.

use vstd::prelude::*;
use vstd::string::StrSliceExecFns;

verus! {

/// A map from names to numbers, in the order in which the names came.
#[derive(Debug)]
pub struct IdMap {
    entries: Vec<(String, i64)>,
}

/// Whether entry `i` has a name.
pub open spec fn named(entries: Seq<(String, i64)>, name: Seq<char>, i: int) -> bool {
    0 <= i < entries.len() && entries[i].0@ == name
}

/// Whether no name comes twice.
pub open spec fn distinct(entries: Seq<(String, i64)>) -> bool {
    forall|i: int, j: int|
        0 <= i < entries.len() && 0 <= j < entries.len() && (#[trigger] entries[i]).0@ == (
        #[trigger] entries[j]).0@ ==> i == j
}

/// The numbers by name.
pub open spec fn by_name(entries: Seq<(String, i64)>) -> Map<Seq<char>, i64> {
    Map::new(
        |name: Seq<char>| exists|i: int| named(entries, name, i),
        |name: Seq<char>| entries[choose|i: int| named(entries, name, i)].1,
    )
}

/// The number of a name is that of the entry that has it.
proof fn lemma_named(entries: Seq<(String, i64)>, name: Seq<char>, i: int)
    requires
        distinct(entries),
        named(entries, name, i),
    ensures
        by_name(entries).contains_key(name),
        by_name(entries)[name] == entries[i].1,
{
    let j = choose|j: int| named(entries, name, j);
    assert(entries[i].0@ == entries[j].0@);
}

/// The names, in the order of the entries.
pub open spec fn name_order(entries: Seq<(String, i64)>) -> Seq<Seq<char>> {
    Seq::new(entries.len(), |i: int| entries[i].0@)
}

/// What the map holds after an entry has come or has changed.
proof fn lemma_inserted(
    before: Seq<(String, i64)>,
    after: Seq<(String, i64)>,
    name: Seq<char>,
    id: i64,
    at: int,
)
    requires
        distinct(before),
        distinct(after),
        before.len() <= after.len() <= before.len() + 1,
        0 <= at < after.len(),
        after.len() > before.len() ==> at == before.len(),
        at < before.len() ==> named(before, name, at),
        after[at].0@ == name,
        after[at].1 == id,
        forall|i: int| 0 <= i < before.len() && i != at ==> #[trigger] after[i] == before[i],
    ensures
        by_name(after) == by_name(before).insert(name, id),
{
    let wanted = by_name(before).insert(name, id);
    assert forall|other: Seq<char>|
        #![trigger by_name(after).dom().contains(other)]
        #![trigger by_name(after)[other]]
        #![trigger wanted[other]]
        by_name(after).dom().contains(other) == wanted.dom().contains(other) && (
        wanted.dom().contains(other) ==> by_name(after)[other] == wanted[other]) by {
        if other == name {
            assert(named(after, name, at));
            lemma_named(after, name, at);
        } else if by_name(before).contains_key(other) {
            let i = choose|i: int| named(before, other, i);
            assert(named(after, other, i));
            lemma_named(before, other, i);
            lemma_named(after, other, i);
        } else if by_name(after).contains_key(other) {
            let i = choose|i: int| named(after, other, i);
            assert(named(before, other, i));
        }
    }
    assert(by_name(after) =~= wanted);
}

impl View for IdMap {
    type V = Map<Seq<char>, i64>;

    closed spec fn view(&self) -> Map<Seq<char>, i64> {
        by_name(self.entries@)
    }
}

impl IdMap {
    /// No name comes twice.
    #[verifier::type_invariant]
    spec fn inv(self) -> bool {
        distinct(self.entries@)
    }

    /// The names, in the order in which they came.
    pub closed spec fn names(self) -> Seq<Seq<char>> {
        name_order(self.entries@)
    }

    /// The empty map.
    pub fn new() -> (r: IdMap)
        ensures
            r@ == Map::<Seq<char>, i64>::empty(),
            r.names() == Seq::<Seq<char>>::empty(),
    {
        let r = IdMap { entries: Vec::new() };
        proof {
            assert(r@ =~= Map::<Seq<char>, i64>::empty());
            assert(r.names() =~= Seq::<Seq<char>>::empty());
        }
        r
    }

    /// Where a name is, if it is there.
    fn position(&self, name: &String) -> (r: Option<usize>)
        ensures
            match r {
                Some(i) => named(self.entries@, name@, i as int),
                None => forall|i: int| !named(self.entries@, name@, i),
            },
    {
        let mut i: usize = 0;
        while i < self.entries.len()
            invariant
                i <= self.entries.len(),
                forall|j: int| 0 <= j < i ==> !named(self.entries@, name@, j),
            decreases self.entries.len() - i,
        {
            if self.entries[i].0 == *name {
                return Some(i);
            }
            i += 1;
        }
        None
    }

    /// The number of a name is from now on `id`. A new name comes after those that are there; a
    /// name that is there keeps its place.
    pub fn insert(&mut self, name: String, id: i64)
        ensures
            final(self)@ == old(self)@.insert(name@, id),
            final(self).names() == (if old(self)@.contains_key(name@) {
                old(self).names()
            } else {
                old(self).names().push(name@)
            }),
    {
        proof {
            use_type_invariant(&*self);
        }
        let ghost before = self.entries@;
        let ghost key = name@;
        let found = self.position(&name);
        let mut entries: Vec<(String, i64)> = Vec::new();
        std::mem::swap(&mut entries, &mut self.entries);
        match found {
            Some(i) => {
                entries.set(i, (name, id));
                proof {
                    lemma_inserted(before, entries@, key, id, i as int);
                    lemma_named(before, key, i as int);
                    assert(name_order(entries@) =~= name_order(before));
                }
            },
            None => {
                entries.push((name, id));
                proof {
                    assert forall|i: int| 0 <= i < before.len() implies (
                    #[trigger] entries@[i]).0@ != key by {
                        assert(!named(before, key, i));
                    }
                    lemma_inserted(before, entries@, key, id, before.len() as int);
                    assert(!by_name(before).contains_key(key));
                    assert(name_order(entries@) =~= name_order(before).push(key));
                }
            },
        }
        self.entries = entries;
    }

    /// The number of a name, if it has one.
    pub fn get(&self, name: &String) -> (r: Option<i64>)
        ensures
            r == (if self@.contains_key(name@) {
                Some(self@[name@])
            } else {
                None
            }),
    {
        proof {
            use_type_invariant(self);
        }
        match self.position(name) {
            Some(i) => {
                proof {
                    lemma_named(self.entries@, name@, i as int);
                }
                Some(self.entries[i].1)
            },
            None => None,
        }
    }

    /// The entries, in the order in which their names came.
    pub fn entries(&self) -> (r: &Vec<(String, i64)>)
        ensures
            distinct(r@),
            self@ == by_name(r@),
            name_order(r@) == self.names(),
    {
        proof {
            use_type_invariant(self);
        }
        &self.entries
    }
}

/// The identifier of a name as a list, which is empty where the name has none.
pub open spec fn id_list(ids: Map<Seq<char>, i64>, name: Seq<char>) -> Seq<i64> {
    if ids.contains_key(name) {
        seq![ids[name]]
    } else {
        seq![]
    }
}

/// The identifiers of the known ones among some phonemes, each followed by that of a pad.
pub open spec fn padded_ids(phonemes: Seq<char>, ids: Map<Seq<char>, i64>) -> Seq<i64>
    decreases phonemes.len(),
{
    if phonemes.len() == 0 {
        seq![]
    } else {
        let name = seq![phonemes.last()];
        let before = padded_ids(phonemes.drop_last(), ids);
        if ids.contains_key(name) {
            before.push(ids[name]) + id_list(ids, "_"@)
        } else {
            before
        }
    }
}

/// The identifiers of the phonemes of a sentence: that of the start, those of the known phonemes,
/// each followed by that of a pad, and that of the end. What has no identifier is left out.
pub fn phonemes_to_ids(phonemes: &str, ids: &IdMap) -> (r: Vec<i64>)
    ensures
        r@ == id_list(ids@, "^"@) + padded_ids(phonemes@, ids@) + id_list(ids@, "$"@),
{
    let pad = ids.get(&"_".to_owned());
    let mut list: Vec<i64> = Vec::new();
    if let Some(id) = ids.get(&"^".to_owned()) {
        list.push(id);
    }
    let n: usize = phonemes.unicode_len();
    let mut i: usize = 0;
    while i < n
        invariant
            i <= n,
            n == phonemes@.len(),
            pad == (if ids@.contains_key("_"@) {
                Some(ids@["_"@])
            } else {
                None
            }),
            list@ == id_list(ids@, "^"@) + padded_ids(phonemes@.take(i as int), ids@),
        decreases n - i,
    {
        let name = phonemes.substring_char(i, i + 1).to_owned();
        proof {
            assert(name@ =~= seq![phonemes@[i as int]]);
            assert(phonemes@.take(i + 1).drop_last() =~= phonemes@.take(i as int));
        }
        if let Some(id) = ids.get(&name) {
            list.push(id);
            if let Some(pad) = pad {
                list.push(pad);
            }
        }
        i += 1;
    }
    if let Some(id) = ids.get(&"$".to_owned()) {
        list.push(id);
    }
    proof {
        assert(phonemes@.take(n as int) =~= phonemes@);
    }
    list
}

} // verus!
