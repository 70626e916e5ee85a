//! A map from names to records that keeps its entries in name order.

use vstd::prelude::*;

use crate::text::{chars_of, same};

verus! {

// ---------------------------------------------------------------------------
// Name order
// ---------------------------------------------------------------------------

/// Strict order by code points, which for UTF-8 text is the order by bytes.
pub open spec fn precedes(a: Seq<char>, b: Seq<char>) -> bool
    decreases a.len(),
{
    if b.len() == 0 {
        false
    } else if a.len() == 0 {
        true
    } else if a[0] != b[0] {
        a[0] < b[0]
    } else {
        precedes(a.drop_first(), b.drop_first())
    }
}

pub proof fn lemma_precedes_not_self(a: Seq<char>)
    ensures
        !precedes(a, a),
    decreases a.len(),
{
    if a.len() > 0 {
        lemma_precedes_not_self(a.drop_first());
    }
}

pub proof fn lemma_precedes_transitive(a: Seq<char>, b: Seq<char>, c: Seq<char>)
    requires
        precedes(a, b),
        precedes(b, c),
    ensures
        precedes(a, c),
    decreases a.len(),
{
    if a.len() > 0 && a[0] == b[0] && b[0] == c[0] {
        lemma_precedes_transitive(a.drop_first(), b.drop_first(), c.drop_first());
    }
}

pub proof fn lemma_precedes_total(a: Seq<char>, b: Seq<char>)
    requires
        a != b,
    ensures
        precedes(a, b) || precedes(b, a),
    decreases a.len(),
{
    if a.len() > 0 && b.len() > 0 && a[0] == b[0] {
        if a.drop_first() == b.drop_first() {
            assert(a =~= seq![a[0]] + a.drop_first());
            assert(b =~= seq![b[0]] + b.drop_first());
        }
        lemma_precedes_total(a.drop_first(), b.drop_first());
    } else if a.len() == 0 && b.len() == 0 {
        assert(a =~= b);
    }
}

/// Whether `a` comes before `b`.
pub fn is_before(a: &str, b: &str) -> (yes: bool)
    ensures
        yes == precedes(a@, b@),
{
    let left = chars_of(a);
    let right = chars_of(b);
    let mut i: usize = 0;
    assert(left@.skip(0) =~= left@ && right@.skip(0) =~= right@);
    while i < left.len() && i < right.len()
        invariant
            left@ == a@,
            right@ == b@,
            i <= left.len(),
            i <= right.len(),
            precedes(a@, b@) == precedes(left@.skip(i as int), right@.skip(i as int)),
        decreases left.len() - i,
    {
        if left[i] != right[i] {
            return left[i] < right[i];
        }
        assert(left@.skip(i as int).drop_first() =~= left@.skip(i + 1));
        assert(right@.skip(i as int).drop_first() =~= right@.skip(i + 1));
        i = i + 1;
    }
    i < right.len()
}

// ---------------------------------------------------------------------------
// The map
// ---------------------------------------------------------------------------

/// Records by name, in name order.
pub struct NameMap<T> {
    entries: Vec<(String, T)>,
}

impl<T> View for NameMap<T> {
    type V = Map<Seq<char>, T>;

    closed spec fn view(&self) -> Map<Seq<char>, T> {
        Map::new(|name: Seq<char>| self.has(name), |name: Seq<char>| self.entries@[self.place(name)].1)
    }
}

impl<T> NameMap<T> {
    /// The names in order are strictly ascending, so no name occurs twice.
    pub closed spec fn wf(&self) -> bool {
        forall|i: int, j: int|
            0 <= i < j < self.entries@.len() ==> precedes(
                #[trigger] self.entries@[i].0@,
                #[trigger] self.entries@[j].0@,
            )
    }

    spec fn has(&self, name: Seq<char>) -> bool {
        exists|i: int| 0 <= i < self.entries@.len() && #[trigger] self.entries@[i].0@ == name
    }

    spec fn place(&self, name: Seq<char>) -> int {
        choose|i: int| 0 <= i < self.entries@.len() && #[trigger] self.entries@[i].0@ == name
    }

    /// The names, first to last.
    pub closed spec fn names(&self) -> Seq<Seq<char>> {
        Seq::new(self.entries@.len(), |i: int| self.entries@[i].0@)
    }

    /// The names are the keys of the map, in strictly ascending order.
    pub proof fn lemma_names(&self)
        requires
            self.wf(),
        ensures
            self@.dom().finite(),
            self@.len() == self.names().len(),
            forall|i: int, j: int|
                0 <= i < j < self.names().len() ==> precedes(
                    #[trigger] self.names()[i],
                    #[trigger] self.names()[j],
                ),
            forall|i: int|
                0 <= i < self.names().len() ==> self@.contains_key(#[trigger] self.names()[i]),
            forall|name: Seq<char>| #[trigger]
                self@.contains_key(name) ==> self.names().contains(name),
    {
        let names = self.names();
        assert(names.no_duplicates()) by {
            assert forall|i: int, j: int|
                0 <= i < names.len() && 0 <= j < names.len() && i != j implies names[i]
                != names[j] by {
                lemma_precedes_not_self(names[i]);
                if i < j {
                    assert(precedes(self.entries@[i].0@, self.entries@[j].0@));
                } else {
                    assert(precedes(self.entries@[j].0@, self.entries@[i].0@));
                }
            }
        }
        assert forall|i: int| 0 <= i < names.len() implies self@.contains_key(
            #[trigger] names[i],
        ) by {
            assert(self.entries@[i].0@ == names[i]);
        }
        assert forall|name: Seq<char>| #[trigger] self@.contains_key(name) implies names.contains(
            name,
        ) by {
            let i = self.place(name);
            assert(names[i] == name);
        }
        names.unique_seq_to_set();
        assert(names.to_set() =~= self@.dom());
    }

    /// The entry at position `i` is the map's entry under its name.
    proof fn lemma_entry(&self, i: int)
        requires
            self.wf(),
            0 <= i < self.entries@.len(),
        ensures
            self@.contains_key(self.entries@[i].0@),
            self@[self.entries@[i].0@] == self.entries@[i].1,
    {
        let name = self.entries@[i].0@;
        let j = self.place(name);
        assert(0 <= j < self.entries@.len() && self.entries@[j].0@ == name);
        lemma_precedes_not_self(name);
        if i < j {
            assert(precedes(self.entries@[i].0@, self.entries@[j].0@));
        } else if j < i {
            assert(precedes(self.entries@[j].0@, self.entries@[i].0@));
        }
    }

    pub fn new() -> (map: Self)
        ensures
            map.wf(),
            map@ == Map::<Seq<char>, T>::empty(),
            map.names() == Seq::<Seq<char>>::empty(),
    {
        let map = NameMap { entries: Vec::new() };
        assert(map@ =~= Map::<Seq<char>, T>::empty());
        assert(map.names() =~= Seq::<Seq<char>>::empty());
        map
    }

    pub fn len(&self) -> (count: usize)
        requires
            self.wf(),
        ensures
            count == self@.len(),
            count == self.names().len(),
            self@.dom().finite(),
    {
        proof {
            self.lemma_names();
        }
        self.entries.len()
    }

    /// The name at position `i`, in order.
    pub fn name_at(&self, i: usize) -> (name: &String)
        requires
            self.wf(),
            i < self.names().len(),
        ensures
            name@ == self.names()[i as int],
            self@.contains_key(name@),
    {
        proof {
            self.lemma_names();
        }
        &self.entries[i].0
    }

    /// The record at position `i`, in name order.
    pub fn value_at(&self, i: usize) -> (value: &T)
        requires
            self.wf(),
            i < self.names().len(),
        ensures
            *value == self@[self.names()[i as int]],
    {
        proof {
            self.lemma_entry(i as int);
        }
        &self.entries[i].1
    }

    /// The first position whose name does not come before `name`.
    fn position(&self, name: &str) -> (at: usize)
        requires
            self.wf(),
        ensures
            at <= self.entries@.len(),
            forall|i: int| 0 <= i < at ==> precedes(#[trigger] self.entries@[i].0@, name@),
            forall|i: int|
                at <= i < self.entries@.len() ==> !precedes(
                    #[trigger] self.entries@[i].0@,
                    name@,
                ),
            self.has(name@) <==> at < self.entries@.len() && self.entries@[at as int].0@ == name@,
    {
        let mut at: usize = 0;
        while at < self.entries.len() && is_before(self.entries[at].0.as_str(), name)
            invariant
                at <= self.entries@.len(),
                forall|i: int| 0 <= i < at ==> precedes(#[trigger] self.entries@[i].0@, name@),
            decreases self.entries.len() - at,
        {
            at = at + 1;
        }
        proof {
            assert forall|i: int| at <= i < self.entries@.len() implies !precedes(
                #[trigger] self.entries@[i].0@,
                name@,
            ) by {
                if i > at && precedes(self.entries@[i].0@, name@) {
                    lemma_precedes_transitive(
                        self.entries@[at as int].0@,
                        self.entries@[i].0@,
                        name@,
                    );
                }
            }
            lemma_precedes_not_self(name@);
            if self.has(name@) {
                let i = self.place(name@);
                assert(self.entries@[i].0@ == name@);
                if i < at {
                    assert(false);
                } else if i > at {
                    assert(precedes(self.entries@[at as int].0@, self.entries@[i].0@));
                }
            }
        }
        at
    }

    pub fn contains(&self, name: &str) -> (found: bool)
        requires
            self.wf(),
        ensures
            found == self@.contains_key(name@),
    {
        let at: usize = self.position(name);
        at < self.entries.len() && same(self.entries[at].0.as_str(), name)
    }

    /// The record under `name`.
    pub fn get(&self, name: &str) -> (value: Option<&T>)
        requires
            self.wf(),
        ensures
            match value {
                Some(record) => self@.contains_key(name@) && *record == self@[name@],
                None => !self@.contains_key(name@),
            },
    {
        let at: usize = self.position(name);
        if at < self.entries.len() && same(self.entries[at].0.as_str(), name) {
            proof {
                self.lemma_entry(at as int);
            }
            Some(&self.entries[at].1)
        } else {
            None
        }
    }

    /// Puts `value` under `name` and hands back the record that stood there.
    pub fn insert(&mut self, name: &str, value: T) -> (replaced: Option<T>)
        requires
            old(self).wf(),
        ensures
            final(self).wf(),
            final(self)@ == old(self)@.insert(name@, value),
            replaced == (if old(self)@.contains_key(name@) {
                Some(old(self)@[name@])
            } else {
                None
            }),
    {
        let at: usize = self.position(name);
        let ghost before = *self;
        let replaced: Option<T> = if at < self.entries.len() && same(
            self.entries[at].0.as_str(),
            name,
        ) {
            proof {
                self.lemma_entry(at as int);
            }
            let (_, value) = self.entries.remove(at);
            Some(value)
        } else {
            None
        };
        self.entries.insert(at, (name.to_owned(), value));
        proof {
            let shift: int = if replaced is Some { 0 } else { 1 };
            assert forall|i: int, j: int|
                0 <= i < j < self.entries@.len() implies precedes(
                #[trigger] self.entries@[i].0@,
                #[trigger] self.entries@[j].0@,
            ) by {
                if i < at {
                    assert(self.entries@[i] == before.entries@[i]);
                }
                if j > at {
                    assert(self.entries@[j] == before.entries@[j - shift]);
                    let there = before.entries@[j - shift].0@;
                    if i == at {
                        if replaced is Some {
                            assert(precedes(before.entries@[at as int].0@, there));
                        } else {
                            assert(!precedes(there, name@));
                            assert(there != name@);
                            lemma_precedes_total(there, name@);
                        }
                    } else if i > at {
                        assert(self.entries@[i] == before.entries@[i - shift]);
                    }
                }
            }
            self.lemma_entry(at as int);
            assert forall|other: Seq<char>|
                other != name@ implies #[trigger] self@.contains_key(other)
                == before@.contains_key(other) && (before@.contains_key(other) ==> self@[other]
                == before@[other]) by {
                if before@.contains_key(other) {
                    let i = before.place(other);
                    assert(before.entries@[i].0@ == other);
                    before.lemma_entry(i);
                    let k = if i < at { i } else { i + shift };
                    assert(self.entries@[k] == before.entries@[i]);
                    self.lemma_entry(k);
                } else if self@.contains_key(other) {
                    let k = self.place(other);
                    assert(self.entries@[k].0@ == other);
                    let i = if k < at { k } else { k - shift };
                    assert(self.entries@[k] == before.entries@[i]);
                    before.lemma_entry(i);
                }
            }
            assert(self@ =~= before@.insert(name@, value));
        }
        replaced
    }

    /// Takes the record under `name` out of the map.
    pub fn remove(&mut self, name: &str) -> (removed: Option<T>)
        requires
            old(self).wf(),
        ensures
            final(self).wf(),
            final(self)@ == old(self)@.remove(name@),
            removed == (if old(self)@.contains_key(name@) {
                Some(old(self)@[name@])
            } else {
                None
            }),
    {
        let at: usize = self.position(name);
        let ghost before = *self;
        if at < self.entries.len() && same(self.entries[at].0.as_str(), name) {
            proof {
                self.lemma_entry(at as int);
            }
            let (_, value) = self.entries.remove(at);
            proof {
                assert forall|i: int, j: int|
                    0 <= i < j < self.entries@.len() implies precedes(
                    #[trigger] self.entries@[i].0@,
                    #[trigger] self.entries@[j].0@,
                ) by {
                    let a = if i < at { i } else { i + 1 };
                    let b = if j < at { j } else { j + 1 };
                    assert(self.entries@[i] == before.entries@[a]);
                    assert(self.entries@[j] == before.entries@[b]);
                }
                assert forall|other: Seq<char>| #[trigger]
                    self@.contains_key(other) == (other != name@ && before@.contains_key(other))
                        && (self@.contains_key(other) ==> self@[other] == before@[other]) by {
                    if other != name@ && before@.contains_key(other) {
                        let i = before.place(other);
                        assert(before.entries@[i].0@ == other);
                        before.lemma_entry(i);
                        let k = if i < at { i } else { i - 1 };
                        assert(self.entries@[k] == before.entries@[i]);
                        self.lemma_entry(k);
                    } else if self@.contains_key(other) {
                        let k = self.place(other);
                        assert(self.entries@[k].0@ == other);
                        let i = if k < at { k } else { k + 1 };
                        assert(self.entries@[k] == before.entries@[i]);
                        before.lemma_entry(i);
                        if other == name@ {
                            lemma_precedes_not_self(name@);
                            if i < at {
                                assert(precedes(
                                    before.entries@[i].0@,
                                    before.entries@[at as int].0@,
                                ));
                            } else {
                                assert(precedes(
                                    before.entries@[at as int].0@,
                                    before.entries@[i].0@,
                                ));
                            }
                        }
                    }
                }
                assert(self@ =~= before@.remove(name@));
            }
            Some(value)
        } else {
            assert(before@.remove(name@) =~= before@);
            None
        }
    }
}

} // verus!
