//! A table of entries kept in strictly increasing key order, with at most one
//! entry per key. It backs the in-memory session, credential and host-key stores.

use vstd::prelude::*;

use crate::text::{
    chars_eq, chars_less, chars_of, lemma_seq_less_asymmetric, lemma_seq_less_irreflexive,
    lemma_seq_less_total, lemma_seq_less_transitive, seq_less,
};

verus! {

/// A key: a text and a number, ordered by the text first (in code-point order)
/// and then by the number.
pub open spec fn key_less(a: (Seq<char>, u16), b: (Seq<char>, u16)) -> bool {
    seq_less(a.0, b.0) || (a.0 == b.0 && a.1 < b.1)
}

pub proof fn lemma_key_order(a: (Seq<char>, u16), b: (Seq<char>, u16), c: (Seq<char>, u16))
    ensures
        !key_less(a, a),
        key_less(a, b) ==> !key_less(b, a),
        key_less(a, b) && key_less(b, c) ==> key_less(a, c),
        a == b || key_less(a, b) || key_less(b, a),
{
    lemma_seq_less_irreflexive(a.0);
    lemma_seq_less_asymmetric(a.0, b.0);
    lemma_seq_less_total(a.0, b.0);
    if seq_less(a.0, b.0) && seq_less(b.0, c.0) {
        lemma_seq_less_transitive(a.0, b.0, c.0);
    }
}

/// An entry that a table can hold.
pub trait TableEntry: Sized {
    spec fn entry_key(&self) -> (Seq<char>, u16);

    fn key_text(&self) -> (r: &str)
        ensures
            r@ == self.entry_key().0,
    ;

    fn key_number(&self) -> (r: u16)
        ensures
            r == self.entry_key().1,
    ;

    fn duplicate(&self) -> (r: Self)
        ensures
            r == *self,
    ;
}

/// The keys of `s` strictly increase.
pub open spec fn keys_increasing<E: TableEntry>(s: Seq<E>) -> bool {
    forall|i: int, j: int| 0 <= i < j < s.len() ==> key_less(#[trigger] s[i].entry_key(), #[trigger] s[j].entry_key())
}

/// A position of `s` whose entry has key `k`, if there is one.
pub open spec fn key_index<E: TableEntry>(s: Seq<E>, k: (Seq<char>, u16)) -> int {
    choose|i: int| 0 <= i < s.len() && #[trigger] s[i].entry_key() == k
}

/// The map from key to entry that a sequence with distinct keys stands for.
pub open spec fn entries_map<E: TableEntry>(s: Seq<E>) -> Map<(Seq<char>, u16), E> {
    Map::new(
        |k: (Seq<char>, u16)| exists|i: int| 0 <= i < s.len() && #[trigger] s[i].entry_key() == k,
        |k: (Seq<char>, u16)| s[key_index(s, k)],
    )
}

/// In a sequence with increasing keys, the entry at `i` is the one its key maps to.
pub proof fn lemma_entries_map_at<E: TableEntry>(s: Seq<E>, i: int)
    requires
        keys_increasing(s),
        0 <= i < s.len(),
    ensures
        entries_map(s).contains_key(s[i].entry_key()),
        entries_map(s)[s[i].entry_key()] == s[i],
{
    let k = s[i].entry_key();
    assert(exists|j: int| 0 <= j < s.len() && #[trigger] s[j].entry_key() == k);
    let j = key_index(s, k);
    if j != i {
        if j < i {
            assert(key_less(s[j].entry_key(), s[i].entry_key()));
        } else {
            assert(key_less(s[i].entry_key(), s[j].entry_key()));
        }
        lemma_key_order(k, k, k);
    }
    assert(entries_map(s).contains_key(k));
    assert(entries_map(s)[k] == s[j]);
}

/// Exec comparison of two keys.
fn key_precedes(a_text: &[char], a_num: u16, b_text: &[char], b_num: u16) -> (r: bool)
    ensures
        r == key_less((a_text@, a_num), (b_text@, b_num)),
{
    if chars_less(a_text, b_text) {
        true
    } else if chars_eq(a_text, b_text) {
        a_num < b_num
    } else {
        false
    }
}

/// A table of entries in strictly increasing key order.
pub struct SortedTable<E: TableEntry> {
    entries: Vec<E>,
}

impl<E: TableEntry> SortedTable<E> {
    #[verifier::type_invariant]
    spec fn well_formed(&self) -> bool {
        keys_increasing(self.entries@)
    }

    /// The entries, in increasing key order.
    pub closed spec fn seq(&self) -> Seq<E> {
        self.entries@
    }

    /// The entries by key.
    pub open spec fn map(&self) -> Map<(Seq<char>, u16), E> {
        entries_map(self.seq())
    }

    /// The entries, in strictly increasing key order.
    pub fn entries(&self) -> (r: &Vec<E>)
        ensures
            r@ == self.seq(),
            keys_increasing(self.seq()),
    {
        proof {
            use_type_invariant(self);
        }
        &self.entries
    }

    pub fn new() -> (r: Self)
        ensures
            r.seq() == Seq::<E>::empty(),
            r.map() == Map::<(Seq<char>, u16), E>::empty(),
    {
        let r = SortedTable { entries: Vec::new() };
        assert(r.map() =~= Map::<(Seq<char>, u16), E>::empty());
        r
    }

    pub fn len(&self) -> (r: usize)
        ensures
            r == self.seq().len(),
    {
        self.entries.len()
    }

    /// The entry at a position in key order.
    pub fn at(&self, i: usize) -> (r: &E)
        requires
            i < self.seq().len(),
        ensures
            *r == self.seq()[i as int],
    {
        &self.entries[i]
    }

    /// The first position whose key is not below `(text, num)`, and whether the
    /// entry there has that key.
    fn position(&self, text: &[char], num: u16) -> (r: (usize, bool))
        ensures
            r.0 <= self.seq().len(),
            forall|j: int| 0 <= j < r.0 ==> key_less(#[trigger] self.seq()[j].entry_key(), (text@, num)),
            r.0 < self.seq().len() ==> !key_less(self.seq()[r.0 as int].entry_key(), (text@, num)),
            r.1 == (r.0 < self.seq().len() && self.seq()[r.0 as int].entry_key() == (text@, num)),
    {
        proof {
            use_type_invariant(self);
        }
        let mut i: usize = 0;
        while i < self.entries.len()
            invariant
                i <= self.entries.len(),
                forall|j: int| 0 <= j < i ==> key_less(#[trigger] self.entries@[j].entry_key(), (text@, num)),
            decreases self.entries.len() - i,
        {
            let e = &self.entries[i];
            let et = chars_of(e.key_text());
            let en = e.key_number();
            if !key_precedes(et.as_slice(), en, text, num) {
                let same = chars_eq(et.as_slice(), text) && en == num;
                return (i, same);
            }
            i = i + 1;
        }
        (i, false)
    }

    /// The entry stored under `(text, num)`, if any.
    pub fn get(&self, text: &[char], num: u16) -> (r: Option<&E>)
        ensures
            match r {
                Some(e) => self.map().contains_key((text@, num)) && *e == self.map()[(text@, num)],
                None => !self.map().contains_key((text@, num)),
            },
    {
        proof {
            use_type_invariant(self);
        }
        let (i, found) = self.position(text, num);
        if found {
            proof {
                lemma_entries_map_at(self.seq(), i as int);
            }
            Some(&self.entries[i])
        } else {
            proof {
                self.lemma_absent(text@, num, i as int);
            }
            None
        }
    }

    proof fn lemma_absent(&self, text: Seq<char>, num: u16, i: int)
        requires
            0 <= i <= self.seq().len(),
            forall|j: int| 0 <= j < i ==> key_less(#[trigger] self.seq()[j].entry_key(), (text, num)),
            i < self.seq().len() ==> !key_less(self.seq()[i].entry_key(), (text, num)),
            !(i < self.seq().len() && self.seq()[i].entry_key() == (text, num)),
            keys_increasing(self.seq()),
        ensures
            !self.map().contains_key((text, num)),
    {
        let k = (text, num);
        if self.map().contains_key(k) {
            let j = choose|j: int| 0 <= j < self.seq().len() && #[trigger] self.seq()[j].entry_key() == k;
            lemma_key_order(k, k, k);
            if j > i {
                assert(key_less(self.seq()[i].entry_key(), self.seq()[j].entry_key()));
                lemma_key_order(self.seq()[i].entry_key(), k, k);
            }
        }
    }

    /// Stores `e`, replacing the entry with the same key if there is one.
    pub fn upsert(&mut self, e: E)
        ensures
            final(self).map() == old(self).map().insert(e.entry_key(), e),
    {
        proof {
            use_type_invariant(&*self);
        }
        let text = chars_of(e.key_text());
        let num = e.key_number();
        let (i, found) = self.position(text.as_slice(), num);
        let ghost old_seq = self.entries@;
        let ghost k = e.entry_key();
        let mut v: Vec<E> = Vec::new();
        std::mem::swap(&mut v, &mut self.entries);
        if found {
            v.set(i, e);
        } else {
            v.insert(i, e);
        }
        proof {
            assert forall|a: int, b: int| 0 <= a < b < v@.len() implies key_less(
                #[trigger] v@[a].entry_key(),
                #[trigger] v@[b].entry_key(),
            ) by {
                lemma_key_order(k, k, k);
                if found {
                    if a != i && b != i {
                        assert(key_less(old_seq[a].entry_key(), old_seq[b].entry_key()));
                    } else if a == i {
                        assert(key_less(old_seq[a].entry_key(), old_seq[b].entry_key()));
                    } else {
                        assert(key_less(old_seq[a].entry_key(), old_seq[b].entry_key()));
                    }
                } else {
                    if b < i {
                        assert(key_less(old_seq[a].entry_key(), old_seq[b].entry_key()));
                    } else if a > i {
                        assert(key_less(old_seq[a - 1].entry_key(), old_seq[b - 1].entry_key()));
                    } else if a == i {
                        let ki = old_seq[i as int].entry_key();
                        lemma_key_order(ki, k, ki);
                        assert(key_less(k, ki));
                        if b - 1 > i {
                            assert(key_less(ki, old_seq[b - 1].entry_key()));
                            lemma_key_order(k, ki, old_seq[b - 1].entry_key());
                        }
                    } else {
                        assert(key_less(old_seq[a].entry_key(), k));
                    }
                }
            }
        }
        self.entries = v;
        proof {
            let m = old(self).map().insert(k, e);
            assert forall|key: (Seq<char>, u16)| #[trigger] self.map().contains_key(key) <==> m.contains_key(key) by {
                if self.map().contains_key(key) {
                    let j = choose|j: int| 0 <= j < self.seq().len() && #[trigger] self.seq()[j].entry_key() == key;
                    if key != k {
                        if found {
                            assert(old_seq[j].entry_key() == key);
                        } else if j < i {
                            assert(old_seq[j].entry_key() == key);
                        } else {
                            assert(old_seq[j - 1].entry_key() == key);
                        }
                    }
                }
                if m.contains_key(key) {
                    if key == k {
                        assert(self.seq()[i as int].entry_key() == key);
                    } else {
                        let j = choose|j: int| 0 <= j < old_seq.len() && #[trigger] old_seq[j].entry_key() == key;
                        if found || j < i {
                            assert(j != i || !found);
                            assert(self.seq()[j].entry_key() == key);
                        } else {
                            assert(self.seq()[j + 1].entry_key() == key);
                        }
                    }
                }
            }
            assert forall|key: (Seq<char>, u16)| #[trigger] self.map().contains_key(key) implies self.map()[key] == m[key] by {
                let j = choose|j: int| 0 <= j < self.seq().len() && #[trigger] self.seq()[j].entry_key() == key;
                lemma_entries_map_at(self.seq(), j);
                if key == k {
                    lemma_entries_map_at(self.seq(), i as int);
                } else {
                    let oj = if found || j < i { j } else { j - 1 };
                    assert(old_seq[oj].entry_key() == key);
                    assert(old_seq[oj] == self.seq()[j]);
                    lemma_entries_map_at(old_seq, oj);
                }
            }
            assert(self.map() =~= m);
        }
    }

    /// Removes the entry stored under `(text, num)` and returns it, if any.
    pub fn remove_key(&mut self, text: &[char], num: u16) -> (r: Option<E>)
        ensures
            final(self).map() == old(self).map().remove((text@, num)),
            match r {
                Some(e) => old(self).map().contains_key((text@, num)) && e == old(self).map()[(text@, num)],
                None => !old(self).map().contains_key((text@, num)),
            },
    {
        proof {
            use_type_invariant(&*self);
        }
        let (i, found) = self.position(text, num);
        if !found {
            proof {
                self.lemma_absent(text@, num, i as int);
                assert(self.map() =~= self.map().remove((text@, num)));
            }
            return None;
        }
        let ghost old_seq = self.entries@;
        let ghost k = (text@, num);
        proof {
            lemma_entries_map_at(old_seq, i as int);
        }
        let mut v: Vec<E> = Vec::new();
        std::mem::swap(&mut v, &mut self.entries);
        let e = v.remove(i);
        proof {
            assert forall|a: int, b: int| 0 <= a < b < v@.len() implies key_less(
                #[trigger] v@[a].entry_key(),
                #[trigger] v@[b].entry_key(),
            ) by {
                let oa = if a < i { a } else { a + 1 };
                let ob = if b < i { b } else { b + 1 };
                assert(key_less(old_seq[oa].entry_key(), old_seq[ob].entry_key()));
            }
        }
        self.entries = v;
        proof {
            let m = old(self).map().remove(k);
            assert forall|key: (Seq<char>, u16)| #[trigger] self.map().contains_key(key) <==> m.contains_key(key) by {
                if self.map().contains_key(key) {
                    let j = choose|j: int| 0 <= j < self.seq().len() && #[trigger] self.seq()[j].entry_key() == key;
                    let oj = if j < i { j } else { j + 1 };
                    assert(old_seq[oj].entry_key() == key);
                    if key == k {
                        lemma_key_order(k, k, k);
                        if oj < i {
                            assert(key_less(old_seq[oj].entry_key(), old_seq[i as int].entry_key()));
                        } else {
                            assert(key_less(old_seq[i as int].entry_key(), old_seq[oj].entry_key()));
                        }
                    }
                }
                if m.contains_key(key) {
                    let j = choose|j: int| 0 <= j < old_seq.len() && #[trigger] old_seq[j].entry_key() == key;
                    assert(j != i);
                    if j < i {
                        assert(self.seq()[j].entry_key() == key);
                    } else {
                        assert(self.seq()[j - 1].entry_key() == key);
                    }
                }
            }
            assert forall|key: (Seq<char>, u16)| #[trigger] self.map().contains_key(key) implies self.map()[key] == m[key] by {
                let j = choose|j: int| 0 <= j < self.seq().len() && #[trigger] self.seq()[j].entry_key() == key;
                lemma_entries_map_at(self.seq(), j);
                let oj = if j < i { j } else { j + 1 };
                assert(old_seq[oj] == self.seq()[j]);
                lemma_entries_map_at(old_seq, oj);
            }
            assert(self.map() =~= m);
        }
        Some(e)
    }
}

} // verus!
