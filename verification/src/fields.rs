//! A small ordered map from text keys to text values: the multipart form
//! fields of an upload, kept sorted by key as a `BTreeMap<String, String>`
//! iterates them.
use vstd::prelude::*;

use crate::text::{same_chars, string_of};

verus! {

/// Lexicographic order of character sequences by code point; for `String`
/// this is the order of `Ord`, since UTF-8 preserves code point order.
pub open spec fn text_lt(a: Seq<char>, b: Seq<char>) -> bool
    decreases a.len(),
{
    if b.len() == 0 {
        false
    } else if a.len() == 0 {
        true
    } else if a[0] != b[0] {
        (a[0] as u32) < (b[0] as u32)
    } else {
        text_lt(a.drop_first(), b.drop_first())
    }
}

pub proof fn lemma_text_lt_irreflexive(a: Seq<char>)
    ensures
        !text_lt(a, a),
    decreases a.len(),
{
    if a.len() > 0 {
        lemma_text_lt_irreflexive(a.drop_first());
    }
}

pub proof fn lemma_text_lt_transitive(a: Seq<char>, b: Seq<char>, c: Seq<char>)
    requires
        text_lt(a, b),
        text_lt(b, c),
    ensures
        text_lt(a, c),
    decreases a.len(),
{
    if a.len() > 0 && b.len() > 0 && c.len() > 0 && a[0] == b[0] && b[0] == c[0] {
        lemma_text_lt_transitive(a.drop_first(), b.drop_first(), c.drop_first());
    }
}

pub proof fn lemma_text_lt_total(a: Seq<char>, b: Seq<char>)
    requires
        a != b,
    ensures
        text_lt(a, b) || text_lt(b, a),
    decreases a.len(),
{
    if a.len() == 0 && b.len() == 0 {
        assert(a =~= b);
    } else if a.len() > 0 && b.len() > 0 && a[0] != b[0] {
        vstd::utf8::char_u32_cast(a[0], a[0] as u32);
        vstd::utf8::char_u32_cast(b[0], b[0] as u32);
    } else if a.len() > 0 && b.len() > 0 && a[0] == b[0] {
        if a.drop_first() == b.drop_first() {
            assert(a =~= seq![a[0]] + a.drop_first());
            assert(b =~= seq![b[0]] + b.drop_first());
        }
        lemma_text_lt_total(a.drop_first(), b.drop_first());
    }
}

/// Keys strictly ascending, hence distinct.
pub open spec fn keys_ascending(s: Seq<(Seq<char>, Seq<char>)>) -> bool {
    forall|i: int, j: int| 0 <= i < j < s.len() ==> text_lt(#[trigger] s[i].0, #[trigger] s[j].0)
}

/// The map that a list of key/value pairs describes (a later pair wins).
pub open spec fn pairs_map(s: Seq<(Seq<char>, Seq<char>)>) -> Map<Seq<char>, Seq<char>>
    decreases s.len(),
{
    if s.len() == 0 {
        Map::empty()
    } else {
        pairs_map(s.drop_last()).insert(s.last().0, s.last().1)
    }
}

pub open spec fn has_key(s: Seq<(Seq<char>, Seq<char>)>, k: Seq<char>) -> bool {
    exists|i: int| 0 <= i < s.len() && #[trigger] s[i].0 == k
}

proof fn lemma_pairs_map(s: Seq<(Seq<char>, Seq<char>)>)
    requires
        keys_ascending(s),
    ensures
        forall|k: Seq<char>| #[trigger] pairs_map(s).dom().contains(k) <==> has_key(s, k),
        forall|i: int| 0 <= i < s.len() ==> pairs_map(s)[#[trigger] s[i].0] == s[i].1,
    decreases s.len(),
{
    if s.len() > 0 {
        let t = s.drop_last();
        assert(keys_ascending(t)) by {
            assert forall|i: int, j: int| 0 <= i < j < t.len() implies text_lt(
                #[trigger] t[i].0,
                #[trigger] t[j].0,
            ) by {
                assert(t[i] == s[i] && t[j] == s[j]);
            }
        }
        lemma_pairs_map(t);
        assert forall|k: Seq<char>| #[trigger] pairs_map(s).dom().contains(k) <==> has_key(
            s,
            k,
        ) by {
            if has_key(s, k) {
                let i = choose|i: int| 0 <= i < s.len() && #[trigger] s[i].0 == k;
                if i < s.len() - 1 {
                    assert(t[i].0 == k);
                }
            }
            if pairs_map(t).dom().contains(k) {
                let i = choose|i: int| 0 <= i < t.len() && #[trigger] t[i].0 == k;
                assert(s[i].0 == k);
            }
        }
        assert forall|i: int| 0 <= i < s.len() implies pairs_map(s)[#[trigger] s[i].0]
            == s[i].1 by {
            if i < s.len() - 1 {
                assert(t[i] == s[i]);
                assert(text_lt(s[i].0, s[s.len() - 1].0));
                if s[i].0 == s.last().0 {
                    lemma_text_lt_irreflexive(s[i].0);
                }
            }
        }
    }
}

/// Form fields in ascending key order.
pub struct FieldMap {
    entries: Vec<(Vec<char>, Vec<char>)>,
}

pub open spec fn pair_view(e: (Vec<char>, Vec<char>)) -> (Seq<char>, Seq<char>) {
    (e.0@, e.1@)
}

pub open spec fn string_pairs(v: Seq<(String, String)>) -> Seq<(Seq<char>, Seq<char>)> {
    v.map_values(|e: (String, String)| (e.0@, e.1@))
}

impl FieldMap {
    /// The fields in their order.
    pub closed spec fn pairs(&self) -> Seq<(Seq<char>, Seq<char>)> {
        self.entries@.map_values(|e: (Vec<char>, Vec<char>)| pair_view(e))
    }

    pub open spec fn wf(&self) -> bool {
        keys_ascending(self.pairs())
    }

    /// The fields as a map.
    pub open spec fn fields(&self) -> Map<Seq<char>, Seq<char>> {
        pairs_map(self.pairs())
    }

    pub fn new() -> (m: FieldMap)
        ensures
            m.wf(),
            m.pairs().len() == 0,
            m.fields() == Map::<Seq<char>, Seq<char>>::empty(),
    {
        let m = FieldMap { entries: Vec::new() };
        proof {
            assert(m.pairs() =~= Seq::<(Seq<char>, Seq<char>)>::empty());
        }
        m
    }

    /// Sets `key` to `value`, replacing any value it had.
    pub fn set(&mut self, key: &[char], value: &[char])
        requires
            old(self).wf(),
        ensures
            final(self).wf(),
            final(self).fields() == old(self).fields().insert(key@, value@),
    {
        let ghost s = self.pairs();
        proof {
            lemma_pairs_map(s);
        }
        let mut i: usize = 0;
        while i < self.entries.len() && text_less(self.entries[i].0.as_slice(), key)
            invariant
                s == self.pairs(),
                keys_ascending(s),
                0 <= i <= s.len(),
                forall|j: int| 0 <= j < i ==> text_lt(#[trigger] s[j].0, key@),
            decreases s.len() - i,
        {
            proof {
                assert(s[i as int] == pair_view(self.entries@[i as int]));
            }
            i = i + 1;
        }
        let new_entry = (vstd::slice::slice_to_vec(key), vstd::slice::slice_to_vec(value));
        if i < self.entries.len() && same_chars(self.entries[i].0.as_slice(), key) {
            self.entries.set(i, new_entry);
            proof {
                let t = self.pairs();
                assert(s[i as int].0 == key@);
                assert(t =~= s.update(i as int, (key@, value@)));
                assert(keys_ascending(t)) by {
                    assert forall|a: int, b: int| 0 <= a < b < t.len() implies text_lt(
                        #[trigger] t[a].0,
                        #[trigger] t[b].0,
                    ) by {
                        assert(text_lt(s[a].0, s[b].0));
                    }
                }
                lemma_pairs_map(t);
                assert(pairs_map(t) =~= pairs_map(s).insert(key@, value@)) by {
                    assert forall|k: Seq<char>| #[trigger] pairs_map(t).dom().contains(k)
                        <==> pairs_map(s).insert(key@, value@).dom().contains(k) by {
                        if has_key(s, k) {
                            let j = choose|j: int| 0 <= j < s.len() && #[trigger] s[j].0 == k;
                            assert(t[j].0 == k);
                        }
                        if has_key(t, k) {
                            let j = choose|j: int| 0 <= j < t.len() && #[trigger] t[j].0 == k;
                            if j != i {
                                assert(s[j].0 == k);
                            }
                        }
                    }
                    assert forall|k: Seq<char>| #[trigger] pairs_map(t).dom().contains(k)
                        implies pairs_map(t)[k] == pairs_map(s).insert(key@, value@)[k] by {
                        let j = choose|j: int| 0 <= j < t.len() && #[trigger] t[j].0 == k;
                        assert(pairs_map(t)[t[j].0] == t[j].1);
                        if j != i {
                            assert(s[j] == t[j]);
                            assert(pairs_map(s)[s[j].0] == s[j].1);
                            if k == key@ {
                                if j < i {
                                    assert(text_lt(s[j].0, s[i as int].0));
                                } else {
                                    assert(text_lt(s[i as int].0, s[j].0));
                                }
                                lemma_text_lt_irreflexive(k);
                            }
                        }
                    }
                }
            }
        } else {
            proof {
                if i < s.len() {
                    assert(s[i as int] == pair_view(self.entries@[i as int]));
                    assert(!text_lt(s[i as int].0, key@));
                    assert(s[i as int].0 != key@);
                    lemma_text_lt_total(s[i as int].0, key@);
                    assert forall|j: int| i <= j < s.len() implies text_lt(
                        key@,
                        #[trigger] s[j].0,
                    ) by {
                        if j > i {
                            lemma_text_lt_transitive(key@, s[i as int].0, s[j].0);
                        }
                    }
                }
            }
            self.entries.insert(i, new_entry);
            proof {
                let t = self.pairs();
                assert(t =~= s.insert(i as int, (key@, value@)));
                assert(keys_ascending(t)) by {
                    assert forall|a: int, b: int| 0 <= a < b < t.len() implies text_lt(
                        #[trigger] t[a].0,
                        #[trigger] t[b].0,
                    ) by {
                        if b < i {
                            assert(text_lt(s[a].0, s[b].0));
                        } else if b == i {
                            assert(text_lt(s[a].0, key@));
                        } else if a == i {
                            assert(t[b] == s[b - 1]);
                        } else if a < i {
                            assert(t[b] == s[b - 1]);
                            assert(text_lt(s[a].0, key@));
                            assert(text_lt(key@, s[b - 1].0));
                            lemma_text_lt_transitive(s[a].0, key@, s[b - 1].0);
                        } else {
                            assert(text_lt(s[a - 1].0, s[b - 1].0));
                        }
                    }
                }
                lemma_pairs_map(t);
                assert(pairs_map(t) =~= pairs_map(s).insert(key@, value@)) by {
                    assert forall|k: Seq<char>| #[trigger] pairs_map(t).dom().contains(k)
                        <==> pairs_map(s).insert(key@, value@).dom().contains(k) by {
                        if has_key(s, k) {
                            let j = choose|j: int| 0 <= j < s.len() && #[trigger] s[j].0 == k;
                            if j < i {
                                assert(t[j].0 == k);
                            } else {
                                assert(t[j + 1].0 == k);
                            }
                        }
                        if k == key@ {
                            assert(t[i as int].0 == k);
                        }
                        if has_key(t, k) {
                            let j = choose|j: int| 0 <= j < t.len() && #[trigger] t[j].0 == k;
                            if j < i {
                                assert(s[j].0 == k);
                            } else if j > i {
                                assert(s[j - 1].0 == k);
                            }
                        }
                    }
                    assert forall|k: Seq<char>| #[trigger] pairs_map(t).dom().contains(k)
                        implies pairs_map(t)[k] == pairs_map(s).insert(key@, value@)[k] by {
                        let j = choose|j: int| 0 <= j < t.len() && #[trigger] t[j].0 == k;
                        assert(pairs_map(t)[t[j].0] == t[j].1);
                        if j < i {
                            assert(s[j] == t[j]);
                            assert(pairs_map(s)[s[j].0] == s[j].1);
                            if k == key@ {
                                lemma_text_lt_irreflexive(k);
                            }
                        } else if j > i {
                            assert(s[j - 1] == t[j]);
                            assert(pairs_map(s)[s[j - 1].0] == s[j - 1].1);
                            if k == key@ {
                                lemma_text_lt_irreflexive(k);
                            }
                        }
                    }
                }
            }
        }
    }

    /// Removes `key` if present.
    pub fn remove(&mut self, key: &[char])
        requires
            old(self).wf(),
        ensures
            final(self).wf(),
            final(self).fields() == old(self).fields().remove(key@),
    {
        let ghost s = self.pairs();
        proof {
            lemma_pairs_map(s);
        }
        let mut i: usize = 0;
        while i < self.entries.len()
            invariant
                s == self.pairs(),
                s == old(self).pairs(),
                keys_ascending(s),
                0 <= i <= s.len(),
                forall|j: int| 0 <= j < i ==> #[trigger] s[j].0 != key@,
            decreases s.len() - i,
        {
            proof {
                assert(s[i as int] == pair_view(self.entries@[i as int]));
            }
            if same_chars(self.entries[i].0.as_slice(), key) {
                self.entries.remove(i);
                proof {
                    lemma_pairs_map(s);
                    let t = self.pairs();
                    assert(t =~= s.remove(i as int));
                    assert(keys_ascending(t)) by {
                        assert forall|a: int, b: int| 0 <= a < b < t.len() implies text_lt(
                            #[trigger] t[a].0,
                            #[trigger] t[b].0,
                        ) by {
                            if b < i {
                                assert(text_lt(s[a].0, s[b].0));
                            } else if a < i {
                                assert(text_lt(s[a].0, s[b + 1].0));
                            } else {
                                assert(text_lt(s[a + 1].0, s[b + 1].0));
                            }
                        }
                    }
                    lemma_pairs_map(t);
                    assert(pairs_map(t) =~= pairs_map(s).remove(key@)) by {
                        assert forall|k: Seq<char>| #[trigger] pairs_map(t).dom().contains(k)
                            <==> pairs_map(s).remove(key@).dom().contains(k) by {
                            if has_key(s, k) && k != key@ {
                                let j = choose|j: int| 0 <= j < s.len() && #[trigger] s[j].0 == k;
                                if j < i {
                                    assert(t[j].0 == k);
                                } else {
                                    assert(j != i);
                                    assert(t[j - 1].0 == k);
                                }
                            }
                            if has_key(t, k) {
                                let j = choose|j: int| 0 <= j < t.len() && #[trigger] t[j].0 == k;
                                if j < i {
                                    assert(s[j].0 == k);
                                    assert(text_lt(s[j].0, s[i as int].0));
                                    if k == key@ {
                                        lemma_text_lt_irreflexive(k);
                                    }
                                } else {
                                    assert(s[j + 1].0 == k);
                                    assert(text_lt(s[i as int].0, s[j + 1].0));
                                    if k == key@ {
                                        lemma_text_lt_irreflexive(k);
                                    }
                                }
                            }
                        }
                        assert forall|k: Seq<char>| #[trigger] pairs_map(t).dom().contains(k)
                            implies pairs_map(t)[k] == pairs_map(s).remove(key@)[k] by {
                            let j = choose|j: int| 0 <= j < t.len() && #[trigger] t[j].0 == k;
                            assert(pairs_map(t)[t[j].0] == t[j].1);
                            if j < i {
                                assert(s[j] == t[j]);
                                assert(pairs_map(s)[s[j].0] == s[j].1);
                            } else {
                                assert(s[j + 1] == t[j]);
                                assert(pairs_map(s)[s[j + 1].0] == s[j + 1].1);
                            }
                        }
                    }
                }
                return;
            }
            i = i + 1;
        }
        proof {
            assert(!has_key(s, key@));
            assert(pairs_map(s) =~= pairs_map(s).remove(key@));
        }
    }

    /// The fields as owned strings, in ascending key order.
    pub fn into_pairs(self) -> (r: Vec<(String, String)>)
        ensures
            string_pairs(r@) == self.pairs(),
    {
        let ghost s = self.pairs();
        let mut r: Vec<(String, String)> = Vec::new();
        let mut i: usize = 0;
        while i < self.entries.len()
            invariant
                s == self.pairs(),
                0 <= i <= s.len(),
                string_pairs(r@) == s.take(i as int),
            decreases s.len() - i,
        {
            let k = string_of(self.entries[i].0.as_slice());
            let v = string_of(self.entries[i].1.as_slice());
            let ghost kv = (k@, v@);
            let ghost before = r@;
            r.push((k, v));
            proof {
                assert(s[i as int] == pair_view(self.entries@[i as int]));
                assert(s[i as int] == kv);
                assert(string_pairs(r@) =~= string_pairs(before).push(kv));
                assert(s.take(i as int + 1) =~= s.take(i as int).push(kv));
            }
            i = i + 1;
        }
        proof {
            assert(s.take(s.len() as int) =~= s);
        }
        r
    }
}

/// Whether `a` sorts before `b` (see [`text_lt`]).
pub fn text_less(a: &[char], b: &[char]) -> (r: bool)
    ensures
        r == text_lt(a@, b@),
{
    let mut i: usize = 0;
    proof {
        assert(a@.skip(0) =~= a@);
        assert(b@.skip(0) =~= b@);
    }
    while i < a.len() && i < b.len()
        invariant
            0 <= i <= a@.len(),
            i <= b@.len(),
            text_lt(a@, b@) == text_lt(a@.skip(i as int), b@.skip(i as int)),
        decreases a@.len() - i,
    {
        let x = a[i];
        let y = b[i];
        proof {
            assert(a@.skip(i as int)[0] == x);
            assert(b@.skip(i as int)[0] == y);
            assert(a@.skip(i as int).drop_first() =~= a@.skip(i as int + 1));
            assert(b@.skip(i as int).drop_first() =~= b@.skip(i as int + 1));
        }
        if x != y {
            return (x as u32) < (y as u32);
        }
        i = i + 1;
    }
    i < b.len()
}

} // verus!
