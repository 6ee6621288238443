//! The sync offset of each track, in milliseconds, keyed by the id of the track.
use vstd::prelude::*;

verus! {

/// No two entries have the same key.
pub open spec fn distinct_keys(s: Seq<(String, i64)>) -> bool {
    forall|i: int, j: int|
        0 <= i < s.len() && 0 <= j < s.len() && i != j ==> s[i].0@ != s[j].0@
}

/// Some entry of `s` has the key `k`.
pub open spec fn has_key(s: Seq<(String, i64)>, k: Seq<char>) -> bool {
    exists|i: int| 0 <= i < s.len() && s[i].0@ == k
}

/// The map that the entries `s` stand for.
pub open spec fn map_of(s: Seq<(String, i64)>) -> Map<Seq<char>, i64> {
    Map::new(
        |k: Seq<char>| has_key(s, k),
        |k: Seq<char>| s[choose|i: int| 0 <= i < s.len() && s[i].0@ == k].1,
    )
}

/// Offsets in milliseconds, one per track id; a map from text to `i64`.
pub struct Offsets {
    entries: Vec<(String, i64)>,
}

impl View for Offsets {
    type V = Map<Seq<char>, i64>;

    closed spec fn view(&self) -> Map<Seq<char>, i64> {
        map_of(self.entries@)
    }
}

proof fn lemma_map_of_at(s: Seq<(String, i64)>, i: int)
    requires
        distinct_keys(s),
        0 <= i < s.len(),
    ensures
        map_of(s).dom().contains(s[i].0@),
        map_of(s)[s[i].0@] == s[i].1,
{
    let k = s[i].0@;
    assert(has_key(s, k));
    let j = choose|j: int| 0 <= j < s.len() && s[j].0@ == k;
    assert(j == i);
}

proof fn lemma_map_of_push(s: Seq<(String, i64)>, e: (String, i64))
    requires
        distinct_keys(s),
        !has_key(s, e.0@),
    ensures
        distinct_keys(s.push(e)),
        map_of(s.push(e)) == map_of(s).insert(e.0@, e.1),
{
    let t = s.push(e);
    assert forall|i: int, j: int| 0 <= i < t.len() && 0 <= j < t.len() && i != j implies t[i].0@
        != t[j].0@ by {
        if i == s.len() as int {
            assert(t[j] == s[j]);
        } else if j == s.len() as int {
            assert(t[i] == s[i]);
        }
    }
    assert forall|k: Seq<char>| #[trigger] has_key(t, k) == (has_key(s, k) || k == e.0@) by {
        if has_key(t, k) {
            let i = choose|i: int| 0 <= i < t.len() && t[i].0@ == k;
            if i < s.len() {
                assert(s[i] == t[i]);
            }
        }
        if has_key(s, k) {
            let i = choose|i: int| 0 <= i < s.len() && s[i].0@ == k;
            assert(t[i] == s[i]);
        }
        if k == e.0@ {
            assert(t[s.len() as int] == e);
        }
    }
    assert forall|k: Seq<char>| #[trigger] map_of(t).dom().contains(k) implies map_of(t)[k] == map_of(
        s,
    ).insert(e.0@, e.1)[k] by {
        let i = choose|i: int| 0 <= i < t.len() && t[i].0@ == k;
        lemma_map_of_at(t, i);
        if i < s.len() {
            assert(t[i] == s[i]);
            lemma_map_of_at(s, i);
        }
    }
    assert(map_of(t) =~= map_of(s).insert(e.0@, e.1));
}

proof fn lemma_map_of_set(s: Seq<(String, i64)>, i: int, v: i64)
    requires
        distinct_keys(s),
        0 <= i < s.len(),
    ensures
        distinct_keys(s.update(i, (s[i].0, v))),
        map_of(s.update(i, (s[i].0, v))) == map_of(s).insert(s[i].0@, v),
{
    let t = s.update(i, (s[i].0, v));
    assert forall|a: int, b: int| 0 <= a < t.len() && 0 <= b < t.len() && a != b implies t[a].0@
        != t[b].0@ by {
        assert(t[a].0 == s[a].0);
        assert(t[b].0 == s[b].0);
    }
    assert forall|k: Seq<char>| #[trigger] has_key(t, k) == has_key(s, k) by {
        if has_key(t, k) {
            let j = choose|j: int| 0 <= j < t.len() && t[j].0@ == k;
            assert(s[j].0 == t[j].0);
        }
        if has_key(s, k) {
            let j = choose|j: int| 0 <= j < s.len() && s[j].0@ == k;
            assert(s[j].0 == t[j].0);
        }
    }
    lemma_map_of_at(s, i);
    assert forall|k: Seq<char>| #[trigger] map_of(t).dom().contains(k) implies map_of(t)[k] == map_of(
        s,
    ).insert(s[i].0@, v)[k] by {
        let j = choose|j: int| 0 <= j < t.len() && t[j].0@ == k;
        lemma_map_of_at(t, j);
        if j != i {
            assert(t[j] == s[j]);
            lemma_map_of_at(s, j);
        }
    }
    assert(map_of(t) =~= map_of(s).insert(s[i].0@, v));
}

proof fn lemma_map_of_remove(s: Seq<(String, i64)>, i: int)
    requires
        distinct_keys(s),
        0 <= i < s.len(),
    ensures
        distinct_keys(s.remove(i)),
        map_of(s.remove(i)) == map_of(s).remove(s[i].0@),
{
    let t = s.remove(i);
    let key = s[i].0@;
    assert forall|a: int, b: int| 0 <= a < t.len() && 0 <= b < t.len() && a != b implies t[a].0@
        != t[b].0@ by {
        let a2 = if a < i { a } else { a + 1 };
        let b2 = if b < i { b } else { b + 1 };
        assert(t[a] == s[a2]);
        assert(t[b] == s[b2]);
    }
    assert forall|k: Seq<char>| #[trigger] has_key(t, k) == (has_key(s, k) && k != key) by {
        if has_key(t, k) {
            let j = choose|j: int| 0 <= j < t.len() && t[j].0@ == k;
            let j2 = if j < i { j } else { j + 1 };
            assert(t[j] == s[j2]);
        }
        if has_key(s, k) && k != key {
            let j = choose|j: int| 0 <= j < s.len() && s[j].0@ == k;
            if j < i {
                assert(t[j] == s[j]);
            } else {
                assert(j != i);
                assert(t[j - 1] == s[j]);
            }
        }
    }
    assert forall|k: Seq<char>| #[trigger] map_of(t).dom().contains(k) implies map_of(t)[k] == map_of(
        s,
    ).remove(key)[k] by {
        let j = choose|j: int| 0 <= j < t.len() && t[j].0@ == k;
        lemma_map_of_at(t, j);
        let j2 = if j < i { j } else { j + 1 };
        assert(t[j] == s[j2]);
        lemma_map_of_at(s, j2);
    }
    assert(map_of(t) =~= map_of(s).remove(key));
}

impl Offsets {
    #[verifier::type_invariant]
    spec fn keys_distinct(self) -> bool {
        distinct_keys(self.entries@)
    }

    /// No offsets.
    pub fn new() -> (r: Offsets)
        ensures
            r@ == Map::<Seq<char>, i64>::empty(),
    {
        let r = Offsets { entries: Vec::new() };
        assert(map_of(r.entries@) =~= Map::<Seq<char>, i64>::empty());
        r
    }

    fn find(&self, id: &String) -> (r: Option<usize>)
        ensures
            match r {
                Some(i) => i < self.entries@.len() && self.entries@[i as int].0@ == id@,
                None => !has_key(self.entries@, id@),
            },
    {
        let mut i: usize = 0;
        while i < self.entries.len()
            invariant
                i <= self.entries@.len(),
                forall|j: int| 0 <= j < i ==> self.entries@[j].0@ != id@,
            decreases self.entries@.len() - i,
        {
            if self.entries[i].0 == *id {
                return Some(i);
            }
            i = i + 1;
        }
        None
    }

    /// The offset of `id`, if it has one.
    pub fn get(&self, id: &String) -> (r: Option<&i64>)
        ensures
            match r {
                Some(v) => self@.contains_key(id@) && *v == self@[id@],
                None => !self@.contains_key(id@),
            },
    {
        proof {
            use_type_invariant(self);
        }
        match self.find(id) {
            Some(i) => {
                proof {
                    lemma_map_of_at(self.entries@, i as int);
                }
                Some(&self.entries[i].1)
            },
            None => None,
        }
    }

    /// Sets the offset of `id`.
    pub fn insert(&mut self, id: String, v: i64)
        ensures
            final(self)@ == old(self)@.insert(id@, v),
    {
        proof {
            use_type_invariant(&*self);
        }
        match self.find(&id) {
            Some(i) => {
                let ghost s = self.entries@;
                let k = self.entries[i].0.clone();
                proof {
                    lemma_map_of_set(s, i as int, v);
                }
                let mut es: Vec<(String, i64)> = Vec::new();
                std::mem::swap(&mut es, &mut self.entries);
                es.set(i, (k, v));
                assert(es@ =~= s.update(i as int, (s[i as int].0, v)));
                self.entries = es;
            },
            None => {
                let ghost s = self.entries@;
                let ghost e = (id, v);
                proof {
                    lemma_map_of_push(s, e);
                }
                let mut es: Vec<(String, i64)> = Vec::new();
                std::mem::swap(&mut es, &mut self.entries);
                es.push((id, v));
                self.entries = es;
            },
        }
    }

    /// Removes the offset of `id`.
    pub fn remove(&mut self, id: &String)
        ensures
            final(self)@ == old(self)@.remove(id@),
    {
        proof {
            use_type_invariant(&*self);
        }
        match self.find(id) {
            Some(i) => {
                let ghost s = self.entries@;
                proof {
                    lemma_map_of_remove(s, i as int);
                }
                let mut es: Vec<(String, i64)> = Vec::new();
                std::mem::swap(&mut es, &mut self.entries);
                es.remove(i);
                self.entries = es;
            },
            None => {
                assert(map_of(self.entries@) =~= map_of(self.entries@).remove(id@));
            },
        }
    }

    /// No track has an offset.
    pub fn is_empty(&self) -> (r: bool)
        ensures
            r == (self@ == Map::<Seq<char>, i64>::empty()),
    {
        proof {
            use_type_invariant(self);
        }
        if self.entries.len() == 0 {
            assert(map_of(self.entries@) =~= Map::<Seq<char>, i64>::empty());
            true
        } else {
            proof {
                lemma_map_of_at(self.entries@, 0);
                assert(self@.contains_key(self.entries@[0].0@));
            }
            false
        }
    }

    /// The offsets from `(id, offset)` pairs; a later pair for the same id wins.
    pub fn from_pairs(pairs: Vec<(String, i64)>) -> (r: Offsets)
        ensures
            r@ == pairs_map(pairs@),
    {
        let mut r = Offsets::new();
        let ghost all = pairs@;
        assert(all.take(0) =~= Seq::<(String, i64)>::empty());
        let n = pairs.len();
        let mut i: usize = 0;
        while i < n
            invariant
                i <= n == all.len(),
                pairs@ == all,
                r@ == pairs_map(all.take(i as int)),
            decreases n - i,
        {
            let ghost before = all.take(i as int);
            r.insert(pairs[i].0.clone(), pairs[i].1);
            assert(all.take(i + 1) =~= before.push(all[i as int]));
            assert(all.take(i + 1).drop_last() =~= before);
            i = i + 1;
        }
        assert(all.take(n as int) =~= all);
        r
    }

    /// The `(id, offset)` pairs, one per id.
    pub fn to_pairs(&self) -> (r: Vec<(String, i64)>)
        ensures
            pairs_map(r@) == self@,
            distinct_keys(r@),
    {
        proof {
            use_type_invariant(self);
        }
        let mut out: Vec<(String, i64)> = Vec::new();
        let mut i: usize = 0;
        while i < self.entries.len()
            invariant
                i <= self.entries@.len(),
                distinct_keys(self.entries@),
                out@.len() == i,
                forall|j: int| 0 <= j < i ==> #[trigger] out@[j].0@ == self.entries@[j].0@ && out@[j].1 == self.entries@[j].1,
            decreases self.entries@.len() - i,
        {
            let e = (self.entries[i].0.clone(), self.entries[i].1);
            out.push(e);
            i = i + 1;
        }
        proof {
            lemma_pairs_map_distinct(out@, self.entries@);
        }
        out
    }
}

/// The map that the pairs give when inserted in order, a later pair winning.
pub open spec fn pairs_map(s: Seq<(String, i64)>) -> Map<Seq<char>, i64>
    decreases s.len(),
{
    if s.len() == 0 {
        Map::empty()
    } else {
        pairs_map(s.drop_last()).insert(s.last().0@, s.last().1)
    }
}

proof fn lemma_pairs_map_is_map_of(s: Seq<(String, i64)>)
    requires
        distinct_keys(s),
    ensures
        pairs_map(s) == map_of(s),
    decreases s.len(),
{
    if s.len() == 0 {
        assert(map_of(s) =~= Map::<Seq<char>, i64>::empty());
    } else {
        let p = s.drop_last();
        assert(distinct_keys(p)) by {
            assert forall|i: int, j: int| 0 <= i < p.len() && 0 <= j < p.len() && i != j implies p[i].0@
                != p[j].0@ by {
                assert(p[i] == s[i]);
                assert(p[j] == s[j]);
            }
        }
        lemma_pairs_map_is_map_of(p);
        assert(!has_key(p, s.last().0@)) by {
            if has_key(p, s.last().0@) {
                let j = choose|j: int| 0 <= j < p.len() && p[j].0@ == s.last().0@;
                assert(p[j] == s[j]);
            }
        }
        lemma_map_of_push(p, s.last());
        assert(p.push(s.last()) =~= s);
    }
}

proof fn lemma_pairs_map_distinct(out: Seq<(String, i64)>, src: Seq<(String, i64)>)
    requires
        distinct_keys(src),
        out.len() == src.len(),
        forall|j: int| 0 <= j < out.len() ==> #[trigger] out[j].0@ == src[j].0@ && out[j].1 == src[j].1,
    ensures
        distinct_keys(out),
        pairs_map(out) == map_of(src),
{
    assert forall|i: int, j: int| 0 <= i < out.len() && 0 <= j < out.len() && i != j implies out[i].0@
        != out[j].0@ by {
        assert(out[i].0@ == src[i].0@);
        assert(out[j].0@ == src[j].0@);
    }
    lemma_pairs_map_is_map_of(out);
    assert forall|k: Seq<char>| #[trigger] has_key(out, k) == has_key(src, k) by {
        if has_key(out, k) {
            let j = choose|j: int| 0 <= j < out.len() && out[j].0@ == k;
            assert(out[j].0@ == src[j].0@);
        }
        if has_key(src, k) {
            let j = choose|j: int| 0 <= j < src.len() && src[j].0@ == k;
            assert(out[j].0@ == src[j].0@);
        }
    }
    assert forall|k: Seq<char>| #[trigger] map_of(out).dom().contains(k) implies map_of(out)[k] == map_of(src)[k] by {
        let j = choose|j: int| 0 <= j < out.len() && out[j].0@ == k;
        lemma_map_of_at(out, j);
        assert(out[j].0@ == src[j].0@);
        lemma_map_of_at(src, j);
    }
    assert(map_of(out) =~= map_of(src));
}

} // verus!
