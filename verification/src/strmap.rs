//! A map keyed by text that keeps its keys in dictionary order.

use crate::text::{comes_before, same};
use vstd::prelude::*;

verus! {

/// Whether the keys of `s` stand in strictly ascending order.
pub open spec fn ascending<V>(s: Seq<(String, V)>) -> bool {
    forall|i: int, j: int|
        0 <= i < j < s.len() ==> crate::text::precedes(#[trigger] s[i].0@, #[trigger] s[j].0@)
}

/// The map that a list of keys and values stands for.
pub open spec fn map_of<V>(s: Seq<(String, V)>) -> Map<Seq<char>, V> {
    Map::new(
        |k: Seq<char>| exists|i: int| 0 <= i < s.len() && #[trigger] s[i].0@ == k,
        |k: Seq<char>| s[choose|i: int| 0 <= i < s.len() && #[trigger] s[i].0@ == k].1,
    )
}

/// Each entry of an ascending list is in its map.
pub proof fn lemma_entry<V>(s: Seq<(String, V)>, i: int)
    requires
        ascending(s),
        0 <= i < s.len(),
    ensures
        map_of(s).contains_key(s[i].0@),
        map_of(s)[s[i].0@] == s[i].1,
{
    let k = s[i].0@;
    let j = choose|j: int| 0 <= j < s.len() && #[trigger] s[j].0@ == k;
    assert(0 <= j < s.len() && s[j].0@ == k);
    crate::text::lemma_precedes_total(k, k);
    if i < j {
        assert(crate::text::precedes(s[i].0@, s[j].0@));
    } else if j < i {
        assert(crate::text::precedes(s[j].0@, s[i].0@));
    }
}

/// Every key of the map is that of some entry.
pub proof fn lemma_key<V>(s: Seq<(String, V)>, k: Seq<char>) -> (i: int)
    requires
        map_of(s).contains_key(k),
    ensures
        0 <= i < s.len(),
        s[i].0@ == k,
{
    choose|i: int| 0 <= i < s.len() && #[trigger] s[i].0@ == k
}

/// A new entry between smaller and greater keys extends the map by it.
proof fn lemma_insert<V>(s: Seq<(String, V)>, p: int, e: (String, V))
    requires
        ascending(s),
        0 <= p <= s.len(),
        forall|i: int| 0 <= i < p ==> crate::text::precedes(#[trigger] s[i].0@, e.0@),
        forall|i: int| p <= i < s.len() ==> crate::text::precedes(e.0@, #[trigger] s[i].0@),
    ensures
        ascending(s.insert(p, e)),
        map_of(s.insert(p, e)) == map_of(s).insert(e.0@, e.1),
{
    let t = s.insert(p, e);
    assert forall|i: int, j: int| 0 <= i < j < t.len() implies crate::text::precedes(
        #[trigger] t[i].0@,
        #[trigger] t[j].0@,
    ) by {
        let a = if i < p { s[i].0@ } else if i == p { e.0@ } else { s[i - 1].0@ };
        let b = if j < p { s[j].0@ } else if j == p { e.0@ } else { s[j - 1].0@ };
        assert(t[i].0@ == a);
        assert(t[j].0@ == b);
    }
    let m = map_of(s).insert(e.0@, e.1);
    assert forall|k: Seq<char>| #[trigger] map_of(t).contains_key(k) <==> m.contains_key(k) by {
        if map_of(t).contains_key(k) {
            let i = lemma_key(t, k);
            if i < p {
                lemma_entry(s, i);
            } else if i > p {
                lemma_entry(s, i - 1);
            }
        }
        if m.contains_key(k) {
            if k == e.0@ {
                assert(t[p].0@ == k);
            } else {
                let i = lemma_key(s, k);
                if i < p {
                    assert(t[i].0@ == k);
                } else {
                    assert(t[i + 1].0@ == k);
                }
            }
        }
    }
    assert forall|k: Seq<char>| map_of(t).contains_key(k) implies #[trigger] map_of(t)[k]
        == m[k] by {
        let i = lemma_key(t, k);
        lemma_entry(t, i);
        if i < p {
            lemma_entry(s, i);
            assert(crate::text::precedes(s[i].0@, e.0@));
            crate::text::lemma_precedes_total(e.0@, e.0@);
        } else if i > p {
            lemma_entry(s, i - 1);
            assert(crate::text::precedes(e.0@, s[i - 1].0@));
            crate::text::lemma_precedes_total(e.0@, e.0@);
        }
    }
    assert(map_of(t) =~= m);
}

/// Taking an entry out takes its key out of the map.
proof fn lemma_remove<V>(s: Seq<(String, V)>, p: int)
    requires
        ascending(s),
        0 <= p < s.len(),
    ensures
        ascending(s.remove(p)),
        map_of(s.remove(p)) == map_of(s).remove(s[p].0@),
{
    let t = s.remove(p);
    let key = s[p].0@;
    assert forall|i: int, j: int| 0 <= i < j < t.len() implies crate::text::precedes(
        #[trigger] t[i].0@,
        #[trigger] t[j].0@,
    ) by {
        let a = if i < p { i } else { i + 1 };
        let b = if j < p { j } else { j + 1 };
        assert(t[i].0@ == s[a].0@);
        assert(t[j].0@ == s[b].0@);
    }
    let m = map_of(s).remove(key);
    crate::text::lemma_precedes_total(key, key);
    assert forall|k: Seq<char>| #[trigger] map_of(t).contains_key(k) <==> m.contains_key(k) by {
        if map_of(t).contains_key(k) {
            let i = lemma_key(t, k);
            if i < p {
                lemma_entry(s, i);
                assert(crate::text::precedes(s[i].0@, s[p].0@));
            } else {
                lemma_entry(s, i + 1);
                assert(crate::text::precedes(s[p].0@, s[i + 1].0@));
            }
        }
        if m.contains_key(k) {
            let i = lemma_key(s, k);
            if i < p {
                assert(t[i].0@ == k);
            } else {
                assert(t[i - 1].0@ == k);
            }
        }
    }
    assert forall|k: Seq<char>| map_of(t).contains_key(k) implies #[trigger] map_of(t)[k]
        == m[k] by {
        let i = lemma_key(t, k);
        lemma_entry(t, i);
        if i < p {
            lemma_entry(s, i);
        } else {
            lemma_entry(s, i + 1);
        }
    }
    assert(map_of(t) =~= m);
}

/// A map from text to `V`, walked in dictionary order of its keys.
#[derive(Debug)]
pub struct StrMap<V> {
    entries: Vec<(String, V)>,
}

impl<V> View for StrMap<V> {
    type V = Map<Seq<char>, V>;

    closed spec fn view(&self) -> Map<Seq<char>, V> {
        map_of(self.entries@)
    }
}

impl<V> StrMap<V> {
    #[verifier::type_invariant]
    spec fn inv(self) -> bool {
        ascending(self.entries@)
    }

    /// The keys in the order in which they are walked.
    pub closed spec fn keys(&self) -> Seq<Seq<char>> {
        self.entries@.map_values(|e: (String, V)| e.0@)
    }

    /// The empty map.
    pub fn new() -> (r: Self)
        ensures
            r@ == Map::<Seq<char>, V>::empty(),
            r.keys() == Seq::<Seq<char>>::empty(),
    {
        let r = StrMap { entries: Vec::new() };
        assert(r@ =~= Map::empty());
        r
    }

    /// How many keys there are. They are walked in strictly ascending order.
    pub fn len(&self) -> (r: usize)
        ensures
            r == self.keys().len(),
            forall|i: int, j: int|
                0 <= i < j < self.keys().len() ==> crate::text::precedes(
                    #[trigger] self.keys()[i],
                    #[trigger] self.keys()[j],
                ),
            forall|k: Seq<char>|
                #![trigger self.keys().contains(k)]
                #![trigger self@.contains_key(k)]
                self.keys().contains(k) <==> self@.contains_key(k),
    {
        proof {
            use_type_invariant(self);
            let s = self.entries@;
            assert forall|k: Seq<char>|
                #![trigger self.keys().contains(k)]
                #![trigger self@.contains_key(k)]
                self.keys().contains(k) <==> self@.contains_key(k) by {
                if self.keys().contains(k) {
                    let i = choose|i: int| 0 <= i < self.keys().len() && self.keys()[i] == k;
                    lemma_entry(s, i);
                }
                if self@.contains_key(k) {
                    let i = lemma_key(s, k);
                    assert(self.keys()[i] == k);
                }
            }
        }
        self.entries.len()
    }

    /// The key at place `i` of the walk.
    pub fn key_at(&self, i: usize) -> (r: &String)
        requires
            i < self.keys().len(),
        ensures
            r@ == self.keys()[i as int],
            self@.contains_key(r@),
    {
        proof {
            use_type_invariant(self);
            lemma_entry(self.entries@, i as int);
        }
        &self.entries[i].0
    }

    /// The value at place `i` of the walk.
    pub fn value_at(&self, i: usize) -> (r: &V)
        requires
            i < self.keys().len(),
        ensures
            self@.contains_key(self.keys()[i as int]),
            *r == self@[self.keys()[i as int]],
    {
        proof {
            use_type_invariant(self);
            lemma_entry(self.entries@, i as int);
        }
        &self.entries[i].1
    }

    /// Where `key` stands in the walk.
    pub fn position(&self, key: &str) -> (r: Option<usize>)
        ensures
            match r {
                Some(i) => i < self.keys().len() && self.keys()[i as int] == key@,
                None => !self@.contains_key(key@),
            },
    {
        let mut i: usize = 0;
        while i < self.entries.len()
            invariant
                i <= self.entries@.len(),
                forall|j: int| 0 <= j < i ==> #[trigger] self.entries@[j].0@ != key@,
            decreases self.entries@.len() - i,
        {
            if same(self.entries[i].0.as_str(), key) {
                return Some(i);
            }
            i += 1;
        }
        proof {
            if self@.contains_key(key@) {
                let j = lemma_key(self.entries@, key@);
                assert(self.entries@[j].0@ != key@);
            }
        }
        None
    }

    /// Whether there is a value for `key`.
    pub fn contains(&self, key: &str) -> (r: bool)
        ensures
            r == self@.contains_key(key@),
    {
        match self.position(key) {
            Some(i) => {
                proof {
                    use_type_invariant(self);
                    lemma_entry(self.entries@, i as int);
                }
                true
            },
            None => false,
        }
    }

    /// The value for `key`.
    pub fn get(&self, key: &str) -> (r: Option<&V>)
        ensures
            match r {
                Some(v) => self@.contains_key(key@) && *v == self@[key@],
                None => !self@.contains_key(key@),
            },
    {
        match self.position(key) {
            Some(i) => Some(self.value_at(i)),
            None => None,
        }
    }

    /// Sets the value for `key`; returns the value that it replaces.
    pub fn insert(&mut self, key: String, value: V) -> (r: Option<V>)
        ensures
            final(self)@ == old(self)@.insert(key@, value),
            match r {
                Some(v) => old(self)@.contains_key(key@) && v == old(self)@[key@],
                None => !old(self)@.contains_key(key@),
            },
    {
        proof {
            use_type_invariant(&*self);
        }
        let ghost before = self.entries@;
        let found = self.position(key.as_str());
        let mut entries: Vec<(String, V)> = Vec::new();
        std::mem::swap(&mut entries, &mut self.entries);
        let replaced = match found {
            Some(i) => {
                proof {
                    lemma_entry(before, i as int);
                    lemma_remove(before, i as int);
                }
                let (_, v) = entries.remove(i);
                Some(v)
            },
            None => None,
        };
        let ghost rest = entries@;
        assert(ascending(rest));
        assert(map_of(rest) == map_of(before).remove(key@)) by {
            if found is None {
                assert(map_of(before).remove(key@) =~= map_of(before));
            }
        }
        let mut p: usize = 0;
        while p < entries.len() && comes_before(entries[p].0.as_str(), key.as_str())
            invariant
                entries@ == rest,
                p <= rest.len(),
                forall|j: int|
                    0 <= j < p ==> crate::text::precedes(#[trigger] rest[j].0@, key@),
            decreases rest.len() - p,
        {
            p += 1;
        }
        proof {
            assert forall|j: int| p <= j < rest.len() implies crate::text::precedes(
                key@,
                #[trigger] rest[j].0@,
            ) by {
                lemma_entry(rest, p as int);
                assert(rest[p as int].0@ != key@);
                crate::text::lemma_precedes_total(key@, rest[p as int].0@);
                if j > p {
                    assert(crate::text::precedes(rest[p as int].0@, rest[j].0@));
                    crate::text::lemma_precedes_trans(key@, rest[p as int].0@, rest[j].0@);
                }
            }
            lemma_insert(rest, p as int, (key, value));
            assert(map_of(before).remove(key@).insert(key@, value) =~= map_of(before).insert(
                key@,
                value,
            ));
        }
        entries.insert(p, (key, value));
        self.entries = entries;
        replaced
    }

    /// Takes `key` out; returns the value that it had.
    pub fn remove(&mut self, key: &str) -> (r: Option<V>)
        ensures
            final(self)@ == old(self)@.remove(key@),
            match r {
                Some(v) => old(self)@.contains_key(key@) && v == old(self)@[key@],
                None => !old(self)@.contains_key(key@),
            },
    {
        proof {
            use_type_invariant(&*self);
        }
        match self.position(key) {
            Some(i) => {
                proof {
                    lemma_entry(self.entries@, i as int);
                    lemma_remove(self.entries@, i as int);
                }
                let mut entries: Vec<(String, V)> = Vec::new();
                std::mem::swap(&mut entries, &mut self.entries);
                let (_, v) = entries.remove(i);
                self.entries = entries;
                Some(v)
            },
            None => {
                assert(self@.remove(key@) =~= self@);
                None
            },
        }
    }
}

/// The map from text to text that a map of strings stands for.
pub open spec fn texts(m: Map<Seq<char>, String>) -> Map<Seq<char>, Seq<char>> {
    m.map_values(|s: String| s@)
}

impl Clone for StrMap<String> {
    /// A second map with the same content.
    fn clone(&self) -> (r: Self)
        ensures
            r@ == self@,
            texts(r@) == texts(self@),
    {
        proof {
            use_type_invariant(self);
        }
        let mut entries: Vec<(String, String)> = Vec::new();
        let mut i: usize = 0;
        while i < self.entries.len()
            invariant
                ascending(self.entries@),
                i <= self.entries@.len(),
                entries@ == self.entries@.take(i as int),
            decreases self.entries@.len() - i,
        {
            entries.push((self.entries[i].0.clone(), self.entries[i].1.clone()));
            i += 1;
        }
        assert(entries@ == self.entries@);
        StrMap { entries }
    }
}

impl StrMap<String> {
    /// Whether two maps hold the same texts under the same keys.
    pub fn equals(&self, other: &Self) -> (r: bool)
        ensures
            r == (texts(self@) == texts(other@)),
    {
        let mine = self.len();
        let theirs = other.len();
        let mut i: usize = 0;
        while i < mine
            invariant
                mine == self.keys().len(),
                i <= self.keys().len(),
                forall|j: int|
                    0 <= j < i ==> other@.contains_key(#[trigger] self.keys()[j])
                        && other@[self.keys()[j]]@ == self@[self.keys()[j]]@,
            decreases self.keys().len() - i,
        {
            let k = self.key_at(i);
            match other.get(k.as_str()) {
                Some(v) => {
                    if !same(v.as_str(), self.value_at(i).as_str()) {
                        assert(texts(self@)[k@] != texts(other@)[k@]);
                        return false;
                    }
                },
                None => {
                    assert(texts(self@).contains_key(k@));
                    assert(!texts(other@).contains_key(k@));
                    return false;
                },
            }
            i += 1;
        }
        let mut i: usize = 0;
        while i < theirs
            invariant
                theirs == other.keys().len(),
                i <= other.keys().len(),
                forall|j: int| 0 <= j < i ==> self@.contains_key(#[trigger] other.keys()[j]),
            decreases other.keys().len() - i,
        {
            let k = other.key_at(i);
            if !self.contains(k.as_str()) {
                assert(texts(other@).contains_key(k@));
                assert(!texts(self@).contains_key(k@));
                return false;
            }
            i += 1;
        }
        assert(texts(self@) =~= texts(other@)) by {
            assert forall|k: Seq<char>| #[trigger]
                texts(self@).contains_key(k) <==> texts(other@).contains_key(k) by {
                if self@.contains_key(k) {
                    assert(self.keys().contains(k));
                    let j = choose|j: int| 0 <= j < self.keys().len() && self.keys()[j] == k;
                    assert(other@.contains_key(self.keys()[j]));
                }
                if other@.contains_key(k) {
                    assert(other.keys().contains(k));
                    let j = choose|j: int| 0 <= j < other.keys().len() && other.keys()[j] == k;
                    assert(self@.contains_key(other.keys()[j]));
                }
            }
            assert forall|k: Seq<char>| texts(self@).contains_key(k) implies #[trigger] texts(
                self@,
            )[k] == texts(other@)[k] by {
                assert(self.keys().contains(k));
                let j = choose|j: int| 0 <= j < self.keys().len() && self.keys()[j] == k;
                assert(other@.contains_key(self.keys()[j]));
            }
        }
        true
    }
}

// ── Laws ────────────────────────────────────────────────────────────────────

/// A map of strings stands for the texts of its strings, under the same keys.
pub proof fn law_texts_are_by_key(m: Map<Seq<char>, String>, k: Seq<char>)
    ensures
        texts(m).contains_key(k) == m.contains_key(k),
        m.contains_key(k) ==> texts(m)[k] == m[k]@,
{
}

/// Where no key occurs twice, a list of keys and values stands for the map that
/// holds each value under its key, and nothing else.
pub proof fn law_map_holds_its_entries<V>(s: Seq<(String, V)>, k: Seq<char>)
    requires
        forall|i: int, j: int| 0 <= i < j < s.len() ==> #[trigger] s[i].0@ != #[trigger] s[j].0@,
    ensures
        map_of(s).contains_key(k) <==> exists|i: int| 0 <= i < s.len() && #[trigger] s[i].0@ == k,
        forall|i: int| 0 <= i < s.len() ==> map_of(s)[#[trigger] s[i].0@] == s[i].1,
{
    assert forall|i: int| 0 <= i < s.len() implies map_of(s)[#[trigger] s[i].0@] == s[i].1 by {
        let key = s[i].0@;
        let j = choose|j: int| 0 <= j < s.len() && #[trigger] s[j].0@ == key;
        assert(0 <= j < s.len() && s[j].0@ == key);
    }
}

/// What is put under a key is found under it, and what is under other keys
/// stays; taking a key out takes out nothing else.
pub proof fn law_keys_are_independent<V>(
    m: &mut StrMap<V>,
    key: String,
    value: V,
    r: Option<V>,
    n: &mut StrMap<V>,
    gone: &str,
    q: Option<V>,
    other: Seq<char>,
)
    requires
        call_ensures(StrMap::<V>::insert, (m, key, value), r),
        call_ensures(StrMap::<V>::remove, (n, gone), q),
    ensures
        final(m)@.contains_key(key@) && final(m)@[key@] == value,
        (r is Some) == old(m)@.contains_key(key@),
        r matches Some(v) ==> v == old(m)@[key@],
        other != key@ ==> {
            &&& final(m)@.contains_key(other) == old(m)@.contains_key(other)
            &&& old(m)@.contains_key(other) ==> final(m)@[other] == old(m)@[other]
        },
        !final(n)@.contains_key(gone@),
        (q is Some) == old(n)@.contains_key(gone@),
        q matches Some(v) ==> v == old(n)@[gone@],
        other != gone@ ==> {
            &&& final(n)@.contains_key(other) == old(n)@.contains_key(other)
            &&& old(n)@.contains_key(other) ==> final(n)@[other] == old(n)@[other]
        },
{
}

/// A map gives what is under a key, where something is, and two maps of strings
/// are equal only where the same keys hold the same texts in both.
pub proof fn law_maps_give_what_they_hold<V>(
    fresh: StrMap<V>,
    m: &StrMap<V>,
    key: &str,
    got: Option<&V>,
    there: bool,
    at: Option<usize>,
    a: &StrMap<String>,
    b: &StrMap<String>,
    same: bool,
    k: Seq<char>,
)
    requires
        call_ensures(StrMap::<V>::new, (), fresh),
        call_ensures(StrMap::<V>::get, (m, key), got),
        call_ensures(StrMap::<V>::contains, (m, key), there),
        call_ensures(StrMap::<V>::position, (m, key), at),
        call_ensures(StrMap::<String>::equals, (a, b), same),
    ensures
        !fresh@.contains_key(k),
        got is Some <==> m@.contains_key(key@),
        got matches Some(v) ==> *v == m@[key@],
        there <==> m@.contains_key(key@),
        at matches Some(i) ==> i < m.keys().len() && m.keys()[i as int] == key@,
        at is None ==> !m@.contains_key(key@),
        same ==> a@.contains_key(k) == b@.contains_key(k) && (a@.contains_key(k) ==> a@[k]@
            == b@[k]@),
        !same ==> exists|x: Seq<char>|
            #![trigger a@.contains_key(x)]
            #![trigger b@.contains_key(x)]
            a@.contains_key(x) != b@.contains_key(x) || (a@.contains_key(x) && a@[x]@ != b@[x]@),
{
    let x = texts(a@);
    let y = texts(b@);
    if same {
        assert(x.contains_key(k) == y.contains_key(k));
        assert(x.contains_key(k) ==> x[k] == y[k]);
    } else if forall|x: Seq<char>|
        #![trigger a@.contains_key(x)]
        #![trigger b@.contains_key(x)]
        a@.contains_key(x) == b@.contains_key(x) && (a@.contains_key(x) ==> a@[x]@ == b@[x]@) {
        assert(x =~= y);
    }
}

/// The keys of a map are walked in dictionary order, each once, with the values
/// that are under them.
pub proof fn law_maps_are_walked_in_order<V>(
    m: &StrMap<V>,
    n: usize,
    i: usize,
    key: &String,
    value: &V,
    k: Seq<char>,
    a: int,
    b: int,
)
    requires
        call_ensures(StrMap::<V>::len, (m,), n),
        i < m.keys().len(),
        call_ensures(StrMap::<V>::key_at, (m, i), key),
        call_ensures(StrMap::<V>::value_at, (m, i), value),
    ensures
        n == m.keys().len(),
        m.keys().contains(k) <==> m@.contains_key(k),
        0 <= a < b < n ==> crate::text::precedes(m.keys()[a], m.keys()[b]),
        key@ == m.keys()[i as int],
        m@.contains_key(key@) && *value == m@[key@],
{
    let args = (m,);
    assert(args.0.keys().contains(k) <==> args.0@.contains_key(k));
    if 0 <= a < b < n {
        assert(crate::text::precedes(args.0.keys()[a], args.0.keys()[b]));
    }
}

/// A copy of a map holds the same texts under the same keys.
pub proof fn law_copies_of_maps_hold_the_same(m: &StrMap<String>, r: StrMap<String>, k: Seq<char>)
    requires
        call_ensures(StrMap::<String>::clone, (m,), r),
    ensures
        r@.contains_key(k) == m@.contains_key(k),
        m@.contains_key(k) ==> r@[k]@ == m@[k]@,
{
}

} // verus!
