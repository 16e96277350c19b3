//! Text-keyed maps and sets that keep their keys in ascending code-point order,
//! so that walking them visits keys exactly as an ordered map of strings would.
use vstd::prelude::*;
use crate::text::{text_chars, text_eq};

verus! {

/// `a` and `b` agree before index `k`, and `k` is where `a` sorts first.
pub open spec fn first_difference(a: Seq<char>, b: Seq<char>, k: int) -> bool {
    &&& 0 <= k <= a.len()
    &&& k <= b.len()
    &&& forall|i: int| 0 <= i < k ==> a[i] == b[i]
    &&& ((k == a.len() && k < b.len()) || (k < a.len() && k < b.len() && a[k] < b[k]))
}

/// Lexicographic order on code points, which is the byte order of UTF-8 strings.
pub open spec fn text_lt(a: Seq<char>, b: Seq<char>) -> bool {
    exists|k: int| first_difference(a, b, k)
}

pub proof fn lemma_text_lt_irreflexive(a: Seq<char>)
    ensures
        !text_lt(a, a),
{
}

pub proof fn lemma_text_lt_transitive(a: Seq<char>, b: Seq<char>, c: Seq<char>)
    requires
        text_lt(a, b),
        text_lt(b, c),
    ensures
        text_lt(a, c),
{
    let k1 = choose|k: int| first_difference(a, b, k);
    let k2 = choose|k: int| first_difference(b, c, k);
    if k1 < k2 {
        assert(first_difference(a, c, k1));
    } else if k2 < k1 {
        assert(first_difference(a, c, k2));
    } else {
        assert(first_difference(a, c, k1));
    }
}

pub proof fn lemma_text_lt_total(a: Seq<char>, b: Seq<char>)
    ensures
        a == b || text_lt(a, b) || text_lt(b, a),
{
    if a != b {
        if a.len() <= b.len() && (forall|i: int| 0 <= i < a.len() ==> a[i] == b[i]) {
            if a.len() == b.len() {
                assert(a =~= b);
            } else {
                assert(first_difference(a, b, a.len() as int));
            }
        } else if b.len() < a.len() && (forall|i: int| 0 <= i < b.len() ==> a[i] == b[i]) {
            assert(first_difference(b, a, b.len() as int));
        } else {
            let k = choose|k: int| 0 <= k < a.len() && k < b.len() && a[k] != b[k];
            lemma_first_mismatch(a, b, k);
        }
    }
}

proof fn lemma_first_mismatch(a: Seq<char>, b: Seq<char>, k: int)
    requires
        0 <= k < a.len(),
        k < b.len(),
        a[k] != b[k],
    ensures
        text_lt(a, b) || text_lt(b, a),
    decreases k,
{
    if exists|j: int| 0 <= j < k && a[j] != b[j] {
        let j = choose|j: int| 0 <= j < k && a[j] != b[j];
        lemma_first_mismatch(a, b, j);
    } else if a[k] < b[k] {
        assert(first_difference(a, b, k));
    } else {
        assert(first_difference(b, a, k));
    }
}

/// Strictly ascending keys.
pub open spec fn ascending(keys: Seq<Seq<char>>) -> bool {
    forall|i: int, j: int| 0 <= i < j < keys.len() ==> text_lt(keys[i], keys[j])
}

pub proof fn lemma_ascending_unique(keys: Seq<Seq<char>>, i: int, j: int)
    requires
        ascending(keys),
        0 <= i < keys.len(),
        0 <= j < keys.len(),
        i != j,
    ensures
        keys[i] != keys[j],
{
    if i < j {
        assert(text_lt(keys[i], keys[j]));
        lemma_text_lt_irreflexive(keys[i]);
    } else {
        assert(text_lt(keys[j], keys[i]));
        lemma_text_lt_irreflexive(keys[j]);
    }
}

/// The outcome of comparing two texts.
#[derive(Clone, Copy, Debug, PartialEq, Eq, Structural)]
pub enum TextOrder {
    Less,
    Equal,
    Greater,
}

/// Code-point order of two texts.
pub fn compare_text(a: &str, b: &str) -> (r: TextOrder)
    ensures
        (r == TextOrder::Less) == text_lt(a@, b@),
        (r == TextOrder::Equal) == (a@ == b@),
        (r == TextOrder::Greater) == text_lt(b@, a@),
{
    let x = text_chars(a);
    let y = text_chars(b);
    let mut i: usize = 0;
    while i < x.len() && i < y.len()
        invariant
            x@ == a@,
            y@ == b@,
            i <= x.len(),
            i <= y.len(),
            forall|j: int| 0 <= j < i ==> x@[j] == y@[j],
        decreases x.len() - i,
    {
        if x[i] != y[i] {
            proof {
                lemma_text_lt_irreflexive(a@);
                if x@[i as int] < y@[i as int] {
                    assert(first_difference(a@, b@, i as int));
                    lemma_lt_asym(a@, b@);
                } else {
                    assert(first_difference(b@, a@, i as int));
                    lemma_lt_asym(b@, a@);
                }
            }
            if x[i] < y[i] {
                return TextOrder::Less;
            } else {
                return TextOrder::Greater;
            }
        }
        i += 1;
    }
    proof {
        lemma_text_lt_irreflexive(a@);
    }
    if x.len() < y.len() {
        proof {
            assert(first_difference(a@, b@, i as int));
            lemma_lt_asym(a@, b@);
        }
        TextOrder::Less
    } else if y.len() < x.len() {
        proof {
            assert(first_difference(b@, a@, i as int));
            lemma_lt_asym(b@, a@);
        }
        TextOrder::Greater
    } else {
        proof {
            assert(x@ =~= y@);
        }
        TextOrder::Equal
    }
}

pub proof fn lemma_lt_asym(a: Seq<char>, b: Seq<char>)
    requires
        text_lt(a, b),
    ensures
        !text_lt(b, a),
        a != b,
{
    lemma_text_lt_irreflexive(a);
    if text_lt(b, a) {
        lemma_text_lt_transitive(a, b, a);
    }
}

/// One key and its value.
#[derive(Clone, Debug, PartialEq, Eq)]
pub struct TextEntry<V> {
    pub key: String,
    pub value: V,
}

/// A map from text keys to values whose entries stay in ascending key order.
#[derive(Debug, PartialEq, Eq)]
pub struct TextMap<V> {
    entries: Vec<TextEntry<V>>,
}

impl<V> TextMap<V> {
    /// The keys in ascending order.
    pub closed spec fn key_seq(&self) -> Seq<Seq<char>> {
        self.entries@.map_values(|e: TextEntry<V>| e.key@)
    }

    /// The values, aligned with `key_seq`.
    pub closed spec fn value_seq(&self) -> Seq<V> {
        self.entries@.map_values(|e: TextEntry<V>| e.value)
    }

    /// Keys and values line up, and the view reads the value beside a key.
    pub proof fn lemma_view_reads(&self, k: Seq<char>)
        ensures
            self.key_seq().len() == self.value_seq().len(),
            self.view().contains_key(k) ==> {
                let j = self.key_seq().index_of(k);
                &&& 0 <= j < self.key_seq().len()
                &&& self.key_seq()[j] == k
                &&& self.view()[k] == self.value_seq()[j]
            },
    {
    }

    #[verifier::type_invariant]
    closed spec fn keys_ascend(self) -> bool {
        ascending(self.key_seq())
    }

    /// The map as a function from keys to values.
    pub open spec fn view(&self) -> Map<Seq<char>, V> {
        Map::new(
            |k: Seq<char>| self.key_seq().contains(k),
            |k: Seq<char>| self.value_seq()[self.key_seq().index_of(k)],
        )
    }

    /// What ascending keys give: no key twice, and each position maps its key to its value.
    proof fn lemma_keys(&self)
        requires
            ascending(self.key_seq()),
        ensures
            ascending(self.key_seq()),
            self.key_seq().no_duplicates(),
            self.key_seq().len() == self.value_seq().len(),
            forall|i: int|
                0 <= i < self.key_seq().len() ==> #[trigger] self.view().contains_key(
                    self.key_seq()[i],
                ) && self.view()[self.key_seq()[i]] == self.value_seq()[i],
    {
        let ks = self.key_seq();
        assert forall|i: int, j: int| 0 <= i < ks.len() && 0 <= j < ks.len() && i != j implies ks[i]
            != ks[j] by {
            lemma_ascending_unique(ks, i, j);
        }
        assert forall|i: int| 0 <= i < ks.len() implies #[trigger] self.view().contains_key(ks[i])
            && self.view()[ks[i]] == self.value_seq()[i] by {
            assert(ks.contains(ks[i]));
            ks.index_of_first_ensures(ks[i]);
            let j = ks.index_of(ks[i]);
            if j != i {
                lemma_ascending_unique(ks, i, j);
            }
        }
    }

    pub fn new() -> (m: Self)
        ensures
            m.key_seq() == Seq::<Seq<char>>::empty(),
            m.value_seq() == Seq::<V>::empty(),
    {
        let m = TextMap { entries: Vec::new() };
        proof {
            assert(m.key_seq() =~= Seq::<Seq<char>>::empty());
            assert(m.value_seq() =~= Seq::<V>::empty());
        }
        m
    }

    /// The number of entries, with the facts that ascending keys give.
    pub fn len(&self) -> (n: usize)
        ensures
            n == self.key_seq().len(),
            n == self.value_seq().len(),
            ascending(self.key_seq()),
            self.key_seq().no_duplicates(),
            forall|i: int|
                0 <= i < self.key_seq().len() ==> #[trigger] self.view().contains_key(
                    self.key_seq()[i],
                ) && self.view()[self.key_seq()[i]] == self.value_seq()[i],
            self.view().dom() == self.key_seq().to_set(),
    {
        proof {
            use_type_invariant(self);
            self.lemma_keys();
            assert(self.view().dom() =~= self.key_seq().to_set());
        }
        self.entries.len()
    }

    pub fn is_empty(&self) -> (b: bool)
        ensures
            b == (self.key_seq().len() == 0),
    {
        self.entries.len() == 0
    }

    /// The key at position `i` in ascending order.
    pub fn key_at(&self, i: usize) -> (k: &String)
        requires
            i < self.key_seq().len(),
        ensures
            k@ == self.key_seq()[i as int],
    {
        &self.entries[i].key
    }

    /// The value at position `i` in ascending key order.
    pub fn value_at(&self, i: usize) -> (v: &V)
        requires
            i < self.key_seq().len(),
        ensures
            *v == self.value_seq()[i as int],
    {
        &self.entries[i].value
    }

    /// The position of `key`, if present.
    pub fn position(&self, key: &str) -> (r: Option<usize>)
        ensures
            match r {
                Some(i) => i < self.key_seq().len() && self.key_seq()[i as int] == key@,
                None => !self.key_seq().contains(key@),
            },
    {
        let mut i: usize = 0;
        while i < self.entries.len()
            invariant
                i <= self.entries@.len(),
                forall|j: int| 0 <= j < i ==> self.key_seq()[j] != key@,
            decreases self.entries.len() - i,
        {
            if text_eq(self.entries[i].key.as_str(), key) {
                return Some(i);
            }
            i += 1;
        }
        None
    }

    pub fn contains_key(&self, key: &str) -> (b: bool)
        ensures
            b == self.view().contains_key(key@),
    {
        self.position(key).is_some()
    }

    pub fn get(&self, key: &str) -> (r: Option<&V>)
        ensures
            match r {
                Some(v) => self.view().contains_key(key@) && *v == self.view()[key@],
                None => !self.view().contains_key(key@),
            },
    {
        match self.position(key) {
            Some(i) => {
                proof {
                    use_type_invariant(self);
                    self.lemma_keys();
                }
                Some(&self.entries[i].value)
            },
            None => None,
        }
    }

    /// Add or replace the value of `key`; keys stay in ascending order.
    pub fn insert(&mut self, key: String, value: V)
        ensures
            final(self).view() == old(self).view().insert(key@, value),
            old(self).view().contains_key(key@) ==> final(self).value_seq() == old(self).value_seq().update(
                old(self).key_seq().index_of(key@),
                value,
            ),
            !old(self).view().contains_key(key@) ==> exists|p: int|
                0 <= p <= old(self).value_seq().len() && final(self).value_seq() == old(self).value_seq().insert(
                    p,
                    value,
                ),
    {
        proof {
            use_type_invariant(&*self);
        }
        let ghost old_keys = self.key_seq();
        let mut p: usize = 0;
        while p < self.entries.len() && compare_text(self.entries[p].key.as_str(), key.as_str())
            == TextOrder::Less
            invariant
                p <= self.entries@.len(),
                self.key_seq() == old_keys,
                ascending(old_keys),
                forall|j: int| 0 <= j < p ==> text_lt(old_keys[j], key@),
            decreases self.entries.len() - p,
        {
            p += 1;
        }
        let ghost old_map = self.view();
        let ghost old_values = self.value_seq();
        proof {
            self.lemma_keys();
        }
        if p < self.entries.len() && text_eq(self.entries[p].key.as_str(), key.as_str()) {
            let entry = TextEntry { key, value };
            let ghost new_entries = self.entries@.update(p as int, entry);
            proof {
                assert(new_entries.map_values(|e: TextEntry<V>| e.key@) =~= old_keys);
            }
            let mut entries: Vec<TextEntry<V>> = Vec::new();
            std::mem::swap(&mut entries, &mut self.entries);
            entries.set(p, entry);
            self.entries = entries;
            proof {
                assert(self.key_seq() =~= old_keys);
                assert(self.value_seq() =~= old_values.update(p as int, value));
                old(self).lemma_view_reads(key@);
                assert(old_keys.contains(key@)) by {
                    assert(old_keys[p as int] == key@);
                }
                self.lemma_keys();
                assert(old_keys.index_of(key@) == p as int) by {
                    let j = old_keys.index_of(key@);
                    assert(old(self).key_seq() == old_keys);
                    assert(0 <= j < old_keys.len() && old_keys[j] == key@);
                    assert(old_keys.no_duplicates());
                    if j != p as int {
                        assert(old_keys[j] == old_keys[p as int]);
                    }
                }
                assert(self.view() =~= old_map.insert(key@, value)) by {
                    assert forall|k: Seq<char>| #[trigger] self.view().contains_key(k) implies old_map.insert(key@, value).contains_key(k) && self.view()[k] == old_map.insert(key@, value)[k] by {
                        let i = choose|i: int| 0 <= i < old_keys.len() && old_keys[i] == k;
                        assert(self.key_seq()[i] == k);
                        if i != p {
                            lemma_ascending_unique(old_keys, i, p as int);
                        }
                    }
                    assert forall|k: Seq<char>| #[trigger] old_map.insert(key@, value).contains_key(k) implies self.view().contains_key(k) by {
                        if k != key@ {
                            let i = choose|i: int| 0 <= i < old_keys.len() && old_keys[i] == k;
                            assert(self.key_seq()[i] == k);
                        } else {
                            assert(self.key_seq()[p as int] == k);
                        }
                    }
                }
            }
        } else {
            proof {
                if p < old_keys.len() {
                    lemma_text_lt_total(old_keys[p as int], key@);
                    assert forall|j: int| p <= j < old_keys.len() implies text_lt(key@, old_keys[j]) by {
                        if j > p {
                            lemma_text_lt_transitive(key@, old_keys[p as int], old_keys[j]);
                        }
                    }
                }
            }
            let ghost k = key@;
            let entry = TextEntry { key, value };
            let mut entries: Vec<TextEntry<V>> = Vec::new();
            std::mem::swap(&mut entries, &mut self.entries);
            entries.insert(p, entry);
            proof {
                let ks = entries@.map_values(|e: TextEntry<V>| e.key@);
                assert(ks =~= old_keys.insert(p as int, k));
                assert forall|i: int, j: int| 0 <= i < j < ks.len() implies text_lt(ks[i], ks[j]) by {
                    if i < p && j < p {
                    } else if i < p && j == p {
                    } else if i < p && j > p {
                        assert(ks[j] == old_keys[j - 1]);
                        assert(text_lt(old_keys[i], old_keys[j - 1]));
                    } else if i == p {
                        assert(ks[j] == old_keys[j - 1]);
                    } else {
                        assert(ks[i] == old_keys[i - 1]);
                        assert(ks[j] == old_keys[j - 1]);
                    }
                }
            }
            self.entries = entries;
            proof {
                let ks = self.key_seq();
                assert(self.value_seq() =~= old_values.insert(p as int, value));
                assert(!old_keys.contains(k)) by {
                    if old_keys.contains(k) {
                        let i = choose|i: int| 0 <= i < old_keys.len() && old_keys[i] == k;
                        if i < p {
                            lemma_text_lt_irreflexive(k);
                        } else {
                            lemma_text_lt_irreflexive(k);
                        }
                    }
                }
                self.lemma_keys();
                assert(self.view() =~= old_map.insert(k, value)) by {
                    assert forall|kk: Seq<char>| #[trigger] self.view().contains_key(kk) implies old_map.insert(k, value).contains_key(kk) && self.view()[kk] == old_map.insert(k, value)[kk] by {
                        let i = choose|i: int| 0 <= i < ks.len() && ks[i] == kk;
                        if i < p {
                            assert(old_keys[i] == kk);
                            lemma_ascending_unique(ks, i, p as int);
                        } else if i > p {
                            assert(old_keys[i - 1] == kk);
                            lemma_ascending_unique(ks, i, p as int);
                        }
                    }
                    assert forall|kk: Seq<char>| #[trigger] old_map.insert(k, value).contains_key(kk) implies self.view().contains_key(kk) by {
                        if kk != k {
                            let i = choose|i: int| 0 <= i < old_keys.len() && old_keys[i] == kk;
                            if i < p {
                                assert(ks[i] == kk);
                            } else {
                                assert(ks[i + 1] == kk);
                            }
                        } else {
                            assert(ks[p as int] == kk);
                        }
                    }
                }
            }
        }
    }

    /// Remove `key` and its value, if present; keys stay in ascending order.
    pub fn remove(&mut self, key: &str)
        ensures
            final(self).view() == old(self).view().remove(key@),
    {
        proof {
            use_type_invariant(&*self);
            self.lemma_keys();
        }
        match self.position(key) {
            None => {
                proof {
                    assert(self.view() =~= self.view().remove(key@));
                }
            },
            Some(p) => {
                let ghost old_keys = self.key_seq();
                let ghost old_values = self.value_seq();
                let ghost old_map = self.view();
                let mut entries: Vec<TextEntry<V>> = Vec::new();
                std::mem::swap(&mut entries, &mut self.entries);
                entries.remove(p);
                proof {
                    let ks = entries@.map_values(|e: TextEntry<V>| e.key@);
                    assert(ks =~= old_keys.remove(p as int));
                    assert forall|a: int, b: int| 0 <= a < b < ks.len() implies text_lt(ks[a], ks[b]) by {
                        let a0 = if a < p { a } else { a + 1 };
                        let b0 = if b < p { b } else { b + 1 };
                        assert(ks[a] == old_keys[a0]);
                        assert(ks[b] == old_keys[b0]);
                    }
                }
                self.entries = entries;
                proof {
                    let ks = self.key_seq();
                    assert(ks =~= old_keys.remove(p as int));
                    assert(self.value_seq() =~= old_values.remove(p as int));
                    self.lemma_keys();
                    assert(self.view() =~= old_map.remove(key@)) by {
                        assert forall|kk: Seq<char>| #[trigger] self.view().contains_key(kk) implies old_map.remove(
                            key@,
                        ).contains_key(kk) && self.view()[kk] == old_map.remove(key@)[kk] by {
                            let i = choose|i: int| 0 <= i < ks.len() && ks[i] == kk;
                            let i0 = if i < p { i } else { i + 1 };
                            assert(old_keys[i0] == kk);
                            if kk == key@ {
                                lemma_ascending_unique(old_keys, i0, p as int);
                            }
                        }
                        assert forall|kk: Seq<char>| #[trigger] old_map.remove(key@).contains_key(kk) implies self.view().contains_key(
                            kk,
                        ) by {
                            let i = choose|i: int| 0 <= i < old_keys.len() && old_keys[i] == kk;
                            assert(i != p);
                            if i < p {
                                assert(ks[i] == kk);
                            } else {
                                assert(ks[i - 1] == kk);
                            }
                        }
                    }
                }
            },
        }
    }
}

impl<V: Copy> TextMap<V> {
    /// An entry-for-entry copy.
    pub fn copy_map(&self) -> (m: Self)
        ensures
            m.key_seq() == self.key_seq(),
            m.value_seq() == self.value_seq(),
            m.view() == self.view(),
    {
        proof {
            use_type_invariant(self);
        }
        let mut entries: Vec<TextEntry<V>> = Vec::new();
        let mut i: usize = 0;
        while i < self.entries.len()
            invariant
                i <= self.entries@.len(),
                entries@.len() == i,
                forall|j: int| 0 <= j < i ==> (#[trigger] entries@[j]).key@ == self.entries@[j].key@
                    && entries@[j].value == self.entries@[j].value,
            decreases self.entries.len() - i,
        {
            let e = TextEntry { key: self.entries[i].key.clone(), value: self.entries[i].value };
            entries.push(e);
            i += 1;
        }
        proof {
            assert(entries@.map_values(|e: TextEntry<V>| e.key@) =~= self.key_seq());
            assert(entries@.map_values(|e: TextEntry<V>| e.value) =~= self.value_seq());
        }
        let m = TextMap { entries };
        m
    }
}

/// A set of texts kept in ascending order.
#[derive(Debug, PartialEq, Eq)]
pub struct TextSet {
    map: TextMap<()>,
}

impl TextSet {
    pub closed spec fn view(&self) -> Set<Seq<char>> {
        self.map.view().dom()
    }

    pub fn new() -> (s: Self)
        ensures
            s.view() == Set::<Seq<char>>::empty(),
    {
        let s = TextSet { map: TextMap::new() };
        proof {
            assert(s.view() =~= Set::<Seq<char>>::empty());
        }
        s
    }

    pub fn contains(&self, value: &str) -> (b: bool)
        ensures
            b == self.view().contains(value@),
    {
        self.map.contains_key(value)
    }

    /// The members in ascending order.
    pub closed spec fn elements(&self) -> Seq<Seq<char>> {
        self.map.key_seq()
    }

    /// The number of members, with the order they are walked in.
    pub fn len(&self) -> (n: usize)
        ensures
            n == self.elements().len(),
            ascending(self.elements()),
            self.elements().no_duplicates(),
            self.view() == self.elements().to_set(),
    {
        self.map.len()
    }

    /// The member at position `i` in ascending order.
    pub fn element_at(&self, i: usize) -> (v: &String)
        requires
            i < self.elements().len(),
        ensures
            v@ == self.elements()[i as int],
    {
        self.map.key_at(i)
    }

    /// Add `value`; returns whether it was absent before.
    pub fn insert(&mut self, value: String) -> (added: bool)
        ensures
            final(self).view() == old(self).view().insert(value@),
            added == !old(self).view().contains(value@),
    {
        let added = !self.map.contains_key(value.as_str());
        self.map.insert(value, ());
        proof {
            assert(self.view() =~= old(self).view().insert(value@));
        }
        added
    }
}


/// A map from byte keys to values, walked in ascending key order.
#[derive(Debug, PartialEq, Eq)]
pub struct ByteMap<V> {
    slots: Vec<Option<V>>,
}

impl<V> ByteMap<V> {
    /// The value at each of the 256 keys, if any.
    pub closed spec fn slots(&self) -> Seq<Option<V>> {
        self.slots@
    }

    #[verifier::type_invariant]
    closed spec fn has_every_key(self) -> bool {
        self.slots@.len() == 256
    }

    /// The map as a function from keys to values.
    pub open spec fn view(&self) -> Map<u8, V> {
        Map::new(|k: u8| self.slots()[k as int] is Some, |k: u8| self.slots()[k as int]->0)
    }

    pub fn new() -> (m: Self)
        ensures
            m.slots().len() == 256,
            forall|k: int| 0 <= k < 256 ==> #[trigger] m.slots()[k] is None,
            m.view() == Map::<u8, V>::empty(),
    {
        let mut slots: Vec<Option<V>> = Vec::new();
        let mut k: usize = 0;
        while k < 256
            invariant
                k <= 256,
                slots@.len() == k,
                forall|j: int| 0 <= j < k ==> #[trigger] slots@[j] is None,
            decreases 256 - k,
        {
            slots.push(None);
            k += 1;
        }
        let m = ByteMap { slots };
        proof {
            assert(m.view() =~= Map::<u8, V>::empty());
        }
        m
    }

    /// The value stored at `key`.
    pub fn get(&self, key: u8) -> (r: Option<&V>)
        ensures
            match r {
                Some(v) => self.slots()[key as int] == Some(*v),
                None => self.slots()[key as int] is None,
            },
            r is Some == self.view().contains_key(key),
            self.slots().len() == 256,
    {
        proof {
            use_type_invariant(self);
        }
        match &self.slots[key as usize] {
            Some(v) => Some(v),
            None => None,
        }
    }

    pub fn contains_key(&self, key: u8) -> (b: bool)
        ensures
            b == self.view().contains_key(key),
    {
        self.get(key).is_some()
    }

    /// Whether no key has a value.
    pub fn is_empty(&self) -> (b: bool)
        ensures
            b == (self.view().dom() == Set::<u8>::empty()),
    {
        proof {
            use_type_invariant(self);
        }
        let mut k: usize = 0;
        while k < 256
            invariant
                k <= 256,
                self.slots@.len() == 256,
                forall|j: int| 0 <= j < k ==> #[trigger] self.slots@[j] is None,
            decreases 256 - k,
        {
            if self.slots[k].is_some() {
                proof {
                    let key = k as u8;
                    assert(self.view().dom().contains(key));
                }
                return false;
            }
            k += 1;
        }
        proof {
            assert forall|key: u8| !self.view().dom().contains(key) by {
                assert(self.slots@[key as int] is None);
            }
            assert(self.view().dom() =~= Set::<u8>::empty());
        }
        true
    }

    /// Sets the value of `key`.
    pub fn insert(&mut self, key: u8, value: V)
        ensures
            final(self).slots() == old(self).slots().update(key as int, Some(value)),
            final(self).view() == old(self).view().insert(key, value),
    {
        proof {
            use_type_invariant(&*self);
        }
        let mut taken = ByteMap::new();
        std::mem::swap(&mut taken, self);
        let ByteMap { mut slots } = taken;
        slots.set(key as usize, Some(value));
        *self = ByteMap { slots };
        proof {
            assert(self.view() =~= old(self).view().insert(key, value));
        }
    }
}
} // verus!
