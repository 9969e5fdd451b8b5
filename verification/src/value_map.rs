use vstd::prelude::*;

verus! {

/// True if some entry of `s` has key `k`.
pub open spec fn has_key<T>(s: Seq<(Seq<char>, T)>, k: Seq<char>) -> bool {
    exists|i: int| 0 <= i < s.len() && #[trigger] s[i].0 == k
}

/// True if no key occurs twice in `s`.
pub open spec fn distinct_keys<T>(s: Seq<(Seq<char>, T)>) -> bool {
    forall|i: int, j: int| 0 <= i < j < s.len() ==> #[trigger] s[i].0 != #[trigger] s[j].0
}

/// True if `a` and `b` share no key.
pub open spec fn disjoint_keys<T>(a: Seq<(Seq<char>, T)>, b: Seq<(Seq<char>, T)>) -> bool {
    forall|k: Seq<char>| has_key(a, k) ==> !#[trigger] has_key(b, k)
}

/// The value stored under `k`: that of the first entry with key `k`.
pub open spec fn lookup<T>(s: Seq<(Seq<char>, T)>, k: Seq<char>) -> Option<T>
    decreases s.len(),
{
    if s.len() == 0 {
        None
    } else if s[0].0 == k {
        Some(s[0].1)
    } else {
        lookup(s.drop_first(), k)
    }
}

/// A map from names to values that remembers insertion order.
///
/// Keys are unique: adding a key twice is refused. Iterating by index
/// visits the entries in the order in which they were added.
pub struct ValueMap<T> {
    entries: Vec<(String, T)>,
}

impl<T> View for ValueMap<T> {
    type V = Seq<(Seq<char>, T)>;

    closed spec fn view(&self) -> Seq<(Seq<char>, T)> {
        self.entries@.map_values(|e: (String, T)| (e.0@, e.1))
    }
}

/// Looking a key up in a sequence whose first `i` entries do not carry it
/// is the same as looking it up in the remaining suffix.
proof fn lemma_lookup_skip<T>(s: Seq<(Seq<char>, T)>, k: Seq<char>, i: int)
    requires
        0 <= i <= s.len(),
        forall|j: int| 0 <= j < i ==> #[trigger] s[j].0 != k,
    ensures
        lookup(s, k) == lookup(s.skip(i), k),
    decreases i,
{
    if i > 0 {
        assert(s.drop_first().skip(i - 1) =~= s.skip(i));
        lemma_lookup_skip(s.drop_first(), k, i - 1);
    } else {
        assert(s.skip(0) =~= s);
    }
}

/// A key is found by [lookup] exactly when some entry carries it.
pub proof fn lemma_lookup_has_key<T>(s: Seq<(Seq<char>, T)>, k: Seq<char>)
    ensures
        lookup(s, k) is Some <==> has_key(s, k),
    decreases s.len(),
{
    if s.len() > 0 {
        lemma_lookup_has_key(s.drop_first(), k);
        if has_key(s, k) && s[0].0 != k {
            let i = choose|i: int| 0 <= i < s.len() && #[trigger] s[i].0 == k;
            assert(s.drop_first()[i - 1].0 == k);
        }
        if has_key(s.drop_first(), k) {
            let i = choose|i: int| 0 <= i < s.drop_first().len() && #[trigger] s.drop_first()[i].0 == k;
            assert(s[i + 1].0 == k);
        }
    }
}

/// Appending an entry whose key is new makes that key read back the new
/// value and leaves every other key as it was.
pub proof fn lemma_lookup_push<T>(s: Seq<(Seq<char>, T)>, key: Seq<char>, value: T, k: Seq<char>)
    requires
        !has_key(s, key),
    ensures
        lookup(s.push((key, value)), key) == Some(value),
        k != key ==> lookup(s.push((key, value)), k) == lookup(s, k),
    decreases s.len(),
{
    let t = s.push((key, value));
    if s.len() == 0 {
        assert(t[0] == (key, value));
        assert(t.drop_first() =~= Seq::<(Seq<char>, T)>::empty());
        assert(lookup(t.drop_first(), k) is None);
    } else {
        assert(t[0] == s[0]);
        assert(t.drop_first() =~= s.drop_first().push((key, value)));
        if has_key(s.drop_first(), key) {
            let i = choose|i: int| 0 <= i < s.drop_first().len() && #[trigger] s.drop_first()[i].0 == key;
            assert(s[i + 1].0 == key);
        }
        assert(s[0].0 != key);
        lemma_lookup_push(s.drop_first(), key, value, k);
    }
}

/// In a concatenation, keys of the left part read back as before and keys
/// absent from it read back as in the right part.
pub proof fn lemma_lookup_concat<T>(a: Seq<(Seq<char>, T)>, b: Seq<(Seq<char>, T)>, k: Seq<char>)
    ensures
        has_key(a, k) ==> lookup(a + b, k) == lookup(a, k),
        !has_key(a, k) ==> lookup(a + b, k) == lookup(b, k),
    decreases a.len(),
{
    if a.len() == 0 {
        assert(a + b =~= b);
    } else {
        assert((a + b).drop_first() =~= a.drop_first() + b);
        lemma_lookup_concat(a.drop_first(), b, k);
        if has_key(a, k) && a[0].0 != k {
            let i = choose|i: int| 0 <= i < a.len() && #[trigger] a[i].0 == k;
            assert(a.drop_first()[i - 1].0 == k);
        }
        if has_key(a.drop_first(), k) {
            let i = choose|i: int| 0 <= i < a.drop_first().len() && #[trigger] a.drop_first()[i].0 == k;
            assert(a[i + 1].0 == k);
        }
    }
}

impl<T> ValueMap<T> {
    #[verifier::type_invariant]
    spec fn inv(self) -> bool {
        distinct_keys(self@)
    }

    /// Creates an empty map.
    pub fn new() -> (m: Self)
        ensures
            m@ == Seq::<(Seq<char>, T)>::empty(),
            distinct_keys(m@),
    {
        let m = ValueMap { entries: Vec::new() };
        assert(m@ =~= Seq::<(Seq<char>, T)>::empty());
        m
    }

    /// Number of entries.
    pub fn len(&self) -> (n: usize)
        ensures
            n == self@.len(),
    {
        self.entries.len()
    }

    /// Returns true if an entry with the given key exists.
    pub fn contains_key(&self, key: &String) -> (b: bool)
        ensures
            b == has_key(self@, key@),
    {
        let n = self.entries.len();
        for i in 0..n
            invariant
                n == self.entries@.len(),
                forall|j: int| 0 <= j < i ==> #[trigger] self@[j].0 != key@,
        {
            if self.entries[i].0 == *key {
                assert(self@[i as int].0 == key@);
                return true;
            }
        }
        false
    }

    /// Returns the value stored under `key`, if any.
    pub fn get(&self, key: &String) -> (r: Option<&T>)
        ensures
            match r {
                Some(v) => lookup(self@, key@) == Some(*v),
                None => lookup(self@, key@) is None,
            },
    {
        let n = self.entries.len();
        for i in 0..n
            invariant
                n == self.entries@.len(),
                forall|j: int| 0 <= j < i ==> #[trigger] self@[j].0 != key@,
        {
            if self.entries[i].0 == *key {
                proof {
                    lemma_lookup_skip(self@, key@, i as int);
                    assert(self@.skip(i as int)[0] == self@[i as int]);
                }
                return Some(&self.entries[i].1);
            }
        }
        proof {
            lemma_lookup_skip(self@, key@, n as int);
        }
        None
    }

    /// The key of the `i`-th entry in insertion order.
    pub fn key_at(&self, i: usize) -> (k: &String)
        requires
            i < self@.len(),
        ensures
            k@ == self@[i as int].0,
    {
        &self.entries[i].0
    }

    /// The value of the `i`-th entry in insertion order.
    pub fn value_at(&self, i: usize) -> (v: &T)
        requires
            i < self@.len(),
        ensures
            *v == self@[i as int].1,
    {
        &self.entries[i].1
    }

    /// Replaces the value of the `i`-th entry, keeping its key and position,
    /// and returns the value it held.
    pub fn replace_at(&mut self, i: usize, value: T) -> (prev: T)
        requires
            i < old(self)@.len(),
        ensures
            prev == old(self)@[i as int].1,
            final(self)@ == old(self)@.update(i as int, (old(self)@[i as int].0, value)),
            distinct_keys(final(self)@),
    {
        proof {
            use_type_invariant(&*self);
        }
        let ghost old_view = self@;
        let mut entries = Vec::new();
        std::mem::swap(&mut entries, &mut self.entries);
        let (key, prev) = entries.remove(i);
        entries.insert(i, (key, value));
        let ghost new_view = entries@.map_values(|e: (String, T)| (e.0@, e.1));
        assert(new_view =~= old_view.update(i as int, (old_view[i as int].0, value)));
        assert forall|a: int, b: int| 0 <= a < b < new_view.len() implies #[trigger] new_view[a].0
            != #[trigger] new_view[b].0 by {
            assert(new_view[a].0 == old_view[a].0 && new_view[b].0 == old_view[b].0);
        }
        self.entries = entries;
        prev
    }

    /// Appends a new entry. The key must not be present yet.
    pub fn add(&mut self, key: String, value: T)
        requires
            !has_key(old(self)@, key@),
        ensures
            final(self)@ == old(self)@.push((key@, value)),
            distinct_keys(final(self)@),
    {
        proof {
            use_type_invariant(&*self);
        }
        let ghost old_view = self@;
        let ghost k = key@;
        let mut entries = Vec::new();
        std::mem::swap(&mut entries, &mut self.entries);
        entries.push((key, value));
        let ghost new_view = entries@.map_values(|e: (String, T)| (e.0@, e.1));
        assert(new_view =~= old_view.push((k, value)));
        assert forall|i: int, j: int| 0 <= i < j < new_view.len() implies #[trigger] new_view[i].0
            != #[trigger] new_view[j].0 by {
            if j == old_view.len() {
                assert(old_view[i].0 == new_view[i].0);
            }
        }
        self.entries = entries;
    }

    /// Appends a new entry and returns the map. The key must not be present yet.
    pub fn with(self, key: String, value: T) -> (m: Self)
        requires
            !has_key(self@, key@),
        ensures
            m@ == self@.push((key@, value)),
            distinct_keys(m@),
    {
        let mut m = self;
        m.add(key, value);
        m
    }

    /// Appends all entries of `other`, in their order, after the entries of
    /// this map. The two maps must not share a key.
    pub fn merge(&mut self, other: ValueMap<T>)
        requires
            disjoint_keys(old(self)@, other@),
        ensures
            final(self)@ == old(self)@ + other@,
            distinct_keys(final(self)@),
    {
        proof {
            use_type_invariant(&*self);
            use_type_invariant(&other);
        }
        let ghost a = self@;
        let ghost b = other@;
        let ValueMap { entries: mut rest } = other;
        let mut entries = Vec::new();
        std::mem::swap(&mut entries, &mut self.entries);
        entries.append(&mut rest);
        let ghost new_view = entries@.map_values(|e: (String, T)| (e.0@, e.1));
        assert(new_view =~= a + b);
        assert forall|i: int, j: int| 0 <= i < j < new_view.len() implies #[trigger] new_view[i].0
            != #[trigger] new_view[j].0 by {
            if j < a.len() {
                assert(a[i].0 == new_view[i].0 && a[j].0 == new_view[j].0);
            } else if i >= a.len() {
                assert(b[i - a.len()].0 == new_view[i].0 && b[j - a.len()].0 == new_view[j].0);
            } else {
                let k = new_view[i].0;
                assert(a[i].0 == k);
                assert(has_key(a, k));
                assert(!has_key(b, k));
                assert(b[j - a.len()].0 == new_view[j].0);
            }
        }
        self.entries = entries;
    }
}

} // verus!
