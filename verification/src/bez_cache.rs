//! A cache of up to date paths for each glyph, and a map of the glyphs that
//! use each glyph as a component, so that changes to a component can
//! invalidate the glyphs that contain it.
//!
//! The cache keeps a small pre-cache of at most `PRE_CACHE_SIZE` entries in
//! front of its main store; entries go to the pre-cache first, and when it
//! is full they are all moved to the main store. Both hold each name at
//! most once.

use vstd::prelude::*;
use crate::glyph_names::same_chars;

verus! {

/// The number of entries the pre-cache holds.
pub const PRE_CACHE_SIZE: usize = 8;

/// No name occurs twice.
pub open spec fn keys_unique<V>(s: Seq<(String, V)>) -> bool {
    forall|i: int, j: int| 0 <= i < j < s.len() ==> (#[trigger] s[i]).0@ != (#[trigger] s[j]).0@
}

/// Some entry has the name `k`.
pub open spec fn has_key<V>(s: Seq<(String, V)>, k: Seq<char>) -> bool {
    exists|i: int| 0 <= i < s.len() && (#[trigger] s[i]).0@ == k
}

/// The position of the entry named `k`, when there is one.
pub open spec fn key_index<V>(s: Seq<(String, V)>, k: Seq<char>) -> int {
    choose|i: int| 0 <= i < s.len() && (#[trigger] s[i]).0@ == k
}

/// The value of the entry named `k`, if there is one.
pub open spec fn lookup<V>(s: Seq<(String, V)>, k: Seq<char>) -> Option<V> {
    if has_key(s, k) {
        Some(s[key_index(s, k)].1)
    } else {
        None
    }
}

/// With unique names, an entry's position is the position found for its
/// name.
proof fn lemma_key_index<V>(s: Seq<(String, V)>, i: int)
    requires
        keys_unique(s),
        0 <= i < s.len(),
    ensures
        key_index(s, s[i].0@) == i,
{
    let j = key_index(s, s[i].0@);
    if j < i {
        assert(s[j].0@ != s[i].0@);
    } else if i < j {
        assert(s[i].0@ != s[j].0@);
    }
}

/// With unique names, the value found for an entry's name is its value.
pub proof fn lemma_lookup_at<V>(s: Seq<(String, V)>, i: int)
    requires
        keys_unique(s),
        0 <= i < s.len(),
    ensures
        lookup(s, s[i].0@) == Some(s[i].1),
{
    lemma_key_index(s, i);
}

/// Setting the entry at `i` to the same name with a new value.
proof fn lemma_lookup_update<V>(s: Seq<(String, V)>, i: int, e: (String, V), x: Seq<char>)
    requires
        keys_unique(s),
        0 <= i < s.len(),
        e.0@ == s[i].0@,
    ensures
        keys_unique(s.update(i, e)),
        lookup(s.update(i, e), x) == if x == e.0@ {
            Some(e.1)
        } else {
            lookup(s, x)
        },
{
    let t = s.update(i, e);
    assert forall|a: int, b: int| 0 <= a < b < t.len() implies (#[trigger] t[a]).0@ != (#[trigger] t[b]).0@ by {
        assert(s[a].0@ != s[b].0@);
    }
    if x == e.0@ {
        lemma_lookup_at(t, i);
    } else {
        if has_key(s, x) {
            let j = choose|j: int| 0 <= j < s.len() && (#[trigger] s[j]).0@ == x;
            lemma_lookup_at(s, j);
            assert(t[j] == s[j]);
            lemma_lookup_at(t, j);
        }
        if has_key(t, x) {
            let j = choose|j: int| 0 <= j < t.len() && (#[trigger] t[j]).0@ == x;
            assert(s[j] == t[j]);
        }
    }
}

/// Adding an entry with a new name.
proof fn lemma_lookup_push<V>(s: Seq<(String, V)>, e: (String, V), x: Seq<char>)
    requires
        keys_unique(s),
        !has_key(s, e.0@),
    ensures
        keys_unique(s.push(e)),
        lookup(s.push(e), x) == if x == e.0@ {
            Some(e.1)
        } else {
            lookup(s, x)
        },
{
    let t = s.push(e);
    assert forall|a: int, b: int| 0 <= a < b < t.len() implies (#[trigger] t[a]).0@ != (#[trigger] t[b]).0@ by {
        if b == s.len() {
            assert(t[a] == s[a]);
        } else {
            assert(s[a].0@ != s[b].0@);
        }
    }
    if x == e.0@ {
        lemma_lookup_at(t, s.len() as int);
    } else {
        if has_key(s, x) {
            let j = choose|j: int| 0 <= j < s.len() && (#[trigger] s[j]).0@ == x;
            lemma_lookup_at(s, j);
            assert(t[j] == s[j]);
            lemma_lookup_at(t, j);
        }
        if has_key(t, x) {
            let j = choose|j: int| 0 <= j < t.len() && (#[trigger] t[j]).0@ == x;
            assert(j < s.len());
            assert(s[j] == t[j]);
        }
    }
}

/// Taking out the entry at `i`, moving the last entry into its place.
proof fn lemma_lookup_swap_remove<V>(s: Seq<(String, V)>, i: int, x: Seq<char>)
    requires
        keys_unique(s),
        0 <= i < s.len(),
    ensures
        keys_unique(s.update(i, s.last()).drop_last()),
        lookup(s.update(i, s.last()).drop_last(), x) == if x == s[i].0@ {
            None
        } else {
            lookup(s, x)
        },
{
    let n = s.len() - 1;
    let t = s.update(i, s.last()).drop_last();
    assert forall|a: int, b: int| 0 <= a < b < t.len() implies (#[trigger] t[a]).0@ != (#[trigger] t[b]).0@ by {
        if a == i {
            assert(s[n].0@ != s[b].0@);
        } else if b == i {
            assert(s[a].0@ != s[n].0@);
        } else {
            assert(s[a].0@ != s[b].0@);
        }
    }
    if has_key(t, x) {
        let j = choose|j: int| 0 <= j < t.len() && (#[trigger] t[j]).0@ == x;
        if j == i {
            assert(s[n].0@ == x);
            assert(s[i].0@ != s[n].0@);
            lemma_lookup_at(s, n);
            lemma_lookup_at(t, j);
        } else {
            assert(t[j] == s[j]);
            if j < i {
                assert(s[j].0@ != s[i].0@);
            } else {
                assert(s[i].0@ != s[j].0@);
            }
            lemma_lookup_at(s, j);
            lemma_lookup_at(t, j);
        }
    } else if has_key(s, x) {
        let j = choose|j: int| 0 <= j < s.len() && (#[trigger] s[j]).0@ == x;
        if j != i {
            if j == n {
                assert(t[i] == s[n]);
            } else {
                assert(t[j] == s[j]);
            }
        }
    }
}

/// The position of the entry named `k`, if there is one.
fn find_key<V>(s: &Vec<(String, V)>, k: &str) -> (r: Option<usize>)
    ensures
        r matches Some(i) ==> i < s@.len() && s@[i as int].0@ == k@,
        r is None ==> !has_key(s@, k@),
{
    let mut i: usize = 0;
    while i < s.len()
        invariant
            0 <= i <= s.len(),
            forall|j: int| 0 <= j < i ==> (#[trigger] s@[j]).0@ != k@,
        decreases s.len() - i,
    {
        if same_chars(s[i].0.as_str(), k) {
            return Some(i);
        }
        i += 1;
    }
    None
}

/// Sets the value for a name: replaces the entry with that name, or adds
/// one.
fn store_insert<V>(s: &mut Vec<(String, V)>, key: String, value: V)
    requires
        keys_unique(old(s)@),
    ensures
        keys_unique(final(s)@),
        has_key(old(s)@, key@) ==> final(s)@ == old(s)@.update(key_index(old(s)@, key@), (key, value)),
        !has_key(old(s)@, key@) ==> final(s)@ == old(s)@.push((key, value)),
        final(s)@.len() == old(s)@.len() + if has_key(old(s)@, key@) {
            0int
        } else {
            1int
        },
        forall|x: Seq<char>| #[trigger] lookup(final(s)@, x) == if x == key@ {
            Some(value)
        } else {
            lookup(old(s)@, x)
        },
{
    match find_key(s, key.as_str()) {
        Some(i) => {
            let ghost before = s@;
            let ghost k = key@;
            let ghost v = value;
            proof {
                lemma_key_index(before, i as int);
            }
            s.set(i, (key, value));
            proof {
                assert forall|x: Seq<char>| #[trigger] lookup(s@, x) == if x == k {
                    Some(v)
                } else {
                    lookup(before, x)
                } by {
                    lemma_lookup_update(before, i as int, s@[i as int], x);
                }
            }
        },
        None => {
            let ghost before = s@;
            let ghost k = key@;
            let ghost v = value;
            s.push((key, value));
            proof {
                assert forall|x: Seq<char>| #[trigger] lookup(s@, x) == if x == k {
                    Some(v)
                } else {
                    lookup(before, x)
                } by {
                    lemma_lookup_push(before, s@.last(), x);
                }
            }
        },
    }
}

/// Removes the entry named `key`, if there is one.
fn store_remove<V>(s: &mut Vec<(String, V)>, key: &str)
    requires
        keys_unique(old(s)@),
    ensures
        keys_unique(final(s)@),
        has_key(old(s)@, key@) ==> final(s)@ == old(s)@.update(key_index(old(s)@, key@), old(s)@.last()).drop_last(),
        !has_key(old(s)@, key@) ==> final(s)@ == old(s)@,
        final(s)@.len() <= old(s)@.len(),
        forall|x: Seq<char>| #[trigger] lookup(final(s)@, x) == if x == key@ {
            None
        } else {
            lookup(old(s)@, x)
        },
{
    match find_key(s, key) {
        Some(i) => {
            let ghost before = s@;
            proof {
                lemma_key_index(before, i as int);
            }
            let _ = s.swap_remove(i);
            proof {
                assert forall|x: Seq<char>| #[trigger] lookup(s@, x) == if x == key@ {
                    None
                } else {
                    lookup(before, x)
                } by {
                    lemma_lookup_swap_remove(before, i as int, x);
                }
            }
        },
        None => {
            proof {
                assert forall|x: Seq<char>| #[trigger] lookup(s@, x) == if x == key@ {
                    None
                } else {
                    lookup(old(s)@, x)
                } by {
                    if x == key@ {
                        assert(!has_key(s@, x));
                    }
                }
            }
        },
    }
}

/// A small store of at most `PRE_CACHE_SIZE` entries, in front of the main
/// store of a cache.
pub struct PreCache<V> {
    store: Vec<(String, V)>,
}

impl<V> PreCache<V> {
    /// The entries, in the order they were added.
    pub closed spec fn entries(self) -> Seq<(String, V)> {
        self.store@
    }

    /// At most `PRE_CACHE_SIZE` entries, each name once.
    pub open spec fn wf(self) -> bool {
        &&& self.entries().len() <= PRE_CACHE_SIZE
        &&& keys_unique(self.entries())
    }

    pub fn new() -> (r: Self)
        ensures
            r.wf(),
            r.entries() == Seq::<(String, V)>::empty(),
    {
        PreCache { store: Vec::new() }
    }

    pub fn is_full(&self) -> (r: bool)
        ensures
            r == (self.entries().len() == PRE_CACHE_SIZE),
    {
        self.store.len() == PRE_CACHE_SIZE
    }

    /// The value for a name, if the pre-cache holds it.
    pub fn get(&self, key: &str) -> (r: Option<&V>)
        requires
            self.wf(),
        ensures
            r matches Some(v) ==> lookup(self.entries(), key@) == Some(*v),
            r is None ==> lookup(self.entries(), key@) is None,
    {
        match find_key(&self.store, key) {
            Some(i) => {
                proof {
                    lemma_lookup_at(self.store@, i as int);
                }
                Some(&self.store[i].1)
            },
            None => None,
        }
    }

    /// Removes the entry for a name, moving the last entry into its place.
    pub fn remove(&mut self, key: &str)
        requires
            old(self).wf(),
        ensures
            final(self).wf(),
            has_key(old(self).entries(), key@) ==> final(self).entries() == old(self).entries().update(
                key_index(old(self).entries(), key@),
                old(self).entries().last(),
            ).drop_last(),
            !has_key(old(self).entries(), key@) ==> final(self).entries() == old(self).entries(),
            forall|x: Seq<char>| #[trigger] lookup(final(self).entries(), x) == if x == key@ {
                None
            } else {
                lookup(old(self).entries(), x)
            },
    {
        store_remove(&mut self.store, key);
    }

    /// Sets the value for a name, unless the name is new and the pre-cache
    /// is full; then the entry is handed back.
    pub fn try_insert(&mut self, key: String, value: V) -> (r: Result<(), (String, V)>)
        requires
            old(self).wf(),
        ensures
            final(self).wf(),
            r is Err <==> (old(self).entries().len() == PRE_CACHE_SIZE && !has_key(old(self).entries(), key@)),
            r matches Err(e) ==> e == (key, value) && final(self).entries() == old(self).entries(),
            r is Ok && has_key(old(self).entries(), key@) ==> final(self).entries() == old(self).entries().update(
                key_index(old(self).entries(), key@),
                (key, value),
            ),
            r is Ok && !has_key(old(self).entries(), key@) ==> final(self).entries() == old(self).entries().push(
                (key, value),
            ),
            r is Ok ==> forall|x: Seq<char>| #[trigger] lookup(final(self).entries(), x) == if x == key@ {
                Some(value)
            } else {
                lookup(old(self).entries(), x)
            },
    {
        match find_key(&self.store, key.as_str()) {
            Some(_) => {
                store_insert(&mut self.store, key, value);
                Ok(())
            },
            None => {
                if self.store.len() == PRE_CACHE_SIZE {
                    Err((key, value))
                } else {
                    store_insert(&mut self.store, key, value);
                    Ok(())
                }
            },
        }
    }

    /// Takes all the entries out, in order.
    pub fn drain(&mut self) -> (r: Vec<(String, V)>)
        requires
            old(self).wf(),
        ensures
            final(self).wf(),
            final(self).entries() == Seq::<(String, V)>::empty(),
            r@ == old(self).entries(),
    {
        let mut out: Vec<(String, V)> = Vec::new();
        std::mem::swap(&mut out, &mut self.store);
        out
    }
}

/// The names of the glyphs whose components include `base`: each glyph once
/// for each such component, in the order of the glyphs and of their
/// components.
pub open spec fn users_of(glyphs: Seq<(String, Vec<String>)>, base: Seq<char>) -> Seq<Seq<char>>
    decreases glyphs.len(),
{
    if glyphs.len() == 0 {
        Seq::empty()
    } else {
        users_of(glyphs.drop_last(), base) + uses_in(glyphs.last().0@, glyphs.last().1@, base)
    }
}

/// The name `glyph` once for each of `components` that is `base`.
pub open spec fn uses_in(glyph: Seq<char>, components: Seq<String>, base: Seq<char>) -> Seq<Seq<char>>
    decreases components.len(),
{
    if components.len() == 0 {
        Seq::empty()
    } else {
        uses_in(glyph, components.drop_last(), base) + if components.last()@ == base {
            seq![glyph]
        } else {
            Seq::empty()
        }
    }
}

/// A list of names as plain values.
pub open spec fn names_view(v: Seq<String>) -> Seq<Seq<char>> {
    v.map_values(|s: String| s@)
}

/// Tracks which glyphs use which glyphs as components.
pub struct ComponentMap {
    inner: Vec<(String, Vec<String>)>,
}

impl ComponentMap {
    /// The glyphs using each name, by name.
    pub closed spec fn users(self, base: Seq<char>) -> Seq<Seq<char>> {
        match lookup(self.inner@, base) {
            Some(v) => names_view(v@),
            None => Seq::empty(),
        }
    }

    pub closed spec fn wf(self) -> bool {
        keys_unique(self.inner@)
    }

    /// An empty map.
    pub fn empty() -> (r: Self)
        ensures
            r.wf(),
            forall|b: Seq<char>| #[trigger] r.users(b) == Seq::<Seq<char>>::empty(),
    {
        ComponentMap { inner: Vec::new() }
    }

    /// The map of a font whose glyphs, in order, have these names and
    /// these component base names.
    pub fn new(glyphs: &[(String, Vec<String>)]) -> (r: Self)
        ensures
            r.wf(),
            forall|b: Seq<char>| #[trigger] r.users(b) == users_of(glyphs@, b),
    {
        let mut map = ComponentMap { inner: Vec::new() };
        let mut g: usize = 0;
        while g < glyphs.len()
            invariant
                0 <= g <= glyphs.len(),
                map.wf(),
                forall|b: Seq<char>| #[trigger] map.users(b) == users_of(glyphs@.take(g as int), b),
            decreases glyphs.len() - g,
        {
            let name = &glyphs[g].0;
            let comps = &glyphs[g].1;
            let ghost before_g = map;
            let mut c: usize = 0;
            while c < comps.len()
                invariant
                    0 <= c <= comps.len(),
                    g < glyphs.len(),
                    name == &glyphs@[g as int].0,
                    comps == &glyphs@[g as int].1,
                    map.wf(),
                    forall|b: Seq<char>| #[trigger] map.users(b) == before_g.users(b) + uses_in(
                        name@,
                        comps@.take(c as int),
                        b,
                    ),
                decreases comps.len() - c,
            {
                let ghost before_c = map;
                map.add_user(comps[c].as_str(), name.clone());
                proof {
                    assert(comps@.take(c + 1).drop_last() =~= comps@.take(c as int));
                    assert forall|b: Seq<char>| #[trigger] map.users(b) == before_g.users(b) + uses_in(
                        name@,
                        comps@.take(c + 1),
                        b,
                    ) by {
                        if b == comps@[c as int]@ {
                            assert(before_g.users(b) + uses_in(name@, comps@.take(c as int), b).push(name@)
                                =~= before_g.users(b) + uses_in(name@, comps@.take(c + 1), b));
                        } else {
                            assert(uses_in(name@, comps@.take(c + 1), b) =~= uses_in(name@, comps@.take(c as int), b)
                                + Seq::empty());
                        }
                    }
                }
                c += 1;
            }
            proof {
                assert(comps@.take(comps.len() as int) =~= comps@);
                assert(glyphs@.take(g + 1).drop_last() =~= glyphs@.take(g as int));
            }
            g += 1;
        }
        assert(glyphs@.take(glyphs.len() as int) =~= glyphs@);
        map
    }

    /// Records that `user` has `base` as a component.
    fn add_user(&mut self, base: &str, user: String)
        requires
            old(self).wf(),
        ensures
            final(self).wf(),
            forall|b: Seq<char>| #[trigger] final(self).users(b) == if b == base@ {
                old(self).users(b).push(user@)
            } else {
                old(self).users(b)
            },
    {
        let ghost before = self.inner@;
        match find_key(&self.inner, base) {
            Some(i) => {
                proof {
                    lemma_lookup_at(before, i as int);
                }
                let (key, mut users) = self.inner.swap_remove(i);
                let ghost mid = self.inner@;
                let ghost old_users = users@;
                users.push(user);
                let ghost new_users = users;
                let ghost k = key@;
                self.inner.push((key, users));
                proof {
                    assert forall|b: Seq<char>| #[trigger] self.users(b) == if b == base@ {
                        old(self).users(b).push(user@)
                    } else {
                        old(self).users(b)
                    } by {
                        lemma_lookup_swap_remove(before, i as int, b);
                        lemma_lookup_swap_remove(before, i as int, k);
                        lemma_lookup_push(mid, self.inner@.last(), b);
                        assert(names_view(new_users@) =~= names_view(old_users).push(user@));
                    }
                }
            },
            None => {
                let mut users: Vec<String> = Vec::new();
                let ghost u = user@;
                users.push(user);
                let ghost new_users = users;
                self.inner.push((base.to_owned(), users));
                proof {
                    assert forall|b: Seq<char>| #[trigger] self.users(b) == if b == base@ {
                        old(self).users(b).push(u)
                    } else {
                        old(self).users(b)
                    } by {
                        lemma_lookup_push(before, self.inner@.last(), b);
                        assert(names_view(new_users@) =~= seq![u]);
                        if b == base@ {
                            assert(Seq::<Seq<char>>::empty().push(u) =~= seq![u]);
                        }
                    }
                }
            },
        }
    }

    /// The glyphs that use `name` as a component.
    pub fn glyphs_containing_component(&self, name: &str) -> (r: &[String])
        requires
            self.wf(),
        ensures
            names_view(r@) == self.users(name@),
    {
        match find_key(&self.inner, name) {
            Some(i) => {
                proof {
                    lemma_lookup_at(self.inner@, i as int);
                }
                self.inner[i].1.as_slice()
            },
            None => {
                let r: &[String] = &[];
                assert(names_view(r@) =~= Seq::<Seq<char>>::empty());
                r
            },
        }
    }
}

/// The value a cache gives for a name: the pre-cache's, else the main
/// store's.
pub open spec fn cache_lookup<V>(pre: Seq<(String, V)>, main: Seq<(String, V)>, k: Seq<char>) -> Option<V> {
    match lookup(pre, k) {
        Some(v) => Some(v),
        None => lookup(main, k),
    }
}

/// The value for `k` after each entry of `s` is set, in order, over a store
/// that gave `base` for it: the last entry for `k` wins.
pub open spec fn overlay<V>(s: Seq<(String, V)>, k: Seq<char>, base: Option<V>) -> Option<V>
    decreases s.len(),
{
    if s.len() == 0 {
        base
    } else if s.last().0@ == k {
        Some(s.last().1)
    } else {
        overlay(s.drop_last(), k, base)
    }
}

/// A cache of up to date paths (or any other values) for each glyph.
pub struct BezCache<V> {
    beziers: Vec<(String, V)>,
    pre_cache: PreCache<V>,
    components: ComponentMap,
}

impl<V> BezCache<V> {
    /// The value the cache holds for a name.
    pub closed spec fn value_for(self, k: Seq<char>) -> Option<V> {
        cache_lookup(self.pre_cache.entries(), self.beziers@, k)
    }

    /// The value the main store, behind the pre-cache, holds for a name.
    pub closed spec fn stored(self, k: Seq<char>) -> Option<V> {
        lookup(self.beziers@, k)
    }

    /// The glyphs using each name as a component.
    pub closed spec fn users(self, base: Seq<char>) -> Seq<Seq<char>> {
        self.components.users(base)
    }

    pub closed spec fn wf(self) -> bool {
        &&& self.pre_cache.wf()
        &&& keys_unique(self.beziers@)
        &&& self.components.wf()
    }

    /// An empty cache.
    pub fn new() -> (r: Self)
        ensures
            r.wf(),
            forall|k: Seq<char>| #[trigger] r.value_for(k) is None,
            forall|b: Seq<char>| #[trigger] r.users(b) == Seq::<Seq<char>>::empty(),
    {
        BezCache { beziers: Vec::new(), pre_cache: PreCache::new(), components: ComponentMap::empty() }
    }

    /// Starts over with a new component map and the glyphs' rebuilt values.
    /// The pre-cache is emptied (its entries are dropped, not kept), then
    /// each entry of `rebuilt` is set in order, as a rebuild of every glyph
    /// sets it: a name that `rebuilt` does not hold keeps what the main store
    /// held for it.
    pub fn reset(&mut self, components: ComponentMap, rebuilt: Vec<(String, V)>)
        requires
            old(self).wf(),
            components.wf(),
        ensures
            final(self).wf(),
            forall|k: Seq<char>| #[trigger] final(self).value_for(k) == overlay(rebuilt@, k, old(self).stored(k)),
            forall|b: Seq<char>| #[trigger] final(self).users(b) == components.users(b),
    {
        self.components = components;
        self.pre_cache = PreCache::new();
        assert forall|k: Seq<char>| #[trigger] self.value_for(k) == old(self).stored(k) by {
            assert(!has_key(self.pre_cache.entries(), k));
        }
        self.set_all(rebuilt);
    }

    /// Drops the values of the glyphs that use `name` as a component, then
    /// sets each entry of `rebuilt`, the values rebuilt for `name` and what
    /// it is made of, in order.
    pub fn rebuild(&mut self, name: &str, rebuilt: Vec<(String, V)>)
        requires
            old(self).wf(),
        ensures
            final(self).wf(),
            forall|k: Seq<char>| #[trigger] final(self).value_for(k) == overlay(
                rebuilt@,
                k,
                if old(self).users(name@).contains(k) {
                    None
                } else {
                    old(self).value_for(k)
                },
            ),
            forall|b: Seq<char>| #[trigger] final(self).users(b) == old(self).users(b),
    {
        self.invalidate(name);
        self.set_all(rebuilt);
    }

    /// Sets each entry of `entries`, in order: the last entry for a name wins.
    pub fn set_all(&mut self, entries: Vec<(String, V)>)
        requires
            old(self).wf(),
        ensures
            final(self).wf(),
            forall|k: Seq<char>| #[trigger] final(self).value_for(k) == overlay(entries@, k, old(self).value_for(k)),
            forall|b: Seq<char>| #[trigger] final(self).users(b) == old(self).users(b),
    {
        let ghost all = entries@;
        let mut rest = entries;
        assert(all.skip(0) =~= all);
        assert(all.take(0) =~= Seq::<(String, V)>::empty());
        while rest.len() > 0
            invariant
                self.wf(),
                rest@.len() <= all.len(),
                rest@ == all.skip(all.len() - rest@.len()),
                forall|b: Seq<char>| #[trigger] self.users(b) == old(self).users(b),
                forall|k: Seq<char>| #[trigger] self.value_for(k) == overlay(
                    all.take(all.len() - rest@.len()),
                    k,
                    old(self).value_for(k),
                ),
            decreases rest.len(),
        {
            let ghost d = all.len() - rest@.len();
            let (name, value) = rest.remove(0);
            let ghost e = all[d];
            assert(rest@ =~= all.skip(d + 1));
            let ghost before = *self;
            self.set(name, value);
            proof {
                assert(all.take(d + 1).drop_last() =~= all.take(d));
                assert(all.take(d + 1).last() == e);
                assert forall|k: Seq<char>| #[trigger] self.value_for(k) == overlay(
                    all.take(d + 1),
                    k,
                    old(self).value_for(k),
                ) by {
                    assert(before.value_for(k) == overlay(all.take(d), k, old(self).value_for(k)));
                }
            }
        }
        assert(all.take(all.len() as int) =~= all);
    }

    /// The value for a name.
    pub fn get(&self, name: &str) -> (r: Option<&V>)
        requires
            self.wf(),
        ensures
            r matches Some(v) ==> self.value_for(name@) == Some(*v),
            r is None ==> self.value_for(name@) is None,
    {
        match self.pre_cache.get(name) {
            Some(v) => Some(v),
            None => match find_key(&self.beziers, name) {
                Some(i) => {
                    proof {
                        lemma_lookup_at(self.beziers@, i as int);
                    }
                    Some(&self.beziers[i].1)
                },
                None => None,
            },
        }
    }

    /// Sets the value for a name. It goes to the pre-cache; when that is
    /// full, it goes to the main store, along with everything the pre-cache
    /// held.
    pub fn set(&mut self, name: String, value: V)
        requires
            old(self).wf(),
        ensures
            final(self).wf(),
            forall|k: Seq<char>| #[trigger] final(self).value_for(k) == if k == name@ {
                Some(value)
            } else {
                old(self).value_for(k)
            },
            forall|b: Seq<char>| #[trigger] final(self).users(b) == old(self).users(b),
    {
        let ghost n = name@;
        let ghost v = value;
        let ghost pre0 = self.pre_cache.entries();
        let ghost main0 = self.beziers@;
        match self.pre_cache.try_insert(name, value) {
            Ok(()) => {},
            Err((name, value)) => {
                // the main store takes the entry, then everything from the pre-cache
                store_insert(&mut self.beziers, name, value);
                let ghost main1 = self.beziers@;
                let mut drained = self.pre_cache.drain();
                assert(drained@.len() <= PRE_CACHE_SIZE);
                assert(pre0.skip(drained@.len() as int) =~= Seq::<(String, V)>::empty());
                assert(pre0.take(drained@.len() as int) =~= pre0);
                while drained.len() > 0
                    invariant
                        drained@ == pre0.take(drained@.len() as int),
                        drained@.len() <= pre0.len(),
                        keys_unique(pre0),
                        !has_key(pre0, n),
                        keys_unique(self.beziers@),
                        self.pre_cache.wf(),
                        self.pre_cache.entries() == Seq::<(String, V)>::empty(),
                        self.components == old(self).components,
                        self.components.wf(),
                        forall|x: Seq<char>| #[trigger] lookup(main1, x) == if x == n {
                            Some(v)
                        } else {
                            lookup(main0, x)
                        },
                        forall|x: Seq<char>| #[trigger] lookup(self.beziers@, x) == if has_key(
                            pre0.skip(drained@.len() as int),
                            x,
                        ) {
                            lookup(pre0, x)
                        } else {
                            lookup(main1, x)
                        },
                    decreases drained.len(),
                {
                    let ghost len = drained@.len() as int;
                    let ghost before = self.beziers@;
                    let (k, val) = drained.pop().unwrap();
                    let ghost e = pre0[len - 1];
                    assert(drained@ =~= pre0.take(len - 1));
                    store_insert(&mut self.beziers, k, val);
                    proof {
                        lemma_lookup_at(pre0, len - 1);
                        assert forall|x: Seq<char>| #[trigger] lookup(self.beziers@, x) == if has_key(
                            pre0.skip(len - 1),
                            x,
                        ) {
                            lookup(pre0, x)
                        } else {
                            lookup(main1, x)
                        } by {
                            let tail = pre0.skip(len - 1);
                            let rest = pre0.skip(len);
                            assert(tail =~= seq![e] + rest);
                            if x == e.0@ {
                                assert(tail[0].0@ == x);
                            } else {
                                if has_key(tail, x) {
                                    let j = choose|j: int| 0 <= j < tail.len() && (#[trigger] tail[j]).0@ == x;
                                    assert(rest[j - 1] == tail[j]);
                                }
                                if has_key(rest, x) {
                                    let j = choose|j: int| 0 <= j < rest.len() && (#[trigger] rest[j]).0@ == x;
                                    assert(tail[j + 1] == rest[j]);
                                }
                            }
                        }
                    }
                }
                proof {
                    assert(pre0.skip(0) =~= pre0);
                    assert forall|k: Seq<char>| #[trigger] self.value_for(k) == if k == n {
                        Some(v)
                    } else {
                        cache_lookup(pre0, main0, k)
                    } by {
                        assert(!has_key(self.pre_cache.entries(), k));
                    }
                }
            },
        }
    }

    /// Drops the values of the glyphs that use `name` as a component.
    pub fn invalidate(&mut self, name: &str)
        requires
            old(self).wf(),
        ensures
            final(self).wf(),
            forall|k: Seq<char>| #[trigger] final(self).value_for(k) == if old(self).users(name@).contains(k) {
                None
            } else {
                old(self).value_for(k)
            },
            forall|b: Seq<char>| #[trigger] final(self).users(b) == old(self).users(b),
    {
        let users = self.components.glyphs_containing_component(name);
        let mut i: usize = 0;
        while i < users.len()
            invariant
                0 <= i <= users.len(),
                self.wf(),
                self.components == old(self).components,
                names_view(users@) == old(self).users(name@),
                forall|k: Seq<char>| #[trigger] self.value_for(k) == if names_view(users@.take(i as int)).contains(k) {
                    None
                } else {
                    old(self).value_for(k)
                },
            decreases users.len() - i,
        {
            let ghost before = *self;
            let glyph = users[i].as_str();
            self.pre_cache.remove(glyph);
            store_remove(&mut self.beziers, glyph);
            proof {
                assert forall|k: Seq<char>| #[trigger] self.value_for(k) == if names_view(users@.take(i + 1)).contains(k) {
                    None
                } else {
                    old(self).value_for(k)
                } by {
                    let pre = names_view(users@.take(i as int));
                    let post = names_view(users@.take(i + 1));
                    assert(post =~= pre.push(users@[i as int]@));
                    if k == users@[i as int]@ {
                        assert(post[i as int] == k);
                    } else if pre.contains(k) {
                        let j = choose|j: int| 0 <= j < pre.len() && pre[j] == k;
                        assert(post[j] == k);
                    } else if post.contains(k) {
                        let j = choose|j: int| 0 <= j < post.len() && post[j] == k;
                        assert(j < i);
                        assert(pre[j] == k);
                    }
                    assert(before.value_for(k) == if pre.contains(k) { None } else { old(self).value_for(k) });
                }
            }
            i += 1;
        }
        assert(users@.take(users.len() as int) =~= users@);
    }

    /// The glyphs that use `name` as a component.
    pub fn glyphs_containing_component(&self, name: &str) -> (r: &[String])
        requires
            self.wf(),
        ensures
            names_view(r@) == self.users(name@),
    {
        self.components.glyphs_containing_component(name)
    }
}

} // verus!
