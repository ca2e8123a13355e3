//! The set of selected entities.

use std::collections::BTreeSet;
use vstd::prelude::*;
use crate::point::EntityId;
use vstd::std_specs::cmp::OrdSpec;

verus! {

broadcast use {
    vstd::std_specs::btree::group_btree_axioms,
    vstd::laws_cmp::group_laws_cmp,
    EntityId::lemma_key_roundtrip,
    EntityId::lemma_from_key,
    vstd::seq_lib::group_seq_properties,
};

/// A sorted set of selected items.
pub struct Selection {
    items: BTreeSet<(usize, usize)>,
}

impl View for Selection {
    type V = Set<EntityId>;

    closed spec fn view(&self) -> Set<EntityId> {
        self.items@.map(|k: (usize, usize)| EntityId::from_key(k))
    }
}

impl Selection {
    #[verifier::type_invariant]
    spec fn inv(self) -> bool {
        self.items@.finite()
    }

    proof fn lemma_view(self)
        requires
            self.inv(),
        ensures
            forall|e: EntityId| #[trigger] self@.contains(e) <==> self.items@.contains(e.key()),
            self@.finite(),
            self@.len() == self.items@.len(),
    {
        let f = |k: (usize, usize)| EntityId::from_key(k);
        assert forall|e: EntityId| #[trigger] self@.contains(e) <==> self.items@.contains(e.key()) by {
            if self.items@.contains(e.key()) {
                assert(f(e.key()) == e);
            }
        }
        assert(vstd::relations::injective_on(f, self.items@)) by {
            assert forall|a: (usize, usize), b: (usize, usize)|
                self.items@.contains(a) && self.items@.contains(b) && #[trigger] f(a) == #[trigger] f(b)
                implies a == b by {
                assert(f(a).key() == a);
                assert(f(b).key() == b);
            }
        }
        vstd::set_lib::lemma_map_size(self.items@, self@, f);
    }

    /// Moves the items out, leaving this selection empty.
    fn take_items(&mut self) -> (items: BTreeSet<(usize, usize)>)
        ensures
            items@ == old(self).items@,
            items@.finite(),
            final(self)@ == Set::<EntityId>::empty(),
    {
        proof {
            use_type_invariant(&*self);
        }
        let mut items = BTreeSet::new();
        std::mem::swap(&mut items, &mut self.items);
        proof {
            use_type_invariant(&*self);
            self.lemma_view();
            assert(self@ =~= Set::<EntityId>::empty());
        }
        items
    }

    /// A selection with nothing in it.
    pub fn new() -> (s: Selection)
        ensures
            s@ == Set::<EntityId>::empty(),
    {
        let s = Selection { items: BTreeSet::new() };
        proof {
            s.lemma_view();
            assert(s@ =~= Set::<EntityId>::empty());
        }
        s
    }

    /// Returns the number of items in the selection.
    pub fn len(&self) -> (r: usize)
        ensures
            r == self@.len(),
    {
        proof {
            use_type_invariant(self);
            self.lemma_view();
        }
        self.items.len()
    }

    /// Returns `true` if there are no selected items.
    pub fn is_empty(&self) -> (r: bool)
        ensures
            r == (self@.len() == 0),
            r == (self@ == Set::<EntityId>::empty()),
    {
        proof {
            use_type_invariant(self);
            self.lemma_view();
            if self@.len() == 0 {
                assert(self@ =~= Set::<EntityId>::empty());
            }
        }
        self.items.is_empty()
    }

    /// Returns `true` if the selection contains this item.
    pub fn contains(&self, item: &EntityId) -> (r: bool)
        ensures
            r == self@.contains(*item),
    {
        proof {
            use_type_invariant(self);
            self.lemma_view();
        }
        let k = item.key_pair();
        self.items.contains(&k)
    }

    /// Add an item to the selection.
    ///
    /// If the selection did not previously contain this item, `true` is returned.
    pub fn insert(&mut self, item: EntityId) -> (r: bool)
        ensures
            r == !old(self)@.contains(item),
            final(self)@ == old(self)@.insert(item),
    {
        proof {
            use_type_invariant(&*self);
            self.lemma_view();
        }
        if self.contains(&item) {
            proof {
                assert(self@.insert(item) =~= self@);
            }
            false
        } else {
            let ghost before = self@;
            let k = item.key_pair();
            let mut items = self.take_items();
            items.insert(k);
            self.items = items;
            proof {
                use_type_invariant(&*self);
                self.lemma_view();
                assert(self@ =~= before.insert(item));
            }
            true
        }
    }

    /// Remove an item from the selection.
    ///
    /// Returns `true` if the item was present in the selection.
    pub fn remove(&mut self, item: &EntityId) -> (r: bool)
        ensures
            r == old(self)@.contains(*item),
            final(self)@ == old(self)@.remove(*item),
    {
        proof {
            use_type_invariant(&*self);
            self.lemma_view();
        }
        if !self.contains(item) {
            proof {
                assert(self@.remove(*item) =~= self@);
            }
            false
        } else {
            let ghost before = self@;
            let k = item.key_pair();
            let mut items = self.take_items();
            items.remove(&k);
            self.items = items;
            proof {
                use_type_invariant(&*self);
                self.lemma_view();
                assert(self@ =~= before.remove(*item));
            }
            true
        }
    }

    /// Set the selection to contain this single item.
    pub fn select_one(&mut self, item: EntityId)
        ensures
            final(self)@ == Set::<EntityId>::empty().insert(item),
    {
        let mut items = BTreeSet::new();
        let k = item.key_pair();
        items.insert(k);
        self.items = items;
        proof {
            use_type_invariant(&*self);
            self.lemma_view();
            assert(self@ =~= Set::<EntityId>::empty().insert(item));
        }
    }

    /// Clear the selection.
    pub fn clear(&mut self)
        ensures
            final(self)@ == Set::<EntityId>::empty(),
    {
        if !self.is_empty() {
            self.items = BTreeSet::new();
        }
        proof {
            use_type_invariant(&*self);
            self.lemma_view();
            assert(self@ =~= Set::<EntityId>::empty());
        }
    }
}


/// Keys strictly increase in lexicographic order.
pub open spec fn keys_increasing(s: Seq<(usize, usize)>) -> bool {
    forall|i: int, j: int| 0 <= i < j < s.len() ==> key_lt(#[trigger] s[i], #[trigger] s[j])
}

pub open spec fn key_lt(a: (usize, usize), b: (usize, usize)) -> bool {
    a.0 < b.0 || (a.0 == b.0 && a.1 < b.1)
}

proof fn lemma_increasing_keys(s: Seq<&(usize, usize)>)
    requires
        vstd::std_specs::btree::increasing_seq(s),
    ensures
        keys_increasing(s.unref()),
{
    assert(vstd::laws_cmp::obeys_cmp::<&(usize, usize)>());
    vstd::std_specs::btree::axiom_increasing_seq_meaning(s);
    let t = s.unref();
    assert forall|i: int, j: int| 0 <= i < j < s.len() implies key_lt(#[trigger] t[i], #[trigger] t[j]) by {
        let a: &(usize, usize) = s[i];
        let b: &(usize, usize) = s[j];
        assert(OrdSpec::cmp_spec(&a, &b) is Less);
        assert(OrdSpec::cmp_spec(a, b) is Less);
    }
}

impl Selection {
    /// The keys of the selected items, in increasing order.
    fn sorted_keys(&self) -> (r: Vec<(usize, usize)>)
        ensures
            r@.to_set() == self.items@,
            r@.no_duplicates(),
            keys_increasing(r@),
    {
        let mut out: Vec<(usize, usize)> = Vec::new();
        for k in it: self.items.iter()
            invariant
                out@ == it.seq().unref().take(it.index() as int),
                it.seq().unref().to_set() == self.items@,
                it.seq().no_duplicates(),
                vstd::std_specs::btree::increasing_seq(it.seq()),
                it.index() <= it.seq().len(),
            ensures
                out@ == it.seq().unref(),
                it.seq().unref().to_set() == self.items@,
                exists|s: Seq<&(usize, usize)>| out@ == s.unref() && vstd::std_specs::btree::increasing_seq(s),
                out@.no_duplicates(),
        {
            out.push(*k);
            assert(out@ =~= it.seq().unref().take(it.index() + 1));
        }
        proof {
            let s = choose|s: Seq<&(usize, usize)>| out@ == s.unref() && vstd::std_specs::btree::increasing_seq(s);
            lemma_increasing_keys(s);
        }
        out
    }
}


/// The ids, in increasing order of their keys.
pub open spec fn ids_increasing(s: Seq<EntityId>) -> bool {
    forall|i: int, j: int| 0 <= i < j < s.len() ==> key_lt(#[trigger] s[i].key(), #[trigger] s[j].key())
}

/// The selected ids in increasing order of their keys: the one sequence
/// that holds them so.
pub open spec fn sorted_ids(sel: Set<EntityId>) -> Seq<EntityId> {
    choose|s: Seq<EntityId>| s.to_set() == sel && ids_increasing(s)
}

/// Two sequences of ids in increasing order that hold the same ids are the
/// same sequence.
pub proof fn lemma_increasing_unique(a: Seq<EntityId>, b: Seq<EntityId>)
    requires
        ids_increasing(a),
        ids_increasing(b),
        a.to_set() == b.to_set(),
    ensures
        a == b,
    decreases a.len(),
{
    broadcast use EntityId::lemma_key_roundtrip;

    if a.len() == 0 {
        if b.len() > 0 {
            assert(b.to_set().contains(b[0]));
            assert(a.to_set().contains(b[0]));
        }
        assert(a =~= b);
    } else if b.len() == 0 {
        assert(a.to_set().contains(a[0]));
        assert(b.to_set().contains(a[0]));
    } else {
        let la = a.len() - 1;
        let lb = b.len() - 1;
        assert(a.to_set().contains(a[la]));
        assert(b.to_set().contains(a[la]));
        assert(b.to_set().contains(b[lb]));
        assert(a.to_set().contains(b[lb]));
        let j = choose|j: int| 0 <= j < b.len() && b[j] == a[la];
        let i = choose|i: int| 0 <= i < a.len() && a[i] == b[lb];
        if a[la] != b[lb] {
            assert(i != la);
            assert(j != lb);
            assert(key_lt(a[i].key(), a[la].key()));
            assert(key_lt(b[j].key(), b[lb].key()));
        }
        let da = a.drop_last();
        let db = b.drop_last();
        assert forall|e: EntityId| da.to_set().contains(e) <==> db.to_set().contains(e) by {
            if da.contains(e) {
                let k = choose|k: int| 0 <= k < da.len() && da[k] == e;
                assert(a[k] == e);
                assert(key_lt(a[k].key(), a[la].key()));
                assert(a.to_set().contains(e));
                let m = choose|m: int| 0 <= m < b.len() && b[m] == e;
                assert(m != lb);
                assert(db[m] == e);
            }
            if db.contains(e) {
                let k = choose|k: int| 0 <= k < db.len() && db[k] == e;
                assert(b[k] == e);
                assert(key_lt(b[k].key(), b[lb].key()));
                assert(b.to_set().contains(e));
                let m = choose|m: int| 0 <= m < a.len() && a[m] == e;
                assert(m != la);
                assert(da[m] == e);
            }
        }
        assert(da.to_set() =~= db.to_set());
        assert(ids_increasing(da)) by {
            assert forall|x: int, y: int| 0 <= x < y < da.len() implies key_lt(#[trigger] da[x].key(), #[trigger] da[y].key()) by {
                assert(da[x] == a[x] && da[y] == a[y]);
            }
        }
        assert(ids_increasing(db)) by {
            assert forall|x: int, y: int| 0 <= x < y < db.len() implies key_lt(#[trigger] db[x].key(), #[trigger] db[y].key()) by {
                assert(db[x] == b[x] && db[y] == b[y]);
            }
        }
        lemma_increasing_unique(da, db);
        assert(a =~= da.push(a[la]));
        assert(b =~= db.push(b[lb]));
    }
}

impl Selection {
    /// The selected ids, in increasing order.
    pub fn iter(&self) -> (r: Vec<EntityId>)
        ensures
            r@.to_set() == self@,
            r@.no_duplicates(),
            ids_increasing(r@),
            r@ == sorted_ids(self@),
    {
        proof {
            use_type_invariant(self);
            self.lemma_view();
        }
        let keys = self.sorted_keys();
        let mut out: Vec<EntityId> = Vec::new();
        let mut i: usize = 0;
        while i < keys.len()
            invariant
                0 <= i <= keys.len(),
                out@ == keys@.take(i as int).map_values(|k: (usize, usize)| EntityId::from_key(k)),
            decreases keys.len() - i,
        {
            out.push(EntityId::from_key_pair(keys[i]));
            assert(out@ =~= keys@.take(i + 1).map_values(|k: (usize, usize)| EntityId::from_key(k)));
            i += 1;
        }
        assert(keys@.take(keys.len() as int) =~= keys@);
        proof {
            assert forall|e: EntityId| #[trigger] out@.to_set().contains(e) <==> self@.contains(e) by {
                if self@.contains(e) {
                    assert(keys@.to_set().contains(e.key()));
                    let j = choose|j: int| 0 <= j < keys@.len() && keys@[j] == e.key();
                    assert(out@[j] == e);
                }
                if out@.to_set().contains(e) {
                    let j = choose|j: int| 0 <= j < out@.len() && out@[j] == e;
                    assert(keys@.to_set().contains(keys@[j]));
                }
            }
            assert(out@.to_set() =~= self@);
            assert forall|a: int, b: int| 0 <= a < b < out@.len() implies out@[a] != out@[b] by {
                assert(key_lt(keys@[a], keys@[b]));
            }
            assert(out@.to_set() == self@ && ids_increasing(out@));
            lemma_increasing_unique(out@, sorted_ids(self@));
        }
        out
    }

    /// Add every id of `ids` to the selection.
    pub fn extend(&mut self, ids: &[EntityId])
        ensures
            final(self)@ == old(self)@ + ids@.to_set(),
    {
        let ghost start = self@;
        let mut i: usize = 0;
        while i < ids.len()
            invariant
                0 <= i <= ids.len(),
                self@ == start + ids@.take(i as int).to_set(),
            decreases ids.len() - i,
        {
            self.insert(ids[i]);
            assert(ids@.take(i + 1) =~= ids@.take(i as int).push(ids[i as int]));
            assert(self@ =~= start + ids@.take(i + 1).to_set());
            i += 1;
        }
        assert(ids@.take(ids.len() as int) =~= ids@);
    }

    /// A selection holding the given ids.
    pub fn from_ids(ids: &[EntityId]) -> (s: Selection)
        ensures
            s@ == ids@.to_set(),
    {
        let mut s = Selection::new();
        s.extend(ids);
        assert(s@ =~= ids@.to_set());
        s
    }

    /// The union of two selections.
    pub fn union(&self, other: &Selection) -> (r: Selection)
        ensures
            r@ == self@ + other@,
    {
        let mut result = Selection::new();
        let mine = self.iter();
        result.extend(mine.as_slice());
        let theirs = other.iter();
        result.extend(theirs.as_slice());
        assert(result@ =~= self@ + other@);
        result
    }

    /// The symmetric difference of two selections: the ids selected in
    /// exactly one of them.
    pub fn symmetric_difference(&self, other: &Selection) -> (r: Selection)
        ensures
            r@ == (self@ - other@) + (other@ - self@),
    {
        let mut result = Selection::new();
        let mine = self.iter();
        let theirs = other.iter();
        let mut i: usize = 0;
        while i < mine.len()
            invariant
                0 <= i <= mine.len(),
                mine@.to_set() == self@,
                result@ == mine@.take(i as int).to_set() - other@,
            decreases mine.len() - i,
        {
            if !other.contains(&mine[i]) {
                result.insert(mine[i]);
            }
            assert(mine@.take(i + 1) =~= mine@.take(i as int).push(mine[i as int]));
            assert(result@ =~= mine@.take(i + 1).to_set() - other@);
            i += 1;
        }
        assert(mine@.take(mine.len() as int) =~= mine@);
        let ghost first = result@;
        let mut j: usize = 0;
        while j < theirs.len()
            invariant
                0 <= j <= theirs.len(),
                theirs@.to_set() == other@,
                result@ == first + (theirs@.take(j as int).to_set() - self@),
            decreases theirs.len() - j,
        {
            if !self.contains(&theirs[j]) {
                result.insert(theirs[j]);
            }
            assert(theirs@.take(j + 1) =~= theirs@.take(j as int).push(theirs[j as int]));
            assert(result@ =~= first + (theirs@.take(j + 1).to_set() - self@));
            j += 1;
        }
        assert(theirs@.take(theirs.len() as int) =~= theirs@);
        assert(result@ =~= (self@ - other@) + (other@ - self@));
        result
    }

    /// Returns a [`PathSelection`] object that can be used to iterate
    /// through the selection, grouped by path.
    pub fn per_path_selection(&self) -> (r: PathSelection)
        ensures
            r@.to_set() == self@,
            r@.no_duplicates(),
            ids_increasing(r@),
    {
        PathSelection { inner: self.iter() }
    }
}

impl Default for Selection {
    fn default() -> (s: Selection)
        ensures
            s@ == Set::<EntityId>::empty(),
    {
        Selection::new()
    }
}

/// A helper for iterating through a selection in per-path chunks.
///
/// To iterate, call the `iter` method; this object is reuseable.
pub struct PathSelection {
    inner: Vec<EntityId>,
}

impl View for PathSelection {
    type V = Seq<EntityId>;

    closed spec fn view(&self) -> Seq<EntityId> {
        self.inner@
    }
}

/// Whether the id at `i` starts a new group: its parent differs from the
/// parent of the id before it (for the first id, from the 'no parent' id).
pub open spec fn starts_group(s: Seq<EntityId>, i: int) -> bool {
    s[i].parent_raw() != (if i == 0 {
        crate::point::NO_PARENT_TYPE_ID
    } else {
        s[i - 1].parent_raw()
    })
}

/// The number of group starts among the first `n` ids.
pub open spec fn group_start_count(s: Seq<EntityId>, n: int) -> nat
    decreases n,
{
    if n <= 0 {
        0
    } else {
        group_start_count(s, n - 1) + if starts_group(s, n - 1) {
            1nat
        } else {
            0nat
        }
    }
}

/// Where the group that starts at `start` ends, looking from `j` on: the
/// first position whose id has another parent, or the end of `s`.
pub open spec fn group_end_from(s: Seq<EntityId>, start: int, j: int) -> int
    decreases s.len() - j,
{
    if j >= s.len() {
        s.len() as int
    } else if s[j].parent_raw() != s[start].parent_raw() {
        j
    } else {
        group_end_from(s, start, j + 1)
    }
}

/// The end of the group that starts at `start`.
pub open spec fn group_end(s: Seq<EntityId>, start: int) -> int {
    group_end_from(s, start, start + 1)
}

impl PathSelection {
    pub fn iter(&self) -> (it: PathSelectionIter<'_>)
        ensures
            it.ids() == self@,
            it.position() == 0,
    {
        PathSelectionIter { inner: self.inner.as_slice(), idx: 0 }
    }

    /// The number of distinct paths represented in the selection.
    pub fn path_len(&self) -> (r: usize)
        ensures
            r == group_start_count(self@, self@.len() as int),
    {
        let mut len: usize = 0;
        let mut prev_parent: usize = crate::point::NO_PARENT_TYPE_ID;
        let mut i: usize = 0;
        while i < self.inner.len()
            invariant
                0 <= i <= self.inner.len(),
                len == group_start_count(self.inner@, i as int),
                len <= i,
                prev_parent == (if i == 0 {
                    crate::point::NO_PARENT_TYPE_ID
                } else {
                    self.inner@[i - 1].parent_raw()
                }),
            decreases self.inner.len() - i,
        {
            let id = self.inner[i];
            if id.parent_component() != prev_parent {
                len = len + 1;
            }
            prev_parent = id.parent_component();
            i += 1;
        }
        len
    }
}

/// Iterates the groups of a [`PathSelection`]: each group is a maximal run of
/// ids with the same parent.
pub struct PathSelectionIter<'a> {
    inner: &'a [EntityId],
    idx: usize,
}

impl<'a> PathSelectionIter<'a> {
    /// All the ids being iterated.
    pub closed spec fn ids(self) -> Seq<EntityId> {
        self.inner@
    }

    /// The position of the next group.
    pub closed spec fn position(self) -> int {
        self.idx as int
    }

    /// The next group of ids that share a parent, if any is left.
    pub fn next(&mut self) -> (r: Option<Vec<EntityId>>)
        ensures
            final(self).ids() == old(self).ids(),
            old(self).position() >= old(self).ids().len() ==> r is None && final(self).position()
                == old(self).position(),
            old(self).position() < old(self).ids().len() ==> {
                let e = group_end(old(self).ids(), old(self).position());
                &&& r is Some
                &&& r->0@ == old(self).ids().subrange(old(self).position(), e)
                &&& final(self).position() == e
            },
    {
        if self.idx >= self.inner.len() {
            return None;
        }
        let start = self.idx;
        let path_id = self.inner[start];
        let mut end = start + 1;
        let mut group: Vec<EntityId> = Vec::new();
        group.push(path_id);
        while end < self.inner.len() && self.inner[end].parent_eq(path_id)
            invariant
                start < end <= self.inner.len(),
                path_id == self.inner@[start as int],
                group@ == self.inner@.subrange(start as int, end as int),
                group_end(self.inner@, start as int) == group_end_from(self.inner@, start as int, end as int),
            decreases self.inner.len() - end,
        {
            group.push(self.inner[end]);
            assert(group@ =~= self.inner@.subrange(start as int, end + 1));
            end += 1;
        }
        self.idx = end;
        Some(group)
    }
}


/// The number of groups the iterator yields from position `i` on.
pub open spec fn group_count(s: Seq<EntityId>, i: int) -> nat
    decreases s.len() - i,
{
    if i < 0 || i >= s.len() {
        0
    } else {
        let e = group_end(s, i);
        if e <= i || e > s.len() {
            0
        } else {
            1 + group_count(s, e)
        }
    }
}

proof fn lemma_group_end_from(s: Seq<EntityId>, start: int, j: int)
    requires
        0 <= start < j <= s.len(),
        forall|k: int| start <= k < j ==> (#[trigger] s[k]).parent_raw() == s[start].parent_raw(),
    ensures
        j <= group_end_from(s, start, j) <= s.len(),
        forall|k: int|
            start <= k < group_end_from(s, start, j) ==> (#[trigger] s[k]).parent_raw()
                == s[start].parent_raw(),
        group_end_from(s, start, j) < s.len() ==> s[group_end_from(s, start, j)].parent_raw()
            != s[start].parent_raw(),
    decreases s.len() - j,
{
    if j < s.len() && s[j].parent_raw() == s[start].parent_raw() {
        assert forall|k: int| start <= k < j + 1 implies (#[trigger] s[k]).parent_raw() == s[start].parent_raw() by {
        }
        lemma_group_end_from(s, start, j + 1);
    }
}

/// A group is a nonempty maximal run of ids that share their parent.
pub proof fn lemma_group_shape(s: Seq<EntityId>, start: int)
    requires
        0 <= start < s.len(),
    ensures
        start < group_end(s, start) <= s.len(),
        forall|k: int| start <= k < group_end(s, start) ==> (#[trigger] s[k]).parent_raw() == s[start].parent_raw(),
        group_end(s, start) < s.len() ==> s[group_end(s, start)].parent_raw() != s[start].parent_raw(),
{
    assert forall|k: int| start <= k < start + 1 implies (#[trigger] s[k]).parent_raw() == s[start].parent_raw() by {
    }
    lemma_group_end_from(s, start, start + 1);
}

proof fn lemma_start_count_mono(s: Seq<EntityId>, a: int, b: int)
    requires
        0 <= a <= b,
    ensures
        group_start_count(s, a) <= group_start_count(s, b),
    decreases b - a,
{
    if a < b {
        lemma_start_count_mono(s, a, b - 1);
    }
}

proof fn lemma_no_starts_inside(s: Seq<EntityId>, start: int, a: int)
    requires
        0 <= start < a <= group_end(s, start) <= s.len(),
        forall|k: int| start <= k < group_end(s, start) ==> (#[trigger] s[k]).parent_raw() == s[start].parent_raw(),
    ensures
        group_start_count(s, a) == group_start_count(s, start + 1),
    decreases a - start,
{
    if a > start + 1 {
        lemma_no_starts_inside(s, start, a - 1);
        let _ = s[a - 1];
        let _ = s[a - 2];
        assert(!starts_group(s, a - 1));
    }
}

/// Counting the group starts of a sequence counts the groups its iterator
/// yields, when the first id does have a parent.
pub proof fn lemma_path_len_counts_groups(s: Seq<EntityId>)
    requires
        s.len() > 0 ==> s[0].parent_raw() != crate::point::NO_PARENT_TYPE_ID,
    ensures
        group_start_count(s, s.len() as int) == group_count(s, 0),
{
    if s.len() > 0 {
        lemma_groups_from(s, 0);
    }
}

proof fn lemma_groups_from(s: Seq<EntityId>, i: int)
    requires
        0 <= i < s.len(),
        starts_group(s, i),
    ensures
        group_start_count(s, s.len() as int) == group_start_count(s, i) + group_count(s, i),
    decreases s.len() - i,
{
    lemma_group_shape(s, i);
    let e = group_end(s, i);
    lemma_no_starts_inside(s, i, e);
    assert(group_start_count(s, i + 1) == group_start_count(s, i) + 1);
    if e < s.len() {
        let _ = s[e];
        let _ = s[e - 1];
        assert(starts_group(s, e));
        lemma_groups_from(s, e);
    }
}

} // verus!
