//! State-dependent property values.
//!
//! A [`StatefulProperty`] stores a default value along with overrides for
//! specific [`StateFlags`] combinations. Overrides are kept sorted by
//! specificity (most states first), so the first override whose states are
//! all present in a query is the most specific one that applies.

use vstd::prelude::*;
use crate::state_flags::StateFlags;
use crate::state_flags::flags_subset;
use crate::state_flags::specificity;
use crate::state_flags::lemma_subset_specificity_le;
use crate::state_flags::lemma_subset_same_specificity_eq;
use crate::state_flags::lemma_subset_refl;

verus! {

/// Index of the first element of `s` that satisfies `p`, or `s.len()` when
/// none does.
pub open spec fn first_index<A>(s: Seq<A>, p: spec_fn(A) -> bool) -> int
    decreases s.len(),
{
    if s.len() == 0 {
        0
    } else if p(s[0]) {
        0
    } else {
        1 + first_index(s.drop_first(), p)
    }
}

/// `first_index` is the unique index before which nothing satisfies `p`
/// and at which `p` holds (or the end of the sequence).
pub proof fn lemma_first_index_is<A>(s: Seq<A>, p: spec_fn(A) -> bool, k: int)
    requires
        0 <= k <= s.len(),
        k < s.len() ==> p(s[k]),
        forall|j: int| 0 <= j < k ==> !p(#[trigger] s[j]),
    ensures
        first_index(s, p) == k,
    decreases s.len(),
{
    if s.len() == 0 {
    } else if k == 0 {
    } else {
        assert(!p(s[0]));
        let t = s.drop_first();
        assert forall|j: int| 0 <= j < k - 1 implies !p(#[trigger] t[j]) by {
            assert(t[j] == s[j + 1]);
        }
        if k - 1 < t.len() {
            assert(t[k - 1] == s[k]);
        }
        lemma_first_index_is(t, p, k - 1);
    }
}

/// What `first_index` returns: an index in bounds (or the length), at
/// which `p` holds, with no earlier element satisfying `p`.
pub proof fn lemma_first_index_props<A>(s: Seq<A>, p: spec_fn(A) -> bool)
    ensures
        0 <= first_index(s, p) <= s.len(),
        first_index(s, p) < s.len() ==> p(s[first_index(s, p)]),
        forall|j: int| 0 <= j < first_index(s, p) ==> !p(#[trigger] s[j]),
    decreases s.len(),
{
    if s.len() == 0 {
    } else if p(s[0]) {
    } else {
        let t = s.drop_first();
        lemma_first_index_props(t, p);
        let k = first_index(t, p);
        if k < t.len() {
            assert(s[k + 1] == t[k]);
        }
        assert forall|j: int| 0 <= j < first_index(s, p) implies !p(#[trigger] s[j]) by {
            if j > 0 {
                assert(s[j] == t[j - 1]);
            }
        }
    }
}

/// Abstract contents of a [`StatefulProperty`]: its default value and its
/// overrides in lookup order.
#[verifier::ext_equal]
pub struct PropertyModel<T> {
    pub default: T,
    pub overrides: Seq<(StateFlags, T)>,
}

/// The override entries that apply in `state`: those whose states are all in `state`.
pub open spec fn applies_in<T>(state: StateFlags) -> spec_fn((StateFlags, T)) -> bool {
    |e: (StateFlags, T)| flags_subset(e.0, state)
}

/// Position of the first override that applies in `state`.
pub open spec fn match_index<T>(m: PropertyModel<T>, state: StateFlags) -> int {
    first_index(m.overrides, applies_in::<T>(state))
}

/// The value a property has in `state`: the first applicable override, or
/// the default when none applies.
pub open spec fn lookup<T>(m: PropertyModel<T>, state: StateFlags) -> T {
    let k = match_index(m, state);
    if k < m.overrides.len() {
        m.overrides[k].1
    } else {
        m.default
    }
}

/// Overrides are ordered by non-increasing specificity.
pub open spec fn sorted_by_specificity<T>(ovs: Seq<(StateFlags, T)>) -> bool {
    forall|i: int, j: int|
        0 <= i < j < ovs.len() ==> specificity(#[trigger] ovs[i].0) >= specificity(
            #[trigger] ovs[j].0,
        )
}

/// No two overrides are for the same state combination.
pub open spec fn distinct_flags<T>(ovs: Seq<(StateFlags, T)>) -> bool {
    forall|i: int, j: int|
        0 <= i < ovs.len() && 0 <= j < ovs.len() && i != j ==> #[trigger] ovs[i].0
            != #[trigger] ovs[j].0
}

/// The invariant of a property's overrides.
pub open spec fn model_wf<T>(m: PropertyModel<T>) -> bool {
    sorted_by_specificity(m.overrides) && distinct_flags(m.overrides)
}

/// Entries for exactly the combination `f`.
pub open spec fn same_flags<T>(f: StateFlags) -> spec_fn((StateFlags, T)) -> bool {
    |e: (StateFlags, T)| e.0 == f
}

/// Entries strictly less specific than `f`.
pub open spec fn less_specific<T>(f: StateFlags) -> spec_fn((StateFlags, T)) -> bool {
    |e: (StateFlags, T)| specificity(e.0) < specificity(f)
}

/// Where `set(f, _)` puts its override when `f` has none yet: after every
/// override at least as specific as `f`.
pub open spec fn insert_position<T>(ovs: Seq<(StateFlags, T)>, f: StateFlags) -> int {
    first_index(ovs, less_specific::<T>(f))
}

/// The model after `set(f, v)`: the override for exactly `f` is replaced if
/// there is one; otherwise a new one is inserted in specificity order.
pub open spec fn model_set<T>(m: PropertyModel<T>, f: StateFlags, v: T) -> PropertyModel<T> {
    let e = first_index(m.overrides, same_flags::<T>(f));
    if e < m.overrides.len() {
        PropertyModel { default: m.default, overrides: m.overrides.update(e, (f, v)) }
    } else {
        PropertyModel {
            default: m.default,
            overrides: m.overrides.insert(insert_position(m.overrides, f), (f, v)),
        }
    }
}

/// A property value that varies with widget state.
///
/// Overrides are sorted by specificity (descending number of states) so
/// that more specific state combinations are checked first during lookup.
pub struct StatefulProperty<T> {
    default: T,
    overrides: Vec<(StateFlags, T)>,
}

impl<T> View for StatefulProperty<T> {
    type V = PropertyModel<T>;

    closed spec fn view(&self) -> PropertyModel<T> {
        PropertyModel { default: self.default, overrides: self.overrides@ }
    }
}

impl<T> StatefulProperty<T> {
    /// The property's invariant: overrides sorted by specificity, one per
    /// state combination.
    pub open spec fn wf(&self) -> bool {
        model_wf(self@)
    }

    /// Create a new stateful property with the given default value.
    pub fn new(default: T) -> (r: Self)
        ensures
            r@ == (PropertyModel { default, overrides: Seq::<(StateFlags, T)>::empty() }),
            r.wf(),
    {
        StatefulProperty { default, overrides: Vec::new() }
    }

    /// Set a value for the given state flags.
    ///
    /// If an override for these exact flags already exists, it is replaced.
    /// Otherwise a new override is inserted after every override that is at
    /// least as specific.
    pub fn set(&mut self, flags: StateFlags, value: T)
        requires
            old(self).wf(),
        ensures
            final(self)@ == model_set(old(self)@, flags, value),
            final(self).wf(),
    {
        let ghost m = self@;
        let n = self.overrides.len();
        let mut i: usize = 0;
        while i < n
            invariant
                n == self.overrides.len(),
                i <= n,
                self@ == m,
                m == old(self)@,
                model_wf(m),
                forall|j: int| 0 <= j < i ==> !(#[trigger] same_flags::<T>(flags)(m.overrides[j])),
            decreases n - i,
        {
            if self.overrides[i].0 == flags {
                proof {
                    lemma_first_index_is(m.overrides, same_flags::<T>(flags), i as int);
                }
                self.overrides[i] = (flags, value);
                proof {
                    assert(self@.overrides == m.overrides.update(i as int, (flags, value)));
                    assert(self@ =~= model_set(m, flags, value));
                    lemma_set_keeps_wf(m, flags, value);
                }
                return;
            }
            i += 1;
        }
        proof {
            lemma_first_index_is(m.overrides, same_flags::<T>(flags), n as int);
        }
        let c = flags.count_ones();
        let mut pos: usize = 0;
        while pos < n && self.overrides[pos].0.count_ones() >= c
            invariant
                n == self.overrides.len(),
                pos <= n,
                self@ == m,
                c == specificity(flags),
                forall|j: int| 0 <= j < pos ==> !(#[trigger] less_specific::<T>(flags)(m.overrides[j])),
            decreases n - pos,
        {
            pos += 1;
        }
        proof {
            lemma_first_index_is(m.overrides, less_specific::<T>(flags), pos as int);
            lemma_set_keeps_wf(m, flags, value);
        }
        self.overrides.insert(pos, (flags, value));
    }

    /// A reference to the value for a given state: the first (most
    /// specific) override whose states are all present in `state`, or the
    /// default when no override applies.
    pub fn get_ref(&self, state: StateFlags) -> (r: &T)
        ensures
            *r == lookup(self@, state),
    {
        let n = self.overrides.len();
        let mut i: usize = 0;
        while i < n
            invariant
                n == self.overrides.len(),
                i <= n,
                forall|j: int| 0 <= j < i ==> !(#[trigger] applies_in::<T>(state)(self@.overrides[j])),
            decreases n - i,
        {
            if state.contains(self.overrides[i].0) {
                proof {
                    lemma_first_index_is(self@.overrides, applies_in::<T>(state), i as int);
                }
                return &self.overrides[i].1;
            }
            i += 1;
        }
        proof {
            lemma_first_index_is(self@.overrides, applies_in::<T>(state), n as int);
        }
        &self.default
    }
}

impl<T: Clone> StatefulProperty<T> {
    /// Get the value for a given state (a clone of what `get_ref` refers to).
    pub fn get(&self, state: StateFlags) -> (r: T)
        ensures
            vstd::pervasive::cloned(lookup(self@, state), r),
    {
        self.get_ref(state).clone()
    }
}

impl<T: Copy> StatefulProperty<T> {
    /// An exact copy of the property.
    pub fn duplicate(&self) -> (r: Self)
        ensures
            r@ == self@,
    {
        let n = self.overrides.len();
        let mut overrides: Vec<(StateFlags, T)> = Vec::new();
        let mut i: usize = 0;
        while i < n
            invariant
                n == self.overrides.len(),
                i <= n,
                overrides@ == self.overrides@.subrange(0, i as int),
            decreases n - i,
        {
            let e = self.overrides[i];
            overrides.push(e);
            proof {
                assert(self.overrides@.subrange(0, i + 1) == self.overrides@.subrange(
                    0,
                    i as int,
                ).push(e));
            }
            i += 1;
        }
        proof {
            assert(self.overrides@.subrange(0, n as int) == self.overrides@);
        }
        StatefulProperty { default: self.default, overrides }
    }
}

/// `set` keeps the overrides sorted by specificity and free of duplicate
/// state combinations.
pub proof fn lemma_set_keeps_wf<T>(m: PropertyModel<T>, f: StateFlags, v: T)
    requires
        model_wf(m),
    ensures
        model_wf(model_set(m, f, v)),
{
    let ovs = m.overrides;
    let e = first_index(ovs, same_flags::<T>(f));
    lemma_first_index_props(ovs, same_flags::<T>(f));
    let r = model_set(m, f, v).overrides;
    if e < ovs.len() {
        assert forall|i: int, j: int| 0 <= i < j < r.len() implies specificity(
            #[trigger] r[i].0,
        ) >= specificity(#[trigger] r[j].0) by {
            assert(ovs[i].0 == r[i].0 || i == e);
            assert(ovs[j].0 == r[j].0 || j == e);
        }
        assert forall|i: int, j: int|
            0 <= i < r.len() && 0 <= j < r.len() && i != j implies #[trigger] r[i].0
            != #[trigger] r[j].0 by {
            assert(ovs[i].0 == r[i].0 || i == e);
            assert(ovs[j].0 == r[j].0 || j == e);
        }
    } else {
        let p = insert_position(ovs, f);
        lemma_first_index_props(ovs, less_specific::<T>(f));
        assert forall|i: int, j: int| 0 <= i < j < r.len() implies specificity(
            #[trigger] r[i].0,
        ) >= specificity(#[trigger] r[j].0) by {
            if j < p {
                assert(r[i] == ovs[i] && r[j] == ovs[j]);
            } else if j == p {
                assert(r[i] == ovs[i]);
                assert(!less_specific::<T>(f)(ovs[i]));
            } else if i < p {
                assert(r[i] == ovs[i] && r[j] == ovs[j - 1]);
            } else if i == p {
                assert(r[j] == ovs[j - 1]);
                assert(less_specific::<T>(f)(ovs[p]));
                if j - 1 > p {
                    assert(specificity(ovs[p].0) >= specificity(ovs[j - 1].0));
                }
            } else {
                assert(r[i] == ovs[i - 1] && r[j] == ovs[j - 1]);
            }
        }
        assert forall|i: int, j: int|
            0 <= i < r.len() && 0 <= j < r.len() && i != j implies #[trigger] r[i].0
            != #[trigger] r[j].0 by {
            if i != p && j != p {
                let ii = if i < p { i } else { i - 1 };
                let jj = if j < p { j } else { j - 1 };
                assert(r[i] == ovs[ii] && r[j] == ovs[jj]);
            } else if i == p {
                let jj = if j < p { j } else { j - 1 };
                assert(r[j] == ovs[jj]);
                assert(!same_flags::<T>(f)(ovs[jj]));
            } else {
                let ii = if i < p { i } else { i - 1 };
                assert(r[i] == ovs[ii]);
                assert(!same_flags::<T>(f)(ovs[ii]));
            }
        }
    }
}

/// Lookup picks the most specific override that applies: the value for
/// `state` comes from an applicable override that no other applicable
/// override outranks in specificity, or from the default when none applies.
pub proof fn lemma_lookup_most_specific<T>(m: PropertyModel<T>, state: StateFlags)
    requires
        model_wf(m),
    ensures
        match_index(m, state) < m.overrides.len() ==> {
            &&& flags_subset(m.overrides[match_index(m, state)].0, state)
            &&& lookup(m, state) == m.overrides[match_index(m, state)].1
            &&& forall|j: int|
                0 <= j < m.overrides.len() && flags_subset(#[trigger] m.overrides[j].0, state)
                    ==> specificity(m.overrides[j].0) <= specificity(
                    m.overrides[match_index(m, state)].0,
                )
        },
        match_index(m, state) == m.overrides.len() ==> {
            &&& lookup(m, state) == m.default
            &&& forall|j: int|
                0 <= j < m.overrides.len() ==> !flags_subset(#[trigger] m.overrides[j].0, state)
        },
{
    lemma_first_index_props(m.overrides, applies_in::<T>(state));
    let k = match_index(m, state);
    assert forall|j: int|
        0 <= j < m.overrides.len() && flags_subset(#[trigger] m.overrides[j].0, state) implies k
        < m.overrides.len() && specificity(m.overrides[j].0) <= specificity(
        m.overrides[k].0,
    ) by {
        assert(applies_in::<T>(state)(m.overrides[j]));
        assert(j >= k);
    }
}

/// Read after write: once `set(f, v)` has run, the value for exactly the
/// states `f` is `v`.
pub proof fn lemma_get_after_set<T>(m: PropertyModel<T>, f: StateFlags, v: T)
    requires
        model_wf(m),
    ensures
        lookup(model_set(m, f, v), f) == v,
{
    lemma_set_keeps_wf(m, f, v);
    let m2 = model_set(m, f, v);
    let ovs = m.overrides;
    let r = m2.overrides;
    lemma_first_index_props(ovs, same_flags::<T>(f));
    lemma_first_index_props(ovs, less_specific::<T>(f));
    let e = first_index(ovs, same_flags::<T>(f));
    let p = if e < ovs.len() { e } else { insert_position(ovs, f) };
    assert(r[p] == (f, v));
    lemma_subset_refl(f);
    assert forall|j: int| 0 <= j < p implies !(#[trigger] applies_in::<T>(f)(r[j])) by {
        if flags_subset(r[j].0, f) {
            lemma_subset_specificity_le(r[j].0, f);
            assert(specificity(r[j].0) >= specificity(r[p].0));
            lemma_subset_same_specificity_eq(r[j].0, f);
        }
    }
    lemma_first_index_is(r, applies_in::<T>(f), p);
}

/// Writing the states `f` leaves the value of every query that does not
/// contain all of `f` unchanged.
pub proof fn lemma_set_other_states_unchanged<T>(
    m: PropertyModel<T>,
    f: StateFlags,
    v: T,
    state: StateFlags,
)
    requires
        model_wf(m),
        !flags_subset(f, state),
    ensures
        lookup(model_set(m, f, v), state) == lookup(m, state),
{
    let ovs = m.overrides;
    let r = model_set(m, f, v).overrides;
    lemma_first_index_props(ovs, same_flags::<T>(f));
    lemma_first_index_props(ovs, less_specific::<T>(f));
    lemma_first_index_props(ovs, applies_in::<T>(state));
    let e = first_index(ovs, same_flags::<T>(f));
    let p = if e < ovs.len() { e } else { insert_position(ovs, f) };
    let k = match_index(m, state);
    if e < ovs.len() {
        assert(r.len() == ovs.len());
        assert forall|j: int| 0 <= j < k implies !(#[trigger] applies_in::<T>(state)(r[j])) by {
            if j != p {
                assert(r[j] == ovs[j]);
            }
        }
        if k < ovs.len() {
            assert(k != p);
            assert(r[k] == ovs[k]);
        }
        lemma_first_index_is(r, applies_in::<T>(state), k);
    } else {
        let k2 = if k < p { k } else { k + 1 };
        assert forall|j: int| 0 <= j < k2 implies !(#[trigger] applies_in::<T>(state)(r[j])) by {
            if j < p {
                assert(r[j] == ovs[j]);
            } else if j > p {
                assert(r[j] == ovs[j - 1]);
            }
        }
        if k2 < r.len() {
            if k < p {
                assert(r[k2] == ovs[k]);
            } else {
                assert(r[k2] == ovs[k]);
            }
        }
        lemma_first_index_is(r, applies_in::<T>(state), k2);
    }
}

} // verus!
