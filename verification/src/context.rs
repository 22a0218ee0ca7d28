//! Per-widget state kept across frames, keyed by widget identifier, with the
//! frame bookkeeping that drops the state of widgets not built in a frame.

use vstd::prelude::*;
use std::collections::HashMap;
use vstd::std_specs::hash::spec_hash_map_iter;
use vstd::std_specs::iter::IteratorSpec;
use crate::id::WidgetId;
use crate::text::StaticTextLayoutId;
use crate::text::TextLayoutId;
use crate::widget::WidgetState;

verus! {

broadcast use vstd::std_specs::hash::group_hash_axioms;

/// The state of one widget together with where it was laid out and the
/// frame in which it was last used.
#[derive(Clone, Copy, Debug)]
pub struct WidgetContainer<P> {
    pub state: WidgetState,
    /// Where the widget was placed by the last layout.
    pub placement: P,
    /// The frame counter at the widget's last use.
    pub frame_last_used: u64,
}

/// The states of all widgets that are alive, keyed by widget identifier.
pub struct WidgetStates<P> {
    states: HashMap<u64, WidgetContainer<P>>,
    frame_counter: u64,
    default_placement: P,
}

impl<P: Copy> WidgetStates<P> {
    /// The containers by widget identifier value.
    pub closed spec fn states(&self) -> Map<u64, WidgetContainer<P>> {
        self.states@
    }

    /// The number of the current frame.
    pub closed spec fn frame(&self) -> u64 {
        self.frame_counter
    }

    /// The placement a widget has before it is first laid out.
    pub closed spec fn initial_placement(&self) -> P {
        self.default_placement
    }

    /// The container that a widget gets on its first use in the current
    /// frame.
    pub open spec fn fresh_container(&self, c: WidgetContainer<P>) -> bool {
        &&& c.state.is_fresh()
        &&& c.placement == self.initial_placement()
        &&& c.frame_last_used == self.frame()
    }

    /// The container of `id` after `state_mut`: the existing one, or a fresh
    /// one.
    pub open spec fn entry(&self, id: WidgetId) -> WidgetContainer<P> {
        self.states()[id@]
    }

    /// No widget state yet, frame zero; `placement` is where a widget is
    /// taken to be before its first layout.
    pub fn new(placement: P) -> (r: Self)
        ensures
            r.states() == Map::<u64, WidgetContainer<P>>::empty(),
            r.frame() == 0,
            r.initial_placement() == placement,
    {
        WidgetStates { states: HashMap::new(), frame_counter: 0, default_placement: placement }
    }

    /// The number of the current frame.
    pub fn frame_counter(&self) -> (r: u64)
        ensures
            r == self.frame(),
    {
        self.frame_counter
    }

    /// The number of widgets with state.
    pub fn len(&self) -> (r: usize)
        ensures
            r == self.states().len(),
    {
        self.states.len()
    }

    /// The container of a widget, if it has one.
    pub fn get(&self, id: WidgetId) -> (r: Option<&WidgetContainer<P>>)
        ensures
            r is Some <==> self.states().contains_key(id@),
            r matches Some(c) ==> *c == self.states()[id@],
    {
        let key = id.value();
        self.states.get(&key)
    }

    /// The state of a widget, created fresh (and marked used in the current
    /// frame) when the widget has none yet.
    pub fn state_mut(&mut self, id: WidgetId) -> (r: &mut WidgetState)
        ensures
            final(self).frame() == old(self).frame(),
            final(self).initial_placement() == old(self).initial_placement(),
            old(self).states().contains_key(id@) ==> *r == old(self).states()[id@].state,
            !old(self).states().contains_key(id@) ==> (*r).is_fresh(),
            final(self).states() == old(self).states().insert(
                id@,
                WidgetContainer {
                    state: *final(r),
                    ..(if old(self).states().contains_key(id@) {
                        old(self).states()[id@]
                    } else {
                        WidgetContainer {
                            state: *r,
                            placement: old(self).initial_placement(),
                            frame_last_used: old(self).frame(),
                        }
                    })
                },
            ),
    {
        let fresh = WidgetContainer {
            state: WidgetState::new(),
            placement: self.default_placement,
            frame_last_used: self.frame_counter,
        };
        let key = id.value();
        let container = self.states.entry(key).or_insert(fresh);
        &mut container.state
    }

    /// Record where a widget's node was laid out this frame: its placement,
    /// layer and modality, and that it was used in this frame.
    pub fn record_layout(&mut self, id: WidgetId, placement: P, layer: u8, is_modal: bool)
        ensures
            final(self).frame() == old(self).frame(),
            final(self).initial_placement() == old(self).initial_placement(),
            final(self).states() == old(self).states().insert(id@, final(self).states()[id@]),
            final(self).states()[id@].frame_last_used == old(self).frame(),
            final(self).states()[id@].placement == placement,
            final(self).states()[id@].state.layer == layer,
            final(self).states()[id@].state.is_modal == is_modal,
            old(self).states().contains_key(id@) ==> final(self).states()[id@].state
                == (WidgetState { layer, is_modal, ..old(self).states()[id@].state }),
            !old(self).states().contains_key(id@) ==> final(self).states()[id@].state.is_blank(),
    {
        let fresh = WidgetContainer {
            state: WidgetState::new(),
            placement: self.default_placement,
            frame_last_used: self.frame_counter,
        };
        let key = id.value();
        let container = self.states.entry(key).or_insert(fresh);
        container.frame_last_used = self.frame_counter;
        container.placement = placement;
        container.state.layer = layer;
        container.state.is_modal = is_modal;
    }

    /// The static text layout of a widget: the one it has, or one made by
    /// `create` and stored in its state (which is created when missing).
    pub fn static_text_layout<F: FnOnce() -> StaticTextLayoutId>(
        &mut self,
        id: WidgetId,
        create: F,
    ) -> (r: StaticTextLayoutId)
        requires
            call_requires(create, ()),
        ensures
            final(self).frame() == old(self).frame(),
            final(self).initial_placement() == old(self).initial_placement(),
            final(self).states() == old(self).states().insert(id@, final(self).states()[id@]),
            final(self).states()[id@].state.text_layout == Some(TextLayoutId::Static(r)),
            old(self).states().contains_key(id@) ==> {
                let c = old(self).states()[id@];
                &&& final(self).states()[id@] == (WidgetContainer {
                    state: WidgetState { text_layout: Some(TextLayoutId::Static(r)), ..c.state },
                    ..c
                })
                &&& c.state.text_layout matches Some(TextLayoutId::Static(x)) ==> r == x
                &&& c.state.text_layout is None ==> call_ensures(create, (), r)
            },
            !old(self).states().contains_key(id@) ==> {
                let c = final(self).states()[id@];
                &&& call_ensures(create, (), r)
                &&& c.placement == old(self).initial_placement()
                &&& c.frame_last_used == old(self).frame()
                &&& c.state.wf()
                &&& c.state.custom_data.data_size() == 0
                &&& !c.state.was_active
                &&& c.state.layer == 0
                &&& !c.state.is_modal
            },
    {
        let state = self.state_mut(id);
        match state.text_layout {
            Some(TextLayoutId::Static(existing)) => existing,
            None => {
                let created = create();
                state.text_layout = Some(TextLayoutId::Static(created));
                created
            },
        }
    }
    /// The placement, layer and modality a container records.
    pub open spec fn layout_of(c: WidgetContainer<P>) -> (P, u8, bool) {
        (c.placement, c.state.layer, c.state.is_modal)
    }

    /// Whether some widget with state was last laid out as `t` says.
    pub open spec fn has_layout(&self, t: (P, u8, bool)) -> bool {
        exists|k: u64| #[trigger] self.states().contains_key(k) && t == Self::layout_of(self.states()[k])
    }

    /// Where, on which layer and whether modal each widget was last laid
    /// out: one element per widget with state, in no particular order.
    pub fn placements(&self) -> (r: Vec<(P, u8, bool)>)
        ensures
            r@.len() == self.states().len(),
            forall|i: int| 0 <= i < r@.len() ==> self.has_layout(#[trigger] r@[i]),
            forall|k: u64|
                #[trigger] self.states().contains_key(k) ==> exists|i: int|
                    0 <= i < r@.len() && r@[i] == Self::layout_of(self.states()[k]),
    {
        let mut r: Vec<(P, u8, bool)> = Vec::new();
        let ghost items = spec_hash_map_iter(&self.states).remaining();
        for (k, c) in it: self.states.iter()
            invariant
                it.seq() == items,
                items == spec_hash_map_iter(&self.states).remaining(),
                r@.len() == it.index(),
                forall|i: int|
                    0 <= i < r@.len() ==> r@[i] == (
                        items[i].1.placement,
                        items[i].1.state.layer,
                        items[i].1.state.is_modal,
                    ),
        {
            r.push((c.placement, c.state.layer, c.state.is_modal));
        }
        proof {
            let m = self.states@;
            assert forall|i: int| 0 <= i < r@.len() implies self.has_layout(#[trigger] r@[i]) by {
                let k = *items[i].0;
                assert(m.contains_key(k) && m[k] == *items[i].1);
                assert(self.states().contains_key(k));
            }
            assert forall|k: u64| #[trigger] m.contains_key(k) implies exists|i: int|
                0 <= i < r@.len() && r@[i] == (
                    m[k].placement,
                    m[k].state.layer,
                    m[k].state.is_modal,
                ) by {
                assert(items.contains((&k, &m[k])));
                let i = choose|i: int| 0 <= i < items.len() && items[i] == (&k, &m[k]);
                assert(r@[i] == (m[k].placement, m[k].state.layer, m[k].state.is_modal));
            }
        }
        r
    }
    /// The containers that outlive the end of frame `frame`: those used in
    /// it (or later).
    pub open spec fn survivors(m: Map<u64, WidgetContainer<P>>, frame: u64) -> Map<
        u64,
        WidgetContainer<P>,
    > {
        m.restrict(m.dom().filter(|k: u64| m[k].frame_last_used >= frame))
    }

    /// Whether `t` is the text layout of a widget whose state the end of
    /// frame `frame` drops.
    pub open spec fn releases(m: Map<u64, WidgetContainer<P>>, frame: u64, t: TextLayoutId) -> bool {
        exists|k: u64|
            #[trigger] m.contains_key(k) && m[k].frame_last_used < frame && m[k].state.text_layout
                == Some(t)
    }

    /// Whether `ks` lists, once each, every widget whose state the end of
    /// frame `frame` drops and that held a text layout, and `r` holds those
    /// layouts in the same order.
    pub open spec fn released_once(
        m: Map<u64, WidgetContainer<P>>,
        frame: u64,
        ks: Seq<u64>,
        r: Seq<TextLayoutId>,
    ) -> bool {
        &&& ks.no_duplicates()
        &&& ks.len() == r.len()
        &&& forall|i: int|
            0 <= i < ks.len() ==> {
                &&& m.contains_key(#[trigger] ks[i])
                &&& m[ks[i]].frame_last_used < frame
                &&& m[ks[i]].state.text_layout == Some(r[i])
            }
        &&& forall|k: u64|
            #[trigger] m.contains_key(k) && m[k].frame_last_used < frame
                && m[k].state.text_layout is Some ==> ks.contains(k)
    }

    /// End the frame: drop the state of every widget not used in it, hand
    /// back the text layouts those states held so they can be freed (one
    /// entry per dropped state that held one), and advance the frame
    /// counter.
    pub fn end_frame(&mut self) -> (r: Vec<TextLayoutId>)
        requires
            old(self).frame() < u64::MAX,
        ensures
            final(self).frame() == old(self).frame() + 1,
            final(self).initial_placement() == old(self).initial_placement(),
            final(self).states() == Self::survivors(old(self).states(), old(self).frame()),
            forall|i: int|
                0 <= i < r@.len() ==> Self::releases(old(self).states(), old(self).frame(), #[trigger] r@[i]),
            forall|k: u64|
                #[trigger] old(self).states().contains_key(k) && old(self).states()[k].frame_last_used
                    < old(self).frame() && old(self).states()[k].state.text_layout is Some ==> r@.contains(
                    old(self).states()[k].state.text_layout->0,
                ),
            exists|ks: Seq<u64>| Self::released_once(old(self).states(), old(self).frame(), ks, r@),
    {
        let ghost m0 = self.states@;
        let ghost placement = self.default_placement;
        let frame = self.frame_counter;
        let mut evicted: Vec<u64> = Vec::new();
        let mut released: Vec<TextLayoutId> = Vec::new();
        let ghost items = spec_hash_map_iter(&self.states).remaining();
        let ghost mut ks: Seq<u64> = Seq::empty();
        for (k, c) in it: self.states.iter()
            invariant
                it.seq() == items,
                items.no_duplicates(),
                ks.len() == released@.len(),
                ks.no_duplicates(),
                forall|i: int, j: int|
                    0 <= i < ks.len() && it.index() <= j < items.len() ==> #[trigger] ks[i]
                        != *(#[trigger] items[j]).0,
                forall|i: int|
                    0 <= i < ks.len() ==> {
                        &&& m0.contains_key(#[trigger] ks[i])
                        &&& m0[ks[i]].frame_last_used < frame
                        &&& m0[ks[i]].state.text_layout == Some(released@[i])
                    },
                forall|j: int|
                    0 <= j < it.index() && (#[trigger] items[j]).1.frame_last_used < frame
                        && items[j].1.state.text_layout is Some ==> ks.contains(*items[j].0),
                items == spec_hash_map_iter(&self.states).remaining(),
                m0 == self.states@,
                frame == self.frame_counter,
                forall|j: int|
                    0 <= j < evicted@.len() ==> #[trigger] m0.contains_key(evicted@[j])
                        && m0[evicted@[j]].frame_last_used < frame,
                forall|i: int|
                    0 <= i < it.index() && (#[trigger] items[i]).1.frame_last_used < frame
                        ==> evicted@.contains(*items[i].0),
                forall|j: int| 0 <= j < released@.len() ==> Self::releases(m0, frame, #[trigger] released@[j]),
                forall|i: int|
                    0 <= i < it.index() && (#[trigger] items[i]).1.frame_last_used < frame
                        && items[i].1.state.text_layout is Some ==> released@.contains(
                        items[i].1.state.text_layout->0,
                    ),
        {
            proof {
                let i = it.index();
                assert(m0.contains_key(*items[i].0) && m0[*items[i].0] == *items[i].1);
            }
            let ghost prev_evicted = evicted@;
            let ghost prev_released = released@;
            if c.frame_last_used < frame {
                evicted.push(*k);
                proof {
                    assert(evicted@[evicted@.len() - 1] == *k);
                    assert forall|x: u64| prev_evicted.contains(x) implies evicted@.contains(x) by {
                        let w = choose|w: int| 0 <= w < prev_evicted.len() && prev_evicted[w] == x;
                        assert(evicted@[w] == x);
                    }
                }
                match c.state.text_layout {
                    Some(t) => {
                        released.push(t);
                        proof {
                            let ghost prev_ks = ks;
                            let i = it.index();
                            assert(*items[i].0 == *k);
                            assert forall|x: int| 0 <= x < prev_ks.len() implies prev_ks[x] != *k by {
                                assert(prev_ks[x] != *items[i].0);
                            }
                            ks = ks.push(*k);
                            assert forall|x: int, j: int|
                                0 <= x < ks.len() && i + 1 <= j < items.len() implies #[trigger] ks[x]
                                    != *(#[trigger] items[j]).0 by {
                                if x == ks.len() - 1 {
                                    assert(m0[*items[j].0] == *items[j].1);
                                    assert(m0[*items[i].0] == *items[i].1);
                                    assert(items[j] != items[i]);
                                } else {
                                    assert(ks[x] == prev_ks[x]);
                                }
                            }
                            assert forall|j: int|
                                0 <= j < i + 1 && (#[trigger] items[j]).1.frame_last_used < frame
                                    && items[j].1.state.text_layout is Some implies ks.contains(*items[j].0) by {
                                if j < i {
                                    let w = choose|w: int| 0 <= w < prev_ks.len() && prev_ks[w] == *items[j].0;
                                    assert(ks[w] == *items[j].0);
                                } else {
                                    assert(ks[ks.len() - 1] == *k);
                                }
                            }
                            assert(released@[released@.len() - 1] == t);
                            assert forall|x: TextLayoutId| prev_released.contains(x) implies released@.contains(x) by {
                                let w = choose|w: int| 0 <= w < prev_released.len() && prev_released[w] == x;
                                assert(released@[w] == x);
                            }
                        }
                    },
                    None => {},
                }
            }
        }
        let n = evicted.len();
        proof {
            assert forall|i: int| 0 <= i < n implies #[trigger] m0.contains_key(evicted@[i])
                && m0[evicted@[i]].frame_last_used < frame by {
                assert(m0.contains_key(evicted@[i]));
            }
            assert(evicted@.subrange(0, 0) =~= Seq::<u64>::empty());
        }
        let mut j: usize = 0;
        while j < n
            invariant
                n == evicted@.len(),
                j <= n,
                frame == self.frame_counter,
                placement == self.default_placement,
                forall|i: int|
                    0 <= i < n ==> #[trigger] m0.contains_key(evicted@[i]) && m0[evicted@[i]].frame_last_used
                        < frame,
                forall|k: u64|
                    #[trigger] self.states@.contains_key(k) <==> (m0.contains_key(k)
                        && !evicted@.subrange(0, j as int).contains(k)),
                forall|k: u64| #[trigger] self.states@.contains_key(k) ==> self.states@[k] == m0[k],
            decreases n - j,
        {
            let key = evicted[j];
            let ghost before = self.states@;
            self.states.remove(&key);
            proof {
                let prefix = evicted@.subrange(0, j as int);
                let next = evicted@.subrange(0, j + 1);
                assert(next =~= prefix.push(key));
                assert(self.states@ == before.remove(key));
                assert forall|k: u64| #[trigger] next.contains(k) <==> (prefix.contains(k) || k == key) by {
                    if prefix.contains(k) {
                        let w = choose|w: int| 0 <= w < prefix.len() && prefix[w] == k;
                        assert(next[w] == k);
                    }
                    if k == key {
                        assert(next[j as int] == k);
                    }
                    if next.contains(k) && k != key {
                        let w = choose|w: int| 0 <= w < next.len() && next[w] == k;
                        assert(w < j);
                        assert(prefix[w] == k);
                    }
                }
            }
            j += 1;
        }
        proof {
            assert(evicted@.subrange(0, n as int) =~= evicted@);
            assert forall|k: u64| #[trigger] m0.contains_key(k) && m0[k].frame_last_used < frame implies evicted@.contains(k) by {
                assert(items.contains((&k, &m0[k])));
                let i = choose|i: int| 0 <= i < items.len() && items[i] == (&k, &m0[k]);
                assert(items[i].1.frame_last_used < frame);
            }
            assert(self.states@ =~= Self::survivors(m0, frame));
            assert forall|k: u64|
                #[trigger] m0.contains_key(k) && m0[k].frame_last_used < frame
                    && m0[k].state.text_layout is Some implies released@.contains(
                    m0[k].state.text_layout->0,
                ) by {
                assert(items.contains((&k, &m0[k])));
                let i = choose|i: int| 0 <= i < items.len() && items[i] == (&k, &m0[k]);
                assert(items[i].1.frame_last_used < frame);
            }
        }
        proof {
            assert forall|k: u64|
                #[trigger] m0.contains_key(k) && m0[k].frame_last_used < frame
                    && m0[k].state.text_layout is Some implies ks.contains(k) by {
                assert(items.contains((&k, &m0[k])));
                let i = choose|i: int| 0 <= i < items.len() && items[i] == (&k, &m0[k]);
                assert(items[i].1.frame_last_used < frame);
            }
            assert(Self::released_once(m0, frame, ks, released@));
        }
        self.frame_counter = self.frame_counter + 1;
        released
    }

    /// Set whether a widget is being pressed; a widget without state yet
    /// (its first frame) is left alone.
    pub fn set_active(&mut self, id: WidgetId, active: bool)
        ensures
            final(self).frame() == old(self).frame(),
            final(self).initial_placement() == old(self).initial_placement(),
            old(self).states().contains_key(id@) ==> final(self).states() == old(self).states().insert(
                id@,
                WidgetContainer {
                    state: WidgetState { was_active: active, ..old(self).states()[id@].state },
                    ..old(self).states()[id@]
                },
            ),
            !old(self).states().contains_key(id@) ==> final(self).states() == old(self).states(),
    {
        let key = id.value();
        match self.states.get(&key) {
            Some(c) => {
                let mut updated = *c;
                updated.state.was_active = active;
                self.states.insert(key, updated);
            },
            None => {},
        }
    }
}

/// Which widget, if any, has keyboard focus.
#[derive(Clone, Copy, Debug, Default, PartialEq, Eq, Structural)]
pub struct Focus {
    pub focused_widget: Option<WidgetId>,
}

impl Focus {
    /// Whether `id` has focus.
    pub fn is_focused(&self, id: WidgetId) -> (r: bool)
        ensures
            r == (self.focused_widget == Some(id)),
    {
        match self.focused_widget {
            Some(f) => f == id,
            None => false,
        }
    }

    /// Give focus to `id`.
    pub fn request_focus(&mut self, id: WidgetId)
        ensures
            final(self).focused_widget == Some(id),
    {
        self.focused_widget = Some(id);
    }

    /// Drop focus if `id` has it.
    pub fn release_focus(&mut self, id: WidgetId)
        ensures
            old(self).focused_widget == Some(id) ==> final(self).focused_widget is None,
            old(self).focused_widget != Some(id) ==> *final(self) == *old(self),
    {
        if self.is_focused(id) {
            self.focused_widget = None;
        }
    }
}

/// A widget used in a frame (its state created or its layout recorded in
/// it) keeps its state, unchanged, through the end of that frame.
pub proof fn lemma_used_state_survives<P: Copy>(m: Map<u64, WidgetContainer<P>>, frame: u64, k: u64)
    requires
        m.contains_key(k),
        m[k].frame_last_used >= frame,
    ensures
        WidgetStates::<P>::survivors(m, frame).contains_key(k),
        WidgetStates::<P>::survivors(m, frame)[k] == m[k],
{
}

/// A widget not used in a frame loses its state at the end of that frame.
pub proof fn lemma_unused_state_dropped<P: Copy>(m: Map<u64, WidgetContainer<P>>, frame: u64, k: u64)
    requires
        m.contains_key(k) ==> m[k].frame_last_used < frame,
    ensures
        !WidgetStates::<P>::survivors(m, frame).contains_key(k),
{
}

} // verus!
