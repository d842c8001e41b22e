//! Assembly of streamed tool-call fragments into complete calls.
use vstd::prelude::*;
use crate::deepseek::{CompletedToolCall, ToolCallDelta};
use crate::text::{append_str, from_chars, to_chars};

verus! {

/// What is known so far of one tool call: its id, its function name and the
/// argument text received.
pub struct SlotView {
    pub id: Seq<char>,
    pub name: Seq<char>,
    pub args: Seq<char>,
}

/// A tool call under assembly.
pub struct ToolSlot {
    pub index: usize,
    pub id: String,
    pub name: String,
    pub args: String,
}

/// The content of a slot.
pub open spec fn slot_view(s: ToolSlot) -> SlotView {
    SlotView { id: s.id@, name: s.name@, args: s.args@ }
}

/// A slot with nothing received.
pub open spec fn empty_slot() -> SlotView {
    SlotView { id: seq![], name: seq![], args: seq![] }
}

/// A slot after one fragment: a given id or name replaces the one known, and
/// given argument text is appended.
pub open spec fn absorb_into(v: SlotView, d: ToolCallDelta) -> SlotView {
    SlotView {
        id: match d.id {
            Some(x) => x@,
            None => v.id,
        },
        name: match d.name {
            Some(x) => x@,
            None => v.name,
        },
        args: match d.arguments {
            Some(x) => v.args + x@,
            None => v.args,
        },
    }
}

/// The calls after one fragment: the call at the fragment's position is
/// updated, or started when it is new.
pub open spec fn absorb_map(m: Map<usize, SlotView>, d: ToolCallDelta) -> Map<usize, SlotView> {
    let base = if m.contains_key(d.index) {
        m[d.index]
    } else {
        empty_slot()
    };
    m.insert(d.index, absorb_into(base, d))
}

/// A call can be made: it has an id and a function name.
pub open spec fn is_ready(v: SlotView) -> bool {
    v.id.len() > 0 && v.name.len() > 0
}

/// `r` lists the ready calls of `m`, ordered by position `ks`.
pub open spec fn lists_ready_calls(m: Map<usize, SlotView>, r: Seq<CompletedToolCall>, ks: Seq<
    usize,
>) -> bool {
    &&& ks.len() == r.len()
    &&& forall|a: int, b: int| 0 <= a < b < ks.len() ==> ks[a] < ks[b]
    &&& forall|j: int|
        0 <= j < ks.len() ==> {
            &&& m.contains_key(ks[j])
            &&& is_ready(m[ks[j]])
            &&& r[j].id@ == m[ks[j]].id
            &&& r[j].name@ == m[ks[j]].name
            &&& r[j].arguments@ == m[ks[j]].args
        }
    &&& forall|k: usize| m.contains_key(k) && is_ready(m[k]) ==> ks.contains(k)
}

/// Fragments of different calls may arrive interleaved in any order: taking
/// in two fragments for different positions gives the same calls either way.
pub proof fn lemma_absorb_commutes(m: Map<usize, SlotView>, d1: ToolCallDelta, d2: ToolCallDelta)
    requires
        d1.index != d2.index,
    ensures
        absorb_map(absorb_map(m, d1), d2) == absorb_map(absorb_map(m, d2), d1),
{
    assert(absorb_map(absorb_map(m, d1), d2) =~= absorb_map(absorb_map(m, d2), d1));
}

/// Collects tool-call fragments by position.
pub struct ToolCallAccumulator {
    slots: Vec<ToolSlot>,
}

/// A slot for position `k` occurs in `s`.
pub open spec fn has_key(s: Seq<ToolSlot>, k: usize) -> bool {
    exists|i: int| 0 <= i < s.len() && s[i].index == k
}

/// Where the slot for position `k` is in `s`.
pub open spec fn pos_of(s: Seq<ToolSlot>, k: usize) -> int {
    choose|i: int| 0 <= i < s.len() && s[i].index == k
}

/// The calls a slot sequence stands for, keyed by position.
pub open spec fn slots_map(s: Seq<ToolSlot>) -> Map<usize, SlotView> {
    Map::new(|k: usize| has_key(s, k), |k: usize| slot_view(s[pos_of(s, k)]))
}

/// Slots are kept in strictly increasing position order.
pub open spec fn strictly_sorted(s: Seq<ToolSlot>) -> bool {
    forall|a: int, b: int| 0 <= a < b < s.len() ==> s[a].index < s[b].index
}

proof fn lemma_pos_unique(s: Seq<ToolSlot>, i: int)
    requires
        strictly_sorted(s),
        0 <= i < s.len(),
    ensures
        has_key(s, s[i].index),
        pos_of(s, s[i].index) == i,
{
    let k = s[i].index;
    assert(has_key(s, k));
    let p = pos_of(s, k);
    if p < i {
        assert(s[p].index < s[i].index);
    } else if p > i {
        assert(s[i].index < s[p].index);
    }
}

impl View for ToolCallAccumulator {
    type V = Map<usize, SlotView>;

    closed spec fn view(&self) -> Map<usize, SlotView> {
        slots_map(self.slots@)
    }
}

impl ToolCallAccumulator {
    /// The internal ordering holds.
    pub closed spec fn wf(&self) -> bool {
        strictly_sorted(self.slots@)
    }

    /// No fragment received yet.
    pub fn new() -> (r: ToolCallAccumulator)
        ensures
            r.wf(),
            r@ == Map::<usize, SlotView>::empty(),
    {
        let r = ToolCallAccumulator { slots: Vec::new() };
        assert(slots_map(r.slots@) =~= Map::<usize, SlotView>::empty());
        r
    }

    /// Takes in one fragment.
    pub fn absorb(&mut self, d: &ToolCallDelta)
        requires
            old(self).wf(),
        ensures
            final(self).wf(),
            final(self)@ == absorb_map(old(self)@, *d),
    {
        let ghost s0 = self.slots@;
        let mut i: usize = 0;
        while i < self.slots.len() && self.slots[i].index < d.index
            invariant
                i <= self.slots.len(),
                self.slots@ == s0,
                strictly_sorted(s0),
                forall|j: int| 0 <= j < i ==> s0[j].index < d.index,
            decreases self.slots.len() - i,
        {
            i += 1;
        }
        let found = i < self.slots.len() && self.slots[i].index == d.index;
        let (base_id, base_name, base_args) = if found {
            (self.slots[i].id.clone(), self.slots[i].name.clone(), self.slots[i].args.clone())
        } else {
            (String::new(), String::new(), String::new())
        };
        let id = match &d.id {
            Some(x) => x.clone(),
            None => base_id,
        };
        let name = match &d.name {
            Some(x) => x.clone(),
            None => base_name,
        };
        let args = match &d.arguments {
            Some(x) => {
                let mut v = to_chars(base_args.as_str());
                append_str(&mut v, x.as_str());
                from_chars(&v)
            },
            None => base_args,
        };
        let slot = ToolSlot { index: d.index, id, name, args };
        let ghost old_map = slots_map(s0);
        proof {
            if found {
                lemma_pos_unique(s0, i as int);
                assert(old_map.contains_key(d.index));
                assert(old_map[d.index] == slot_view(s0[i as int]));
            } else {
                assert forall|j: int| 0 <= j < s0.len() implies s0[j].index != d.index by {
                    if j >= i {
                        assert(i < s0.len());
                        if j > i {
                            assert(s0[i as int].index < s0[j].index);
                        }
                        assert(s0[i as int].index > d.index);
                    }
                }
                assert(!old_map.contains_key(d.index));
            }
            assert(slot_view(slot) == absorb_into(
                if old_map.contains_key(d.index) {
                    old_map[d.index]
                } else {
                    empty_slot()
                },
                *d,
            ));
        }
        if found {
            self.slots.set(i, slot);
            proof {
                let s1 = self.slots@;
                assert(strictly_sorted(s1)) by {
                    assert forall|a: int, b: int| 0 <= a < b < s1.len() implies s1[a].index
                        < s1[b].index by {
                        assert(s0[a].index < s0[b].index);
                    }
                }
                let target = absorb_map(old_map, *d);
                assert forall|k: usize| #[trigger] slots_map(s1).contains_key(k) == target.contains_key(
                    k,
                ) by {
                    if has_key(s0, k) {
                        let p = choose|p: int| 0 <= p < s0.len() && s0[p].index == k;
                        assert(s1[p].index == k);
                    }
                    if has_key(s1, k) {
                        let p = choose|p: int| 0 <= p < s1.len() && s1[p].index == k;
                        assert(s0[p].index == k);
                    }
                }
                assert forall|k: usize| #[trigger]
                    slots_map(s1).contains_key(k) implies slots_map(s1)[k] == target[k] by {
                    let p = choose|p: int| 0 <= p < s1.len() && s1[p].index == k;
                    lemma_pos_unique(s1, p);
                    if k != d.index {
                        assert(s0[p].index == k);
                        lemma_pos_unique(s0, p);
                    }
                }
                assert(slots_map(s1) =~= target);
            }
        } else {
            self.slots.insert(i, slot);
            proof {
                let s1 = self.slots@;
                assert(strictly_sorted(s1)) by {
                    assert forall|a: int, b: int| 0 <= a < b < s1.len() implies s1[a].index
                        < s1[b].index by {
                        if a < i && b < i {
                            assert(s0[a].index < s0[b].index);
                        } else if a < i && b == i {
                        } else if a < i {
                            assert(s1[b] == s0[b - 1]);
                            assert(s0[b - 1].index > d.index) by {
                                assert(s0[i as int].index >= d.index);
                                if b - 1 > i {
                                    assert(s0[i as int].index < s0[b - 1].index);
                                }
                            }
                        } else if a == i {
                            assert(s1[b] == s0[b - 1]);
                            assert(s0[i as int].index > d.index);
                            if b - 1 > i {
                                assert(s0[i as int].index < s0[b - 1].index);
                            }
                        } else {
                            assert(s0[a - 1].index < s0[b - 1].index);
                        }
                    }
                }
                let target = absorb_map(old_map, *d);
                assert forall|k: usize| #[trigger] slots_map(s1).contains_key(k) == target.contains_key(
                    k,
                ) by {
                    if has_key(s0, k) {
                        let p = choose|p: int| 0 <= p < s0.len() && s0[p].index == k;
                        if p < i {
                            assert(s1[p].index == k);
                        } else {
                            assert(s1[p + 1].index == k);
                        }
                    }
                    if k == d.index {
                        assert(s1[i as int].index == k);
                    }
                    if has_key(s1, k) {
                        let p = choose|p: int| 0 <= p < s1.len() && s1[p].index == k;
                        if p < i {
                            assert(s0[p].index == k);
                        } else if p > i {
                            assert(s0[p - 1].index == k);
                        }
                    }
                }
                assert forall|k: usize| #[trigger]
                    slots_map(s1).contains_key(k) implies slots_map(s1)[k] == target[k] by {
                    let p = choose|p: int| 0 <= p < s1.len() && s1[p].index == k;
                    lemma_pos_unique(s1, p);
                    if p < i {
                        assert(s0[p].index == k);
                        lemma_pos_unique(s0, p);
                    } else if p > i {
                        assert(s0[p - 1].index == k);
                        lemma_pos_unique(s0, p - 1);
                    }
                }
                assert(slots_map(s1) =~= target);
            }
        }
    }

    /// The calls ready to run (those with an id and a function name), in
    /// position order.
    pub fn completed(&self) -> (r: Vec<CompletedToolCall>)
        requires
            self.wf(),
        ensures
            exists|ks: Seq<usize>| lists_ready_calls(self@, r@, ks),
    {
        let ghost s = self.slots@;
        let ghost m = slots_map(s);
        let ghost mut ks: Seq<usize> = seq![];
        let mut r: Vec<CompletedToolCall> = Vec::new();
        let mut i: usize = 0;
        while i < self.slots.len()
            invariant
                i <= self.slots.len(),
                s == self.slots@,
                m == slots_map(s),
                strictly_sorted(s),
                ks.len() == r@.len(),
                forall|a: int, b: int| 0 <= a < b < ks.len() ==> ks[a] < ks[b],
                forall|j: int, p: int|
                    0 <= j < ks.len() && i <= p < s.len() ==> #[trigger] ks[j] < #[trigger] s[p].index,
                forall|j: int|
                    0 <= j < ks.len() ==> {
                        &&& m.contains_key(ks[j])
                        &&& is_ready(m[ks[j]])
                        &&& r@[j].id@ == m[ks[j]].id
                        &&& r@[j].name@ == m[ks[j]].name
                        &&& r@[j].arguments@ == m[ks[j]].args
                    },
                forall|p: int| 0 <= p < i && is_ready(slot_view(s[p])) ==> ks.contains(s[p].index),
            decreases self.slots.len() - i,
        {
            let slot = &self.slots[i];
            proof {
                lemma_pos_unique(s, i as int);
            }
            if !slot.id.as_str().is_empty() && !slot.name.as_str().is_empty() {
                proof {
                    assert forall|j: int| 0 <= j < ks.len() implies ks[j] < s[i as int].index by {
                        assert(ks[j] < s[i as int].index);
                    }
                    let ghost old_ks = ks;
                    ks = ks.push(slot.index);
                    assert forall|j: int, p: int|
                        0 <= j < ks.len() && i + 1 <= p < s.len() implies #[trigger] ks[j]
                        < #[trigger] s[p].index by {
                        if j < old_ks.len() {
                            assert(old_ks[j] < s[p].index);
                        } else {
                            assert(s[i as int].index < s[p].index);
                        }
                    }
                    assert forall|p: int|
                        0 <= p < i + 1 && is_ready(slot_view(s[p])) implies ks.contains(
                        s[p].index,
                    ) by {
                        if p < i {
                            assert(old_ks.contains(s[p].index));
                            let w = choose|w: int| 0 <= w < old_ks.len() && old_ks[w] == s[p].index;
                            assert(ks[w] == old_ks[w]);
                        } else {
                            assert(ks[ks.len() - 1] == s[p].index);
                        }
                    }
                }
                r.push(
                    CompletedToolCall {
                        id: slot.id.clone(),
                        name: slot.name.clone(),
                        arguments: slot.args.clone(),
                    },
                );
            } else {
                proof {
                    assert(!is_ready(slot_view(s[i as int])));
                    assert forall|j: int, p: int|
                        0 <= j < ks.len() && i + 1 <= p < s.len() implies #[trigger] ks[j]
                        < #[trigger] s[p].index by {
                        assert(ks[j] < s[p].index);
                    }
                }
            }
            i += 1;
        }
        proof {
            assert forall|k: usize| m.contains_key(k) && is_ready(m[k]) implies ks.contains(k) by {
                let p = choose|p: int| 0 <= p < s.len() && s[p].index == k;
                lemma_pos_unique(s, p);
            }
            assert(lists_ready_calls(m, r@, ks));
            assert(self@ == m);
            assert(lists_ready_calls(self@, r@, ks));
        }
        r
    }
}

} // verus!
