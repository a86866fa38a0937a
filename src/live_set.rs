//! A registry of live values: producers register and deregister handles while
//! a reader takes a point-in-time snapshot of every handle still registered.
use vstd::prelude::*;

verus! {

/// The values of the occupied slots, in slot order.
pub open spec fn live_values<T>(slots: Seq<Option<T>>) -> Seq<T>
    decreases slots.len(),
{
    if slots.len() == 0 {
        Seq::empty()
    } else {
        let prefix = live_values(slots.drop_last());
        match slots.last() {
            Some(v) => prefix.push(v),
            None => prefix,
        }
    }
}

/// Handed out by `register`; consumed by `deregister` once the value ends.
pub struct RegistrationToken {
    slot: usize,
}

impl RegistrationToken {
    pub closed spec fn slot_spec(&self) -> nat {
        self.slot as nat
    }
}

/// Live handles kept in slots; a freed slot is reused by a later registration.
/// A handle is present if and only if it is registered and not yet deregistered.
pub struct LiveReferenceSet<T> {
    slots: Vec<Option<T>>,
    free: Vec<usize>,
}

impl<T> View for LiveReferenceSet<T> {
    type V = Seq<Option<T>>;

    closed spec fn view(&self) -> Seq<Option<T>> {
        self.slots@
    }
}

impl<T> LiveReferenceSet<T> {
    /// Every free slot is empty and listed once; every empty slot is free.
    pub closed spec fn wf(&self) -> bool {
        &&& forall|k: int|
            0 <= k < self.free@.len() ==> (self.free@[k] as int) < self.slots@.len()
                && self.slots@[self.free@[k] as int].is_none()
        &&& forall|j: int, k: int|
            0 <= j < k < self.free@.len() ==> self.free@[j] != self.free@[k]
    }

    /// Whether one more registration fits the machine's address space.
    pub open spec fn can_register(&self) -> bool {
        self@.len() < usize::MAX
    }

    pub fn new() -> (r: Self)
        ensures
            r.wf(),
            r@ == Seq::<Option<T>>::empty(),
    {
        LiveReferenceSet { slots: Vec::new(), free: Vec::new() }
    }

    /// Adds `value`; the token names the slot that now holds it, which was
    /// empty or new.
    pub fn register(&mut self, value: T) -> (t: RegistrationToken)
        requires
            old(self).wf(),
            old(self).can_register(),
        ensures
            final(self).wf(),
            t.slot_spec() <= old(self)@.len(),
            t.slot_spec() < old(self)@.len() ==> old(self)@[t.slot_spec() as int].is_none()
                && final(self)@ == old(self)@.update(t.slot_spec() as int, Some(value)),
            t.slot_spec() == old(self)@.len() ==> final(self)@ == old(self)@.push(Some(value)),
    {
        match self.free.pop() {
            Some(slot) => {
                proof {
                    assert(self.free@ == old(self).free@.drop_last());
                    assert(old(self).free@.last() == slot);
                }
                self.slots.set(slot, Some(value));
                proof {
                    assert forall|k: int| 0 <= k < self.free@.len() implies (self.free@[k] as int)
                        < self.slots@.len() && self.slots@[self.free@[k] as int].is_none() by {
                        assert(old(self).free@[k] != old(self).free@[old(self).free@.len() - 1]);
                    }
                }
                RegistrationToken { slot }
            },
            None => {
                let slot = self.slots.len();
                self.slots.push(Some(value));
                RegistrationToken { slot }
            },
        }
    }

    /// Removes the value registered under `token` and hands it back.
    pub fn deregister(&mut self, token: RegistrationToken) -> (v: T)
        requires
            old(self).wf(),
            token.slot_spec() < old(self)@.len(),
            old(self)@[token.slot_spec() as int].is_some(),
        ensures
            final(self).wf(),
            final(self)@ == old(self)@.update(token.slot_spec() as int, None),
            Some(v) == old(self)@[token.slot_spec() as int],
    {
        let slot = token.slot;
        let mut taken: Option<T> = None;
        self.slots.set_and_swap(slot, &mut taken);
        proof {
            assert forall|k: int| 0 <= k < old(self).free@.len() implies old(self).free@[k]
                != slot by {}
        }
        self.free.push(slot);
        taken.unwrap()
    }

    /// Number of handles currently registered.
    pub fn len(&self) -> (r: usize)
        ensures
            r == live_values(self@).len(),
    {
        let mut count: usize = 0;
        let mut i: usize = 0;
        while i < self.slots.len()
            invariant
                i <= self.slots@.len(),
                count == live_values(self.slots@.take(i as int)).len(),
                count <= i,
            decreases self.slots@.len() - i,
        {
            proof {
                assert(self.slots@.take(i + 1).drop_last() =~= self.slots@.take(i as int));
            }
            if self.slots[i].is_some() {
                count = count + 1;
            }
            i = i + 1;
        }
        proof {
            assert(self.slots@.take(i as int) =~= self.slots@);
        }
        count
    }

    /// The handle held in `slot`, if that slot is occupied.
    pub fn slot_value(&self, slot: usize) -> (r: Option<&T>)
        ensures
            slot < self@.len() ==> match self@[slot as int] {
                Some(v) => r == Some(&v),
                None => r.is_none(),
            },
            slot >= self@.len() ==> r.is_none(),
    {
        if slot < self.slots.len() {
            match &self.slots[slot] {
                Some(v) => Some(v),
                None => None,
            }
        } else {
            None
        }
    }

    /// Whether the slot of `token` holds a handle in this set.
    pub fn is_occupied(&self, token: &RegistrationToken) -> (r: bool)
        ensures
            r == (token.slot_spec() < self@.len() && self@[token.slot_spec() as int].is_some()),
    {
        token.slot < self.slots.len() && self.slots[token.slot].is_some()
    }

    /// Number of slots, occupied or not.
    pub fn slot_count(&self) -> (r: usize)
        ensures
            r == self@.len(),
    {
        self.slots.len()
    }
}

impl<T: Clone> LiveReferenceSet<T> {
    /// A copy of every handle registered at the time of the call, in slot order.
    pub fn snapshot(&self) -> (r: Vec<T>)
        ensures
            r@.len() == live_values(self@).len(),
            forall|i: int| 0 <= i < r@.len() ==> cloned(live_values(self@)[i], #[trigger] r@[i]),
    {
        let mut out: Vec<T> = Vec::new();
        let mut i: usize = 0;
        while i < self.slots.len()
            invariant
                i <= self.slots@.len(),
                out@.len() == live_values(self.slots@.take(i as int)).len(),
                forall|k: int|
                    0 <= k < out@.len() ==> cloned(
                        live_values(self.slots@.take(i as int))[k],
                        #[trigger] out@[k],
                    ),
            decreases self.slots@.len() - i,
        {
            proof {
                assert(self.slots@.take(i + 1).drop_last() =~= self.slots@.take(i as int));
            }
            match &self.slots[i] {
                Some(v) => {
                    out.push(v.clone());
                },
                None => {},
            }
            i = i + 1;
        }
        proof {
            assert(self.slots@.take(i as int) =~= self.slots@);
        }
        out
    }
}

/// A value sits in the live values exactly when some slot holds it: a
/// registered, not yet deregistered handle is never omitted, and a
/// deregistered one never reappears unless it is registered again.
pub proof fn lemma_live_values_membership<T>(slots: Seq<Option<T>>, v: T)
    ensures
        live_values(slots).contains(v) <==> exists|i: int|
            0 <= i < slots.len() && slots[i] == Some(v),
    decreases slots.len(),
{
    if slots.len() > 0 {
        let init = slots.drop_last();
        lemma_live_values_membership(init, v);
        if live_values(slots).contains(v) {
            match slots.last() {
                Some(w) => {
                    if w != v {
                        let k = choose|k: int|
                            0 <= k < live_values(slots).len() && live_values(slots)[k] == v;
                        assert(live_values(init).contains(v)) by {
                            assert(live_values(init)[k] == v);
                        }
                        let i = choose|i: int| 0 <= i < init.len() && init[i] == Some(v);
                        assert(slots[i] == Some(v));
                    } else {
                        assert(slots[slots.len() - 1] == Some(v));
                    }
                },
                None => {
                    let i = choose|i: int| 0 <= i < init.len() && init[i] == Some(v);
                    assert(slots[i] == Some(v));
                },
            }
        }
        if exists|i: int| 0 <= i < slots.len() && slots[i] == Some(v) {
            let i = choose|i: int| 0 <= i < slots.len() && slots[i] == Some(v);
            if i == slots.len() - 1 {
                assert(live_values(slots).last() == v);
                assert(live_values(slots)[live_values(slots).len() - 1] == v);
            } else {
                assert(init[i] == Some(v));
                let k = choose|k: int|
                    0 <= k < live_values(init).len() && live_values(init)[k] == v;
                match slots.last() {
                    Some(w) => {
                        assert(live_values(slots)[k] == v);
                    },
                    None => {},
                }
            }
        }
    }
}

} // verus!
