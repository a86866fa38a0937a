//! Nested "current value" tracking for one execution context.
use vstd::prelude::*;

verus! {

/// The top of a stack model: the most recently entered value still in scope.
pub open spec fn top_of<T>(s: Seq<T>) -> Option<T> {
    if s.len() == 0 {
        None
    } else {
        Some(s.last())
    }
}

/// Proof that a value was entered: releasing it pops exactly the entry it pushed.
pub struct ScopeGuard {
    depth: usize,
}

impl ScopeGuard {
    /// Position of the entry this guard pushed (0 is the bottom of the stack).
    pub closed spec fn depth_spec(&self) -> nat {
        self.depth as nat
    }

    pub fn depth(&self) -> (r: usize)
        ensures
            r as nat == self.depth_spec(),
    {
        self.depth
    }
}

/// The values entered in one execution context, innermost last. Each context
/// owns its own stack, so no context observes another's entries.
pub struct ScopeStack<T> {
    entries: Vec<T>,
}

impl<T> View for ScopeStack<T> {
    type V = Seq<T>;

    closed spec fn view(&self) -> Seq<T> {
        self.entries@
    }
}

impl<T> ScopeStack<T> {
    pub fn new() -> (r: Self)
        ensures
            r@ == Seq::<T>::empty(),
    {
        ScopeStack { entries: Vec::new() }
    }

    /// Makes `value` current until the returned guard is released.
    pub fn enter(&mut self, value: T) -> (g: ScopeGuard)
        requires
            old(self)@.len() < usize::MAX,
        ensures
            final(self)@ == old(self)@.push(value),
            g.depth_spec() == old(self)@.len(),
    {
        let depth = self.entries.len();
        self.entries.push(value);
        ScopeGuard { depth }
    }

    /// Ends the scope of the innermost entry. Guards are released in reverse
    /// order of acquisition: the guard must be the one of the top entry.
    pub fn release(&mut self, guard: ScopeGuard) -> (v: T)
        requires
            guard.depth_spec() + 1 == old(self)@.len(),
        ensures
            final(self)@ == old(self)@.drop_last(),
            v == old(self)@.last(),
    {
        self.entries.pop().unwrap()
    }

    /// The innermost value still in scope, if any.
    pub fn current(&self) -> (r: Option<&T>)
        ensures
            match top_of(self@) {
                Some(t) => r == Some(&t),
                None => r.is_none(),
            },
    {
        let n = self.entries.len();
        if n == 0 {
            None
        } else {
            Some(&self.entries[n - 1])
        }
    }

    /// The innermost value, for changing it in place.
    pub fn current_mut(&mut self) -> (r: &mut T)
        requires
            old(self)@.len() > 0,
        ensures
            *r == old(self)@.last(),
            final(self)@ == old(self)@.update(old(self)@.len() - 1, *final(r)),
    {
        let n = self.entries.len();
        &mut self.entries[n - 1]
    }

    /// Number of values currently in scope.
    pub fn depth(&self) -> (r: usize)
        ensures
            r == self@.len(),
    {
        self.entries.len()
    }
}

/// The stack after replaying `ops` on `start`: `Some(v)` enters `v`, `None`
/// releases the innermost entry.
pub open spec fn replay<T>(start: Seq<T>, ops: Seq<Option<T>>) -> Seq<T>
    decreases ops.len(),
{
    if ops.len() == 0 {
        start
    } else {
        let s = replay(start, ops.drop_last());
        match ops.last() {
            Some(v) => s.push(v),
            None => if s.len() > 0 {
                s.drop_last()
            } else {
                s
            },
        }
    }
}

/// Entries minus releases in `ops`.
pub open spec fn net_depth<T>(ops: Seq<Option<T>>) -> int
    decreases ops.len(),
{
    if ops.len() == 0 {
        0
    } else {
        net_depth(ops.drop_last()) + if ops.last() is Some {
            1int
        } else {
            -1int
        }
    }
}

/// No prefix of `ops` releases more than it entered: `ops` never reaches
/// below the stack it starts on.
pub open spec fn stays_above<T>(ops: Seq<Option<T>>) -> bool {
    forall|i: int| 0 <= i <= ops.len() ==> net_depth(#[trigger] ops.take(i)) >= 0
}

proof fn lemma_replay_keeps_base<T>(start: Seq<T>, ops: Seq<Option<T>>)
    requires
        stays_above(ops),
    ensures
        replay(start, ops) == start + replay(Seq::<T>::empty(), ops),
        replay(Seq::<T>::empty(), ops).len() == net_depth(ops),
    decreases ops.len(),
{
    if ops.len() == 0 {
        assert(start + Seq::<T>::empty() =~= start);
    } else {
        let init = ops.drop_last();
        assert forall|i: int| 0 <= i <= init.len() implies net_depth(#[trigger] init.take(i)) >= 0 by {
            assert(init.take(i) =~= ops.take(i));
        }
        lemma_replay_keeps_base(start, init);
        assert(ops.take(ops.len() as int) =~= ops);
        let e = replay(Seq::<T>::empty(), init);
        match ops.last() {
            Some(v) => {
                assert(start + e.push(v) =~= (start + e).push(v));
            },
            None => {
                assert(e.len() > 0);
                assert(start + e.drop_last() =~= (start + e).drop_last());
            },
        }
    }
}

/// Stack discipline at any nesting depth: after entering `v` and then any
/// run of enters and releases that never releases more than it entered,
/// `v` is current exactly when that run released all it entered, and the
/// stack is then what it was right after `v` was entered.
pub proof fn lemma_scope_stack_discipline<T>(s: Seq<T>, v: T, ops: Seq<Option<T>>)
    requires
        stays_above(ops),
    ensures
        net_depth(ops) == 0 ==> replay(s.push(v), ops) == s.push(v),
        net_depth(ops) == 0 ==> top_of(replay(s.push(v), ops)) == Some(v),
        replay(s.push(v), Seq::<Option<T>>::empty().push(None)) == s,
        top_of(replay(s, Seq::<Option<T>>::empty().push(Some(v)))) == Some(v),
{
    lemma_replay_keeps_base(s.push(v), ops);
    if net_depth(ops) == 0 {
        assert(s.push(v) + replay(Seq::<T>::empty(), ops) =~= s.push(v));
    }
    let one_release = Seq::<Option<T>>::empty().push(None);
    assert(one_release.drop_last() =~= Seq::<Option<T>>::empty());
    assert(one_release.last() == None::<T>);
    assert(replay(s.push(v), one_release.drop_last()) == s.push(v));
    assert(s.push(v).drop_last() =~= s);
    let one_enter = Seq::<Option<T>>::empty().push(Some(v));
    assert(one_enter.drop_last() =~= Seq::<Option<T>>::empty());
    assert(one_enter.last() == Some(v));
    assert(replay(s, one_enter.drop_last()) == s);
}

} // verus!
