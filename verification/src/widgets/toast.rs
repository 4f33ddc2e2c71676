use vstd::prelude::*;

verus! {

/// How many toasts a queue shows at once.
pub const TOAST_CAPACITY: usize = 5;

/// Queue `q` of capacity `cap` after `t` is added: when the queue is full its
/// oldest entry leaves first.
pub open spec fn pushed<T>(q: Seq<T>, cap: nat, t: T) -> Seq<T> {
    if q.len() >= cap {
        q.drop_first().push(t)
    } else {
        q.push(t)
    }
}

/// The entries of `q` whose flag in `expired` is not set, in their order.
pub open spec fn unexpired<T>(q: Seq<T>, expired: Seq<bool>) -> Seq<T>
    decreases q.len(),
{
    if q.len() == 0 {
        Seq::empty()
    } else {
        let rest = unexpired(q.drop_last(), expired.drop_last());
        if expired.last() {
            rest
        } else {
            rest.push(q.last())
        }
    }
}

/// How many flags of `expired` are set.
pub open spec fn flagged(expired: Seq<bool>) -> nat
    decreases expired.len(),
{
    if expired.len() == 0 {
        0
    } else {
        flagged(expired.drop_last()) + if expired.last() { 1nat } else { 0nat }
    }
}

/// Keeping the unexpired entries drops exactly one entry per set flag.
pub proof fn lemma_unexpired_len<T>(q: Seq<T>, expired: Seq<bool>)
    requires
        expired.len() == q.len(),
    ensures
        unexpired(q, expired).len() + flagged(expired) == q.len(),
    decreases q.len(),
{
    if q.len() > 0 {
        lemma_unexpired_len(q.drop_last(), expired.drop_last());
    }
}

/// Adding a toast to a queue within its capacity keeps it within capacity and
/// puts the new toast last; when the queue was full, exactly its oldest toast
/// is gone and the others keep their order.
pub proof fn law_push_evicts_oldest<T>(q: Seq<T>, cap: nat, t: T)
    requires
        0 < cap,
        q.len() <= cap,
    ensures
        pushed(q, cap, t).len() <= cap,
        pushed(q, cap, t).last() == t,
        q.len() < cap ==> pushed(q, cap, t).len() == q.len() + 1 && pushed(q, cap, t).take(q.len() as int) == q,
        q.len() == cap ==> pushed(q, cap, t).len() == cap && pushed(q, cap, t).take(cap - 1) == q.skip(1),
{
    if q.len() == cap {
        assert(pushed(q, cap, t).take(cap - 1) =~= q.skip(1));
    } else {
        assert(pushed(q, cap, t).take(q.len() as int) =~= q);
    }
}

/// An entry survives the removal of expired entries exactly when its flag is
/// clear: every unflagged entry is kept, and every kept entry is an unflagged
/// one.
pub proof fn law_unexpired_keeps_live<T>(q: Seq<T>, expired: Seq<bool>)
    requires
        expired.len() == q.len(),
    ensures
        forall|i: int| 0 <= i < q.len() && !expired[i] ==> unexpired(q, expired).contains(#[trigger] q[i]),
        forall|j: int|
            0 <= j < unexpired(q, expired).len() ==> exists|i: int|
                0 <= i < q.len() && !expired[i] && q[i] == #[trigger] unexpired(q, expired)[j],
    decreases q.len(),
{
    if q.len() > 0 {
        let (p, e) = (q.drop_last(), expired.drop_last());
        law_unexpired_keeps_live(p, e);
        let rest = unexpired(p, e);
        let n = q.len() - 1;
        assert forall|i: int| 0 <= i < q.len() && !expired[i] implies unexpired(q, expired).contains(#[trigger] q[i]) by {
            if i < n {
                assert(p[i] == q[i]);
                let k = choose|k: int| 0 <= k < rest.len() && rest[k] == p[i];
                if !expired.last() {
                    assert(unexpired(q, expired)[k] == rest[k]);
                }
            } else {
                assert(unexpired(q, expired)[rest.len() as int] == q[i]);
            }
        }
        assert forall|j: int| 0 <= j < unexpired(q, expired).len() implies exists|i: int|
            0 <= i < q.len() && !expired[i] && q[i] == #[trigger] unexpired(q, expired)[j] by {
            if j < rest.len() {
                assert(unexpired(q, expired)[j] == rest[j]);
                let i = choose|i: int| 0 <= i < p.len() && !e[i] && p[i] == #[trigger] rest[j];
                assert(q[i] == p[i] && expired[i] == e[i]);
            } else {
                assert(q[n] == unexpired(q, expired)[j]);
            }
        }
    }
}

/// The active transient notifications, oldest first, at most
/// [`TOAST_CAPACITY`] of them.
pub struct ToastQueue<T> {
    toasts: Vec<T>,
    max: usize,
}

impl<T> View for ToastQueue<T> {
    type V = Seq<T>;

    closed spec fn view(&self) -> Seq<T> {
        self.toasts@
    }
}

impl<T> ToastQueue<T> {
    #[verifier::type_invariant]
    spec fn bounded(self) -> bool {
        0 < self.max && self.toasts@.len() <= self.max
    }

    /// The most toasts the queue holds.
    pub closed spec fn capacity(self) -> nat {
        self.max as nat
    }

    /// An empty queue with room for [`TOAST_CAPACITY`] toasts.
    pub fn new() -> (q: Self)
        ensures
            q@ == Seq::<T>::empty(),
            q.capacity() == TOAST_CAPACITY,
    {
        ToastQueue { toasts: Vec::new(), max: TOAST_CAPACITY }
    }

    /// Adds a toast; when the queue is full the oldest one is evicted.
    pub fn push(&mut self, toast: T)
        ensures
            final(self)@ == pushed(old(self)@, old(self).capacity(), toast),
            final(self).capacity() == old(self).capacity(),
            final(self)@.len() <= final(self).capacity(),
    {
        proof {
            use_type_invariant(&*self);
        }
        let mut toasts = Vec::new();
        std::mem::swap(&mut toasts, &mut self.toasts);
        if toasts.len() >= self.max {
            toasts.remove(0);
        }
        toasts.push(toast);
        assert(toasts@ =~= pushed(old(self)@, old(self).capacity(), toast));
        self.toasts = toasts;
    }

    /// Removes the toasts flagged in `expired` (one flag per toast, oldest
    /// first) and returns how many were removed; the rest keep their order.
    pub fn remove_expired(&mut self, expired: &[bool]) -> (removed: usize)
        requires
            expired@.len() == old(self)@.len(),
        ensures
            final(self)@ == unexpired(old(self)@, expired@),
            removed == flagged(expired@),
            removed == old(self)@.len() - final(self)@.len(),
            final(self).capacity() == old(self).capacity(),
    {
        proof {
            use_type_invariant(&*self);
        }
        let mut rest = Vec::new();
        std::mem::swap(&mut rest, &mut self.toasts);
        let ghost q = rest@;
        let n = rest.len();
        let mut kept: Vec<T> = Vec::new();
        let mut i: usize = 0;
        while i < n
            invariant
                n == q.len(),
                expired@.len() == n,
                i <= n,
                rest@ == q.subrange(i as int, n as int),
                kept@ == unexpired(q.take(i as int), expired@.take(i as int)),
            decreases n - i,
        {
            let t = rest.remove(0);
            assert(q.take(i as int + 1).drop_last() =~= q.take(i as int));
            assert(expired@.take(i as int + 1).drop_last() =~= expired@.take(i as int));
            if !expired[i] {
                kept.push(t);
            }
            i = i + 1;
            assert(rest@ =~= q.subrange(i as int, n as int));
        }
        assert(q.take(n as int) =~= q);
        assert(expired@.take(n as int) =~= expired@);
        proof {
            lemma_unexpired_len(q, expired@);
        }
        let removed = n - kept.len();
        self.toasts = kept;
        removed
    }

    /// Number of active toasts.
    pub fn len(&self) -> (n: usize)
        ensures
            n == self@.len(),
            n <= self.capacity(),
    {
        proof {
            use_type_invariant(self);
        }
        self.toasts.len()
    }

    /// Whether no toast is active.
    pub fn is_empty(&self) -> (b: bool)
        ensures
            b == (self@.len() == 0),
    {
        self.toasts.len() == 0
    }

    /// Removes every toast.
    pub fn clear(&mut self)
        ensures
            final(self)@ == Seq::<T>::empty(),
            final(self).capacity() == old(self).capacity(),
    {
        proof {
            use_type_invariant(&*self);
        }
        self.toasts = Vec::new();
    }

    /// Takes every toast out, oldest first, leaving the queue empty.
    pub fn take_all(&mut self) -> (all: Vec<T>)
        ensures
            all@ == old(self)@,
            all@.len() <= old(self).capacity(),
            final(self)@ == Seq::<T>::empty(),
            final(self).capacity() == old(self).capacity(),
    {
        proof {
            use_type_invariant(&*self);
        }
        let mut all = Vec::new();
        std::mem::swap(&mut all, &mut self.toasts);
        all
    }

    /// The active toasts, oldest first.
    pub fn active(&self) -> (s: &[T])
        ensures
            s@ == self@,
    {
        self.toasts.as_slice()
    }
}

impl<T> Default for ToastQueue<T> {
    fn default() -> (q: Self)
        ensures
            q@ == Seq::<T>::empty(),
            q.capacity() == TOAST_CAPACITY,
    {
        ToastQueue::new()
    }
}

} // verus!
