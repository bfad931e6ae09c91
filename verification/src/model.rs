//! The mathematical model of a bounded queue: the sequence of its live
//! elements, oldest first, next to a fixed number of slots. The contracts of
//! the buffer's operations are written with the functions of this module, so
//! the laws proved here hold of every buffer.

use vstd::prelude::*;

verus! {

/// The contents after inserting `val` into a buffer of `cap` slots that
/// holds `s`: a buffer without slots discards the value, a full buffer
/// gives up its oldest element first.
pub open spec fn after_push<T>(s: Seq<T>, cap: nat, val: T) -> Seq<T> {
    if cap == 0 {
        s
    } else if s.len() < cap {
        s.push(val)
    } else {
        s.drop_first().push(val)
    }
}

/// The element that a pop hands out: the oldest one, if there is any.
pub open spec fn front<T>(s: Seq<T>) -> Option<T> {
    if s.len() == 0 {
        None
    } else {
        Some(s[0])
    }
}

/// The contents after a pop: everything but the oldest element.
pub open spec fn after_pop<T>(s: Seq<T>) -> Seq<T> {
    if s.len() == 0 {
        s
    } else {
        s.drop_first()
    }
}

/// The contents after pushing the elements of `vals` one after another,
/// from the first to the last.
pub open spec fn after_pushes<T>(s: Seq<T>, cap: nat, vals: Seq<T>) -> Seq<T>
    decreases vals.len(),
{
    if vals.len() == 0 {
        s
    } else {
        after_push(after_pushes(s, cap, vals.drop_last()), cap, vals.last())
    }
}

/// The elements that come out when `s` is popped until nothing is left, in
/// the order in which they come out.
pub open spec fn pop_all<T>(s: Seq<T>) -> Seq<T>
    decreases s.len(),
{
    match front(s) {
        None => Seq::empty(),
        Some(oldest) => seq![oldest] + pop_all(after_pop(s)),
    }
}

/// The last `n` elements of `s`, or all of `s` where it has no more than `n`.
pub open spec fn newest<T>(s: Seq<T>, n: nat) -> Seq<T> {
    if s.len() <= n {
        s
    } else {
        s.skip(s.len() - n)
    }
}

/// A push never makes the contents outgrow the slots.
pub proof fn law_push_stays_within_capacity<T>(s: Seq<T>, cap: nat, val: T)
    requires
        s.len() <= cap,
    ensures
        after_push(s, cap, val).len() <= cap,
{
}

/// A pop never makes the contents grow, so it keeps them within the slots.
pub proof fn law_pop_stays_within_capacity<T>(s: Seq<T>, cap: nat)
    requires
        s.len() <= cap,
    ensures
        after_pop(s).len() <= cap,
{
}

/// After any run of pushes the buffer holds the newest elements, as many as
/// it has slots for, in the order in which they were pushed. Everything
/// older has been evicted.
pub proof fn law_pushes_keep_newest<T>(s: Seq<T>, cap: nat, vals: Seq<T>)
    requires
        s.len() <= cap,
    ensures
        after_pushes(s, cap, vals) == newest(s + vals, cap),
    decreases vals.len(),
{
    if vals.len() > 0 {
        let init = vals.drop_last();
        law_pushes_keep_newest(s, cap, init);
        assert((s + init).push(vals.last()) =~= s + vals);
    }
}

/// Popping an empty buffer hands out nothing and leaves it empty, however
/// often it is done.
pub proof fn law_pop_on_empty<T>(s: Seq<T>)
    requires
        s.len() == 0,
    ensures
        front(s) is None,
        after_pop(s) == s,
{
}

/// Filling an empty buffer of `n > 0` slots with `n` values keeps them all.
/// The next pop hands out the first of them, and what is left to drain are
/// the other `n - 1`, in the order in which they were pushed.
pub proof fn law_fill_then_pop<T>(n: nat, vals: Seq<T>)
    requires
        n > 0,
        vals.len() == n,
    ensures
        after_pushes(Seq::empty(), n, vals) == vals,
        front(after_pushes(Seq::empty(), n, vals)) == Some(vals[0]),
        after_pop(after_pushes(Seq::empty(), n, vals)) == vals.drop_first(),
{
    law_pushes_keep_newest(Seq::empty(), n, vals);
}

/// Pushing `n + 1` values into an empty buffer of `n` slots evicts exactly
/// the first of them: the others remain, in the order in which they were
/// pushed.
pub proof fn law_overflow_evicts_oldest<T>(n: nat, vals: Seq<T>)
    requires
        vals.len() == n + 1,
    ensures
        after_pushes(Seq::empty(), n, vals) == vals.drop_first(),
{
    law_pushes_keep_newest(Seq::empty(), n, vals);
}

/// A buffer of one slot holds the value pushed last and nothing else: the
/// next pop hands it out, and the buffer is empty afterwards.
pub proof fn law_single_slot_keeps_last<T>(s: Seq<T>, val: T)
    requires
        s.len() <= 1,
    ensures
        after_push(s, 1, val) == seq![val],
        front(after_push(s, 1, val)) == Some(val),
        after_pop(after_push(s, 1, val)) == Seq::<T>::empty(),
{
}

/// A buffer without slots stays empty whatever is pushed, so every pop
/// hands out nothing and a drain yields nothing.
pub proof fn law_no_slots_hold_nothing<T>(vals: Seq<T>)
    ensures
        after_pushes(Seq::<T>::empty(), 0, vals) == Seq::<T>::empty(),
        front(after_pushes(Seq::<T>::empty(), 0, vals)) is None,
        pop_all(after_pushes(Seq::<T>::empty(), 0, vals)) == Seq::<T>::empty(),
    decreases vals.len(),
{
    if vals.len() > 0 {
        law_no_slots_hold_nothing(vals.drop_last());
    }
}

/// Popping until nothing is left hands out the contents front to back. A
/// drain yields the contents in that same order, so draining a buffer and
/// popping it empty produce the same sequence.
pub proof fn law_pop_all_yields_contents<T>(s: Seq<T>)
    ensures
        pop_all(s) == s,
    decreases s.len(),
{
    if s.len() > 0 {
        law_pop_all_yields_contents(s.drop_first());
    }
}

} // verus!
