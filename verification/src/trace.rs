use vstd::prelude::*;

verus! {

/// One callback invocation the runtime made, in the order the runtime made
/// them. The record is kept as ghost history so that contracts can say how
/// often each lifecycle hook and listener fired.
pub enum HookCall {
    EnableOf { name: Seq<char> },
    DisableOf { name: Seq<char> },
    ListenerOf { id: Seq<char> },
}

/// The predicate "is this particular invocation".
pub open spec fn matches_call(c: HookCall) -> spec_fn(HookCall) -> bool {
    |x: HookCall| x == c
}

/// How often one particular invocation occurs in a history.
pub open spec fn count_of(t: Seq<HookCall>, c: HookCall) -> nat {
    t.filter(matches_call(c)).len()
}

/// Counting distributes over concatenation of histories.
pub proof fn lemma_count_concat(a: Seq<HookCall>, b: Seq<HookCall>, c: HookCall)
    ensures
        count_of(a + b, c) == count_of(a, c) + count_of(b, c),
{
    Seq::filter_distributes_over_add(a, b, matches_call(c));
}

/// An empty history counts nothing.
pub proof fn lemma_count_empty(c: HookCall)
    ensures
        count_of(Seq::<HookCall>::empty(), c) == 0,
{
    reveal(Seq::filter);
}

/// A one-element history counts exactly its element.
pub proof fn lemma_count_single(x: HookCall, c: HookCall)
    ensures
        count_of(seq![x], c) == if x == c {
            1nat
        } else {
            0nat
        },
{
    reveal(Seq::filter);
    let p = matches_call(c);
    assert(seq![x].drop_last() =~= Seq::<HookCall>::empty());
    assert(Seq::<HookCall>::empty().filter(p) =~= Seq::<HookCall>::empty());
    assert(seq![x].last() == x);
    if x == c {
        assert(seq![x].filter(p) =~= Seq::<HookCall>::empty().push(x));
    } else {
        assert(seq![x].filter(p) =~= Seq::<HookCall>::empty());
    }
}

} // verus!
