use vstd::prelude::*;
use vstd::string::StringExecFns;

verus! {

/// Equality of two string slices, stated over their character sequences.
pub fn str_eq(a: &str, b: &str) -> (r: bool)
    ensures
        r == (a@ == b@),
{
    let sa: String = a.to_owned();
    let sb: String = b.to_owned();
    sa == sb
}

/// The character sequences of a vector of strings.
pub open spec fn names_view(v: Seq<String>) -> Seq<Seq<char>> {
    v.map_values(|s: String| s@)
}

/// No two entries are the same string.
pub open spec fn distinct_seqs(v: Seq<Seq<char>>) -> bool {
    forall|i: int, j: int| 0 <= i < j < v.len() ==> v[i] != v[j]
}

/// Whether a vector of strings contains the given name.
pub fn contains_name(v: &Vec<String>, name: &str) -> (r: bool)
    ensures
        r == names_view(v@).contains(name@),
{
    let mut i: usize = 0;
    while i < v.len()
        invariant
            i <= v@.len(),
            forall|k: int| 0 <= k < i ==> names_view(v@)[k] != name@,
        decreases v@.len() - i,
    {
        if str_eq(v[i].as_str(), name) {
            assert(names_view(v@)[i as int] == name@);
            return true;
        }
        i += 1;
    }
    assert(forall|k: int| 0 <= k < names_view(v@).len() ==> names_view(v@)[k] != name@);
    false
}

/// Appending one element to a sequence filters to the old filtering, plus the
/// element when the predicate holds of it.
pub proof fn lemma_filter_push<A>(s: Seq<A>, x: A, p: spec_fn(A) -> bool)
    ensures
        s.push(x).filter(p) == if p(x) {
            s.filter(p).push(x)
        } else {
            s.filter(p)
        },
    decreases s.len(),
{
    reveal(Seq::filter);
    assert(s.push(x).drop_last() =~= s);
    assert(s.push(x).last() == x);
}

/// Filtering keeps a sequence whole when the predicate holds everywhere.
pub proof fn lemma_filter_keep_all<A>(s: Seq<A>, p: spec_fn(A) -> bool)
    requires
        forall|i: int| 0 <= i < s.len() ==> p(s[i]),
    ensures
        s.filter(p) == s,
    decreases s.len(),
{
    reveal(Seq::filter);
    if s.len() > 0 {
        lemma_filter_keep_all(s.drop_last(), p);
        assert(s.filter(p) =~= s.drop_last().push(s.last()));
        assert(s.drop_last().push(s.last()) =~= s);
    }
}

/// Removes every occurrence of a name, keeping the others in order.
#[verifier::loop_isolation(false)]
pub fn remove_all_named(v: &mut Vec<String>, name: &str)
    ensures
        names_view(final(v)@) == names_view(old(v)@).filter(
            (|n: Seq<char>| n != name@),
        ),
{
    let ghost pre = names_view(v@);
    let ghost keep = |n: Seq<char>| n != name@;
    let mut out: Vec<String> = Vec::new();
    let mut i: usize = 0;
    proof {
        assert(pre.take(0).filter(keep) =~= Seq::<Seq<char>>::empty());
        assert(names_view(out@) =~= Seq::<Seq<char>>::empty());
    }
    while i < v.len()
        invariant
            i <= v@.len(),
            names_view(v@) == pre,
            names_view(out@) == pre.take(i as int).filter(keep),
        decreases v@.len() - i,
    {
        let ghost outpre = names_view(out@);
        let entry = v[i].clone();
        proof {
            assert(entry@ == pre[i as int]);
            lemma_filter_push(pre.take(i as int), pre[i as int], keep);
            assert(pre.take(i + 1) =~= pre.take(i as int).push(pre[i as int]));
        }
        if !str_eq(entry.as_str(), name) {
            out.push(entry);
            proof {
                assert(keep(pre[i as int]));
                assert(names_view(out@) =~= outpre.push(pre[i as int]));
            }
        } else {
            proof {
                assert(!keep(pre[i as int]));
            }
        }
        i += 1;
    }
    proof {
        assert(pre.take(pre.len() as int) =~= pre);
    }
    *v = out;
}

/// Copies a list of names.
#[verifier::loop_isolation(false)]
pub fn copy_names(v: &Vec<String>) -> (r: Vec<String>)
    ensures
        names_view(r@) == names_view(v@),
{
    let mut out: Vec<String> = Vec::new();
    let mut i: usize = 0;
    proof {
        assert(names_view(out@) =~= names_view(v@).take(0));
    }
    while i < v.len()
        invariant
            i <= v@.len(),
            names_view(out@) == names_view(v@).take(i as int),
        decreases v@.len() - i,
    {
        out.push(v[i].clone());
        proof {
            assert(names_view(out@) =~= names_view(v@).take(i + 1));
        }
        i += 1;
    }
    proof {
        assert(names_view(v@).take(v@.len() as int) =~= names_view(v@));
    }
    out
}

/// Membership survives appending, and the appended element is a member.
pub proof fn lemma_contains_push<A>(s: Seq<A>, x: A, y: A)
    ensures
        s.contains(y) ==> s.push(x).contains(y),
        s.push(x).contains(x),
{
    if s.contains(y) {
        let i = choose|i: int| 0 <= i < s.len() && s[i] == y;
        assert(s.push(x)[i] == y);
    }
    assert(s.push(x)[s.len() as int] == x);
}

/// Filtering a one-element sequence.
pub proof fn lemma_filter_single<A>(x: A, p: spec_fn(A) -> bool)
    ensures
        seq![x].filter(p) == if p(x) {
            seq![x]
        } else {
            Seq::<A>::empty()
        },
{
    reveal(Seq::filter);
    assert(seq![x].drop_last() =~= Seq::<A>::empty());
    assert(Seq::<A>::empty().filter(p) =~= Seq::<A>::empty());
    assert(seq![x].last() == x);
    if p(x) {
        assert(seq![x].filter(p) =~= seq![x]);
    } else {
        assert(seq![x].filter(p) =~= Seq::<A>::empty());
    }
}

} // verus!
