//! Building vectors whose contents are stated through their deep views.

use vstd::prelude::*;
use crate::text::same;

verus! {

/// `s` with `x` at the end when `yes` holds, `s` itself otherwise.
pub open spec fn push_if<A>(s: Seq<A>, yes: bool, x: A) -> Seq<A> {
    if yes {
        s.push(x)
    } else {
        s
    }
}

/// An empty vector.
pub fn none<T: DeepView>() -> (v: Vec<T>)
    ensures
        v.deep_view() == Seq::<T::V>::empty(),
        v@.len() == 0,
{
    let v = Vec::new();
    assert(v.deep_view() =~= Seq::<T::V>::empty());
    v
}

/// Put `x` at the end.
pub fn put<T: DeepView>(v: &mut Vec<T>, x: T)
    ensures
        final(v).deep_view() == old(v).deep_view().push(x.deep_view()),
        final(v)@ == old(v)@.push(x),
{
    v.push(x);
    assert(v.deep_view() =~= old(v).deep_view().push(x.deep_view()));
}

/// Put everything in `more` at the end.
pub fn put_all<T: DeepView>(v: &mut Vec<T>, more: Vec<T>)
    ensures
        final(v).deep_view() == old(v).deep_view() + more.deep_view(),
        final(v)@ == old(v)@ + more@,
{
    let mut more = more;
    let ghost added = more@;
    v.append(&mut more);
    assert(v@ =~= old(v)@ + added);
    assert(v.deep_view() =~= old(v).deep_view() + Seq::new(
        added.len(),
        |i: int| added[i].deep_view(),
    ));
}

/// The length of a deep view is the length of the vector.
pub broadcast proof fn lemma_deep_len<T: DeepView>(v: Vec<T>)
    ensures
        #[trigger] v.deep_view().len() == v@.len(),
{
}

/// How many of `s` satisfy `p`.
pub open spec fn count_if<A>(s: Seq<A>, p: spec_fn(A) -> bool) -> nat
    decreases s.len(),
{
    if s.len() == 0 {
        0
    } else {
        count_if(s.drop_last(), p) + (if p(s.last()) {
            1nat
        } else {
            0
        })
    }
}

/// No more of `s` satisfy `p` than there are.
pub proof fn lemma_count<A>(s: Seq<A>, p: spec_fn(A) -> bool)
    ensures
        count_if(s, p) <= s.len(),
    decreases s.len(),
{
    if s.len() > 0 {
        lemma_count(s.drop_last(), p);
    }
}

/// How many of `v` satisfy `p`, which `f` decides.
pub fn count_of<T, F: Fn(&T) -> bool>(v: &Vec<T>, f: F, Ghost(p): Ghost<spec_fn(T) -> bool>) -> (n:
    usize)
    requires
        forall|x: &T| call_requires(f, (x,)),
        forall|x: &T, r: bool| call_ensures(f, (x,), r) ==> r == p(*x),
    ensures
        n as nat == count_if(v@, p),
        n <= v@.len(),
{
    let mut n: usize = 0;
    let mut i: usize = 0;
    assert(v@.take(0) =~= Seq::empty());
    while i < v.len()
        invariant
            i <= v@.len(),
            n <= i,
            n as nat == count_if(v@.take(i as int), p),
            forall|x: &T| call_requires(f, (x,)),
            forall|x: &T, r: bool| call_ensures(f, (x,), r) ==> r == p(*x),
        decreases v@.len() - i,
    {
        proof {
            assert(v@.take(i + 1).drop_last() =~= v@.take(i as int));
            assert(v@.take(i + 1).last() == v@[i as int]);
        }
        if f(&v[i]) {
            n = n + 1;
        }
        i = i + 1;
    }
    assert(v@.take(v@.len() as int) =~= v@);
    n
}

/// Where the first of `s` that satisfies `p` is; the length of `s` when none
/// does.
pub open spec fn first_where<A>(s: Seq<A>, p: spec_fn(A) -> bool) -> nat
    decreases s.len(),
{
    if s.len() == 0 || p(s[0]) {
        0
    } else {
        1 + first_where(s.drop_first(), p)
    }
}

pub proof fn lemma_first_where<A>(s: Seq<A>, p: spec_fn(A) -> bool, i: int)
    requires
        0 <= i <= s.len(),
        forall|j: int| 0 <= j < i ==> !p(#[trigger] s[j]),
        i < s.len() ==> p(s[i]),
    ensures
        first_where(s, p) == i,
    decreases s.len(),
{
    if i > 0 {
        assert(!p(s[0]));
        let t = s.drop_first();
        assert forall|j: int| 0 <= j < i - 1 implies !p(#[trigger] t[j]) by {
            assert(t[j] == s[j + 1]);
        }
        lemma_first_where(t, p, i - 1);
    }
}

/// Where the first of `v` that satisfies `p` is, which `f` decides.
pub fn find_of<T, F: Fn(&T) -> bool>(v: &Vec<T>, f: F, Ghost(p): Ghost<spec_fn(T) -> bool>) -> (i:
    usize)
    requires
        forall|x: &T| call_requires(f, (x,)),
        forall|x: &T, r: bool| call_ensures(f, (x,), r) ==> r == p(*x),
    ensures
        i as nat == first_where(v@, p),
        i <= v@.len(),
        i < v@.len() ==> p(v@[i as int]),
        forall|j: int| 0 <= j < i ==> !p(#[trigger] v@[j]),
{
    let mut i: usize = 0;
    while i < v.len()
        invariant
            i <= v@.len(),
            forall|j: int| 0 <= j < i ==> !p(#[trigger] v@[j]),
            forall|x: &T| call_requires(f, (x,)),
            forall|x: &T, r: bool| call_ensures(f, (x,), r) ==> r == p(*x),
        ensures
            i < v@.len() ==> p(v@[i as int]),
        decreases v@.len() - i,
    {
        if f(&v[i]) {
            break;
        }
        i = i + 1;
    }
    proof {
        lemma_first_where(v@, p, i as int);
    }
    i
}

/// Strings that read `t`.
pub open spec fn reads(t: Seq<char>) -> spec_fn(String) -> bool {
    |s: String| s@ == t
}

/// Where `t` first stands in `v`.
pub fn find_text(v: &Vec<String>, t: &str) -> (i: usize)
    ensures
        i as nat == first_where(v@, reads(t@)),
        i <= v@.len(),
        i < v@.len() ==> v@[i as int]@ == t@,
{
    find_of(
        v,
        (|s: &String| -> (r: bool)
            ensures
                r == (s@ == t@),
        {
            same(s, t)
        }),
        Ghost(reads(t@)),
    )
}

/// The vector whose element `i` is what `f` makes of `i`, which `g` states.
pub fn each<T: DeepView, F: Fn(usize) -> T>(n: usize, f: F, Ghost(g): Ghost<spec_fn(int) -> T::V>) -> (v:
    Vec<T>)
    requires
        forall|i: usize| i < n ==> call_requires(f, (i,)),
        forall|i: usize, r: T| i < n && call_ensures(f, (i,), r) ==> r.deep_view() == g(i as int),
    ensures
        v.deep_view() == Seq::new(n as nat, g),
        v@.len() == n,
{
    let mut v: Vec<T> = none();
    let mut i: usize = 0;
    assert(v.deep_view() =~= Seq::new(0, g));
    while i < n
        invariant
            i <= n,
            v@.len() == i,
            v.deep_view() == Seq::new(i as nat, g),
            forall|i: usize| i < n ==> call_requires(f, (i,)),
            forall|i: usize, r: T| i < n && call_ensures(f, (i,), r) ==> r.deep_view() == g(i as int),
        decreases n - i,
    {
        put(&mut v, f(i));
        assert(v.deep_view() =~= Seq::new((i + 1) as nat, g));
        i = i + 1;
    }
    v
}

} // verus!
