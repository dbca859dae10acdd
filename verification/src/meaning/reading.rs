//! Reading what was drawn: words, cells under headings, numbers, counts.

use vstd::prelude::*;
use vstd::string::*;

use crate::clock::{is_number, number_read};
use crate::list::{count_if, first_where};
use crate::ops::{CellV, OpV, TableV};
use crate::paint::{LineV, SpanV};
use crate::state::Status;
use crate::text::dec;
use crate::wrap::texts;

verus! {

broadcast use vstd::string::group_string_axioms;

// ── Words ──────────────────────────────────────────────────────────────────

/// The words of a line.
pub open spec fn said(l: LineV) -> Seq<char> {
    texts(l.spans)
}

/// The words of a cell's first line; none when it is blank.
pub open spec fn told(c: CellV) -> Seq<char> {
    if c.lines.len() == 0 {
        Seq::empty()
    } else {
        said(c.lines[0])
    }
}

/// Whether column `k` of a table is headed `name`.
pub open spec fn heads(t: TableV, k: int, name: Seq<char>) -> bool {
    0 <= k < t.header.len() && told(t.header[k]) == name
}

/// Whether row `r` of a table says `words` under the heading `name`.
pub open spec fn tells(t: TableV, r: int, name: Seq<char>, words: Seq<char>) -> bool {
    &&& 0 <= r < t.rows.len()
    &&& exists|k: int|
        #[trigger] heads(t, k, name) && k < t.rows[r].cells.len() && told(t.rows[r].cells[k])
            == words
}

/// Whether a line that says `words` is written somewhere.
pub open spec fn writes(ops: Seq<OpV>, words: Seq<char>) -> bool {
    exists|k: int, j: int|
        #![trigger ops[k]->lines[j]]
        0 <= k < ops.len() && ops[k] is Text && 0 <= j < ops[k]->lines.len() && said(
            ops[k]->lines[j],
        ) == words
}

/// Whether a frame's rule begins with the chip that says `name`.
pub open spec fn titled(op: OpV, name: Seq<char>) -> bool {
    op is Frame && op->border.top.len() > 0 && said(op->border.top[0]) == "─┤ "@ + name + " ├"@
}

/// Whether something with this status is over.
pub open spec fn over(s: Status) -> bool {
    match s {
        Status::Success | Status::Failure | Status::Cancelled | Status::Skipped => true,
        Status::Running | Status::Queued | Status::Unknown => false,
    }
}

/// The smaller of two numbers.
pub open spec fn least(a: int, b: int) -> int {
    if a <= b {
        a
    } else {
        b
    }
}

/// A text that is there when `yes` holds.
pub open spec fn given(yes: bool, t: Seq<char>) -> Seq<char> {
    if yes {
        t
    } else {
        Seq::empty()
    }
}

/// One span more is its text more.
pub broadcast proof fn lemma_texts_push(v: Seq<SpanV>, s: SpanV)
    ensures
        #[trigger] texts(v.push(s)) == texts(v) + s.text,
    decreases v.len(),
{
    let w = v.push(s);
    if v.len() == 0 {
        assert(w.drop_first() =~= Seq::empty());
        assert(texts(w.drop_first()) =~= Seq::empty());
        assert(texts(v) =~= Seq::empty());
        assert(texts(w) =~= texts(v) + s.text);
    } else {
        assert(w.drop_first() =~= v.drop_first().push(s));
        lemma_texts_push(v.drop_first(), s);
        assert(texts(w) =~= texts(v) + s.text);
    }
}

/// No spans, no words.
pub broadcast proof fn lemma_texts_none()
    ensures
        #[trigger] texts(Seq::<SpanV>::empty()) == Seq::<char>::empty(),
{
}

/// Spans set one after another say one after another what they say.
pub broadcast proof fn lemma_texts_add(v: Seq<SpanV>, w: Seq<SpanV>)
    ensures
        #[trigger] texts(v + w) == texts(v) + texts(w),
    decreases v.len(),
{
    if v.len() == 0 {
        assert(v + w =~= w);
        assert(texts(v) =~= Seq::empty());
        assert(texts(v + w) =~= texts(v) + texts(w));
    } else {
        assert((v + w).drop_first() =~= v.drop_first() + w);
        lemma_texts_add(v.drop_first(), w);
        assert(texts(v + w) =~= texts(v) + texts(w));
    }
}

pub broadcast group group_texts {
    lemma_texts_push,
    lemma_texts_none,
    lemma_texts_add,
}

/// A line that is there is written.
pub proof fn lemma_writes(ops: Seq<OpV>, k: int, j: int, words: Seq<char>)
    requires
        0 <= k < ops.len(),
        ops[k] is Text,
        0 <= j < ops[k]->lines.len(),
        said(ops[k]->lines[j]) == words,
    ensures
        writes(ops, words),
{
    let l = ops[k]->lines[j];
}

// ── Numbers and counts ─────────────────────────────────────────────────────

/// What is written of a number reads back as that number, and never begins
/// with a nought that it could do without.
pub proof fn law_numbers_read_back(n: nat)
    ensures
        is_number(dec(n)),
        number_read(dec(n)) == n,
        dec(n).len() > 1 ==> dec(n)[0] != '0',
    decreases n,
{
    let t = dec(n);
    if n < 10 {
        assert(t.drop_last() =~= Seq::empty());
        assert(number_read(t.drop_last()) == 0);
    } else {
        law_numbers_read_back(n / 10);
        assert(t.drop_last() =~= dec(n / 10));
        assert(t[0] == dec(n / 10)[0]);
        if dec(n / 10).len() == 1 {
            assert(dec(n / 10)[0] == dec(n / 10).last());
            assert(dec(n / 10).drop_last() =~= Seq::empty());
            assert(number_read(dec(n / 10).drop_last()) == 0);
        }
        assert forall|i: int| 0 <= i < t.len() implies '0' <= #[trigger] t[i] <= '9' by {
            if i < t.len() - 1 {
                assert(t[i] == dec(n / 10)[i]);
            }
        }
    }
}

/// Two numbers that are written alike are the same.
pub proof fn law_numbers_are_told_apart(a: nat, b: nat)
    requires
        dec(a) == dec(b),
    ensures
        a == b,
{
    law_numbers_read_back(a);
    law_numbers_read_back(b);
}

/// What is counted is how many there are: as many as are left when the others
/// are taken out.
pub proof fn law_counts_are_how_many<A>(s: Seq<A>, p: spec_fn(A) -> bool, q: spec_fn(A) -> bool)
    requires
        forall|i: int| 0 <= i < s.len() ==> p(#[trigger] s[i]) == q(s[i]),
    ensures
        count_if(s, p) == s.filter(q).len(),
    decreases s.len(),
{
    reveal(Seq::filter);
    if s.len() > 0 {
        let t = s.drop_last();
        assert forall|i: int| 0 <= i < t.len() implies p(#[trigger] t[i]) == q(t[i]) by {
            assert(t[i] == s[i]);
        }
        law_counts_are_how_many(t, p, q);
        assert(s.last() == s[s.len() - 1]);
    }
}

/// What is looked for is the first there is: none before it will do, and it
/// will, unless nothing does.
pub proof fn law_the_first_is_found<A>(s: Seq<A>, p: spec_fn(A) -> bool)
    ensures
        first_where(s, p) <= s.len(),
        forall|i: int| 0 <= i < first_where(s, p) ==> !p(#[trigger] s[i]),
        first_where(s, p) < s.len() ==> p(s[first_where(s, p) as int]),
    decreases s.len(),
{
    if s.len() > 0 && !p(s[0]) {
        let t = s.drop_first();
        law_the_first_is_found(t, p);
        assert forall|i: int| 0 <= i < first_where(s, p) implies !p(#[trigger] s[i]) by {
            if i > 0 {
                assert(s[i] == t[i - 1]);
            }
        }
    }
}

/// Any are counted exactly when there are any.
pub proof fn lemma_any<A>(s: Seq<A>, p: spec_fn(A) -> bool)
    ensures
        count_if(s, p) > 0 <==> exists|k: int| 0 <= k < s.len() && p(#[trigger] s[k]),
    decreases s.len(),
{
    if s.len() > 0 {
        let t = s.drop_last();
        lemma_any(t, p);
        assert(s.last() == s[s.len() - 1]);
        if count_if(t, p) > 0 {
            let k = choose|k: int| 0 <= k < t.len() && p(#[trigger] t[k]);
            assert(p(s[k]));
        }
        if exists|k: int| 0 <= k < s.len() && p(#[trigger] s[k]) {
            let k = choose|k: int| 0 <= k < s.len() && p(#[trigger] s[k]);
            if k < t.len() {
                assert(p(t[k]));
            }
        }
    }
}

/// The first `n` values of `f` added up.
pub open spec fn sum_of(n: int, f: spec_fn(int) -> nat) -> nat
    decreases n,
{
    if n <= 0 {
        0
    } else {
        sum_of(n - 1, f) + f(n - 1)
    }
}

/// A vector is as long as a machine word can count.
pub proof fn lemma_vec_len<T>(v: Vec<T>)
    ensures
        v@.len() <= usize::MAX,
{
    broadcast use vstd::std_specs::vec::group_vec_axioms;

    assert(v.len() == v@.len());
}

} // verus!
