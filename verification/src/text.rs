//! Plain text: building it, measuring it in characters, cutting it into words.
//!
//! Every string is modelled by its sequence of characters. Nothing here knows
//! about terminal columns; that is `columns`.

use vstd::prelude::*;
use vstd::string::*;
use crate::list::{none, put};

verus! {

broadcast use vstd::string::group_string_axioms;

/// `String::push` adds one character at the end and leaves the rest alone.
pub assume_specification[ String::push ](s: &mut String, c: char)
    ensures
        final(s)@ == old(s)@.push(c),
;

/// The characters of `s`, in order.
pub fn chars_of(s: &str) -> (v: Vec<char>)
    ensures
        v@ == s@,
{
    let mut out: Vec<char> = Vec::new();
    for c in it: s.chars()
        invariant
            it.seq() == s@,
            out@ == it.seq().take(it.index()),
    {
        out.push(c);
    }
    out
}

/// The characters `from..to` of `v` as a string.
pub fn text_between(v: &Vec<char>, from: usize, to: usize) -> (s: String)
    requires
        from <= to <= v@.len(),
    ensures
        s@ == v@.subrange(from as int, to as int),
{
    let mut out = String::new();
    for i in from..to
        invariant
            from <= to <= v@.len(),
            out@ == v@.subrange(from as int, i as int),
    {
        out.push(v[i]);
        assert(v@.subrange(from as int, i + 1) =~= v@.subrange(from as int, i as int).push(v@[i as int]));
    }
    out
}

/// The whole of `v` as a string.
pub fn text_of(v: &Vec<char>) -> (s: String)
    ensures
        s@ == v@,
{
    let s = text_between(v, 0, v.len());
    assert(v@.subrange(0, v@.len() as int) =~= v@);
    s
}

/// Whether two strings hold the same characters.
pub fn same(a: &str, b: &str) -> (r: bool)
    ensures
        r == (a@ == b@),
{
    let x = chars_of(a);
    let y = chars_of(b);
    same_chars(&x, &y)
}

/// Whether two character vectors are equal.
pub fn same_chars(x: &Vec<char>, y: &Vec<char>) -> (r: bool)
    ensures
        r == (x@ == y@),
{
    if x.len() != y.len() {
        return false;
    }
    for i in 0..x.len()
        invariant
            x@.len() == y@.len(),
            forall|j: int| 0 <= j < i ==> x@[j] == y@[j],
    {
        if x[i] != y[i] {
            return false;
        }
    }
    assert(x@ =~= y@);
    true
}

/// `a` followed by `b`.
pub fn cat2(a: &str, b: &str) -> (s: String)
    ensures
        s@ == a@ + b@,
{
    let mut s = a.to_string();
    s.append(b);
    s
}

/// Three strings in a row.
pub fn cat3(a: &str, b: &str, c: &str) -> (s: String)
    ensures
        s@ == a@ + b@ + c@,
{
    let mut s = cat2(a, b);
    s.append(c);
    s
}

/// Four strings in a row.
pub fn cat4(a: &str, b: &str, c: &str, d: &str) -> (s: String)
    ensures
        s@ == a@ + b@ + c@ + d@,
{
    let mut s = cat3(a, b, c);
    s.append(d);
    s
}

/// Five strings in a row.
pub fn cat5(a: &str, b: &str, c: &str, d: &str, e: &str) -> (s: String)
    ensures
        s@ == a@ + b@ + c@ + d@ + e@,
{
    let mut s = cat4(a, b, c, d);
    s.append(e);
    s
}

// ── Numbers ────────────────────────────────────────────────────────────────

/// The decimal digit for `d`, which is below ten.
pub open spec fn digit(d: nat) -> char {
    (d + '0' as nat) as char
}

/// `n` written in decimal, with no leading zeros.
pub open spec fn dec(n: nat) -> Seq<char>
    decreases n,
{
    if n < 10 {
        seq![digit(n)]
    } else {
        dec(n / 10).push(digit(n % 10))
    }
}

/// An integer written in decimal, a minus sign in front when it is negative.
pub open spec fn int_text(i: int) -> Seq<char> {
    if i < 0 {
        "-"@ + dec((-i) as nat)
    } else {
        dec(i as nat)
    }
}

/// An integer written at least two characters wide, a zero filling the gap.
pub open spec fn two_digits(i: int) -> Seq<char> {
    if 0 <= i < 10 {
        "0"@ + dec(i as nat)
    } else {
        int_text(i)
    }
}

fn digit_char(d: u8) -> (c: char)
    requires
        d < 10,
    ensures
        c == digit(d as nat),
{
    (d + 48) as char
}

/// `n` in decimal.
pub fn num(n: u128) -> (s: String)
    ensures
        s@ == dec(n as nat),
    decreases n,
{
    if n < 10 {
        let mut s = String::new();
        s.push(digit_char(n as u8));
        assert(s@ =~= dec(n as nat));
        s
    } else {
        let mut s = num(n / 10);
        s.push(digit_char((n % 10) as u8));
        s
    }
}

/// `i` in decimal, with its sign.
pub fn int_num(i: i64) -> (s: String)
    ensures
        s@ == int_text(i as int),
{
    if i < 0 {
        let n = num((-(i as i128)) as u128);
        cat2("-", &n)
    } else {
        num(i as u128)
    }
}

/// `i` in decimal, zero-filled to two characters.
pub fn two_num(i: i64) -> (s: String)
    ensures
        s@ == two_digits(i as int),
{
    let s = int_num(i);
    if 0 <= i && i < 10 {
        cat2("0", &s)
    } else {
        s
    }
}

// ── Padding ────────────────────────────────────────────────────────────────

/// `n` copies of `c`.
pub open spec fn run_of(c: char, n: nat) -> Seq<char> {
    Seq::new(n, |i: int| c)
}

/// `s` right-aligned in `w` characters: blanks in front, nothing cut.
pub open spec fn align_right(s: Seq<char>, w: nat) -> Seq<char> {
    if s.len() < w {
        run_of(' ', (w - s.len()) as nat) + s
    } else {
        s
    }
}

/// `s` left-aligned in `w` characters: blanks behind, nothing cut.
pub open spec fn align_left(s: Seq<char>, w: nat) -> Seq<char> {
    if s.len() < w {
        s + run_of(' ', (w - s.len()) as nat)
    } else {
        s
    }
}

/// A string of `n` copies of `c`.
pub fn repeat_char(c: char, n: usize) -> (s: String)
    ensures
        s@ == run_of(c, n as nat),
{
    let mut s = String::new();
    for i in 0..n
        invariant
            s@ == run_of(c, i as nat),
    {
        s.push(c);
        assert(run_of(c, (i + 1) as nat) =~= run_of(c, i as nat).push(c));
    }
    s
}

/// `n` blanks.
pub fn blanks(n: usize) -> (s: String)
    ensures
        s@ == run_of(' ', n as nat),
{
    repeat_char(' ', n)
}

/// `s` right-aligned in `w` characters.
pub fn pad_left(s: &str, w: usize) -> (r: String)
    ensures
        r@ == align_right(s@, w as nat),
{
    let n = s.unicode_len();
    if n < w {
        let b = blanks(w - n);
        cat2(&b, s)
    } else {
        s.to_string()
    }
}

/// `s` left-aligned in `w` characters.
pub fn pad_right(s: &str, w: usize) -> (r: String)
    ensures
        r@ == align_left(s@, w as nat),
{
    let n = s.unicode_len();
    if n < w {
        let b = blanks(w - n);
        cat2(s, &b)
    } else {
        s.to_string()
    }
}

// ── Words ──────────────────────────────────────────────────────────────────

/// The characters that separate words: Unicode's `White_Space` property.
pub open spec fn is_space(c: char) -> bool {
    let n = c as int;
    ||| 0x09 <= n <= 0x0d
    ||| n == 0x20
    ||| n == 0x85
    ||| n == 0xa0
    ||| n == 0x1680
    ||| 0x2000 <= n <= 0x200a
    ||| n == 0x2028
    ||| n == 0x2029
    ||| n == 0x202f
    ||| n == 0x205f
    ||| n == 0x3000
}

fn space(c: char) -> (r: bool)
    ensures
        r == is_space(c),
{
    let n = c as u32;
    (0x09 <= n && n <= 0x0d) || n == 0x20 || n == 0x85 || n == 0xa0 || n == 0x1680 || (0x2000 <= n
        && n <= 0x200a) || n == 0x2028 || n == 0x2029 || n == 0x202f || n == 0x205f || n == 0x3000
}

/// How many characters the run of word characters at the front of `s` has.
pub open spec fn word_len(s: Seq<char>) -> nat
    decreases s.len(),
{
    if s.len() == 0 || is_space(s[0]) {
        0
    } else {
        1 + word_len(s.drop_first())
    }
}

/// The words of `s`: its maximal runs of characters that are not spaces.
pub open spec fn words(s: Seq<char>) -> Seq<Seq<char>>
    decreases s.len(),
{
    if s.len() == 0 {
        Seq::empty()
    } else if is_space(s[0]) {
        words(s.drop_first())
    } else {
        let n = word_len(s);
        if 0 < n <= s.len() {
            seq![s.take(n as int)] + words(s.skip(n as int))
        } else {
            Seq::empty()
        }
    }
}

pub proof fn lemma_word_len(s: Seq<char>)
    ensures
        word_len(s) <= s.len(),
        forall|i: int| 0 <= i < word_len(s) ==> !is_space(#[trigger] s[i]),
        word_len(s) < s.len() ==> is_space(s[word_len(s) as int]),
        s.len() > 0 && !is_space(s[0]) ==> word_len(s) > 0,
    decreases s.len(),
{
    if s.len() == 0 || is_space(s[0]) {
    } else {
        lemma_word_len(s.drop_first());
        let t = s.drop_first();
        assert forall|i: int| 0 <= i < word_len(s) implies !is_space(#[trigger] s[i]) by {
            if i > 0 {
                assert(s[i] == t[i - 1]);
            }
        }
        if word_len(s) < s.len() {
            assert(s[word_len(s) as int] == t[word_len(t) as int]);
        }
    }
}

/// A word: at least one character, none of them a space.
pub open spec fn is_word(w: Seq<char>) -> bool {
    w.len() > 0 && forall|j: int| 0 <= j < w.len() ==> !is_space(#[trigger] w[j])
}

/// What `words` cuts a text into are words.
pub proof fn lemma_words(s: Seq<char>)
    ensures
        forall|i: int| 0 <= i < words(s).len() ==> is_word(#[trigger] words(s)[i]),
    decreases s.len(),
{
    if s.len() == 0 {
        assert(words(s).len() == 0);
    } else if is_space(s[0]) {
        lemma_words(s.drop_first());
        assert(words(s) == words(s.drop_first()));
    } else {
        lemma_word_len(s);
        let n = word_len(s) as int;
        lemma_words(s.skip(n));
        let rest = words(s.skip(n));
        assert forall|i: int| 0 <= i < words(s).len() implies is_word(#[trigger] words(s)[i]) by {
            if i == 0 {
                assert(words(s)[0] == s.take(n));
            } else {
                assert(words(s)[i] == rest[i - 1]);
            }
        }
    }
}

/// The words of `s`, as character vectors.
pub fn words_of(s: &str) -> (out: Vec<Vec<char>>)
    ensures
        out.deep_view() == words(s@),
{
    let v = chars_of(s);
    let mut out: Vec<Vec<char>> = Vec::new();
    let mut i: usize = 0;
    assert(v@.skip(0) =~= v@);
    assert(out.deep_view() + words(v@) =~= words(v@));
    while i < v.len()
        invariant
            i <= v@.len(),
            out.deep_view() + words(v@.skip(i as int)) == words(v@),
        decreases v@.len() - i,
    {
        let ghost rest = v@.skip(i as int);
        if space(v[i]) {
            assert(rest[0] == v@[i as int]);
            assert(rest.drop_first() =~= v@.skip(i + 1));
            i = i + 1;
        } else {
            let start = i;
            let mut word: Vec<char> = Vec::new();
            proof {
                lemma_word_len(rest);
                assert(v@.skip(i as int).take(0) =~= word@);
            }
            while i < v.len() && !space(v[i])
                invariant
                    start <= i <= v@.len(),
                    rest == v@.skip(start as int),
                    i - start <= word_len(rest) <= rest.len(),
                    word@ == rest.take(i - start),
                    forall|k: int| 0 <= k < word_len(rest) ==> !is_space(#[trigger] rest[k]),
                    word_len(rest) < rest.len() ==> is_space(rest[word_len(rest) as int]),
                decreases v@.len() - i,
            {
                assert(rest[i - start] == v@[i as int]);
                word.push(v[i]);
                assert(rest.take(i - start + 1) =~= rest.take(i - start).push(v@[i as int]));
                i = i + 1;
            }
            proof {
                let n = word_len(rest) as int;
                if i - start < n {
                    assert(rest[i - start] == v@[i as int]);
                }
                assert(rest[0] == v@[start as int]);
                assert(rest.skip(n) =~= v@.skip(i as int));
                assert(words(rest) == seq![rest.take(n)] + words(rest.skip(n)));
                assert(word.deep_view() =~= word@);
            }
            let ghost before = out.deep_view();
            out.push(word);
            assert(out.deep_view() =~= before.push(word@));
            assert(out.deep_view() + words(v@.skip(i as int)) =~= before + words(rest));
        }
    }
    assert(v@.skip(i as int).len() == 0);
    assert(out.deep_view() + words(v@.skip(i as int)) =~= out.deep_view());
    out
}

/// `s` without the spaces at either end.
pub open spec fn trimmed(s: Seq<char>) -> Seq<char>
    decreases s.len(),
{
    if s.len() == 0 {
        s
    } else if is_space(s[0]) {
        trimmed(s.drop_first())
    } else if is_space(s.last()) {
        trimmed(s.drop_last())
    } else {
        s
    }
}

/// `s` without the spaces at either end.
pub fn trim(s: &str) -> (r: String)
    ensures
        r@ == trimmed(s@),
{
    let v = chars_of(s);
    let mut a: usize = 0;
    let mut b: usize = v.len();
    assert(v@.subrange(0, v@.len() as int) =~= v@);
    while a < b && space(v[a])
        invariant
            a <= b == v@.len(),
            trimmed(v@.subrange(a as int, b as int)) == trimmed(v@),
        decreases b - a,
    {
        let ghost cur = v@.subrange(a as int, b as int);
        assert(cur[0] == v@[a as int]);
        assert(cur.drop_first() =~= v@.subrange(a + 1, b as int));
        a = a + 1;
    }
    while a < b && space(v[b - 1])
        invariant
            a <= b <= v@.len(),
            a < b ==> !is_space(v@[a as int]),
            trimmed(v@.subrange(a as int, b as int)) == trimmed(v@),
        decreases b - a,
    {
        let ghost cur = v@.subrange(a as int, b as int);
        assert(cur[0] == v@[a as int]);
        assert(cur.last() == v@[b - 1]);
        assert(cur.drop_last() =~= v@.subrange(a as int, b - 1));
        b = b - 1;
    }
    proof {
        let cur = v@.subrange(a as int, b as int);
        if a < b {
            assert(cur[0] == v@[a as int]);
            assert(cur.last() == v@[b - 1]);
        }
    }
    text_between(&v, a, b)
}

// ── Searching ──────────────────────────────────────────────────────────────

/// Whether `s` holds `t` starting at character `i`.
pub open spec fn holds_at(s: Seq<char>, t: Seq<char>, i: int) -> bool {
    &&& 0 <= i
    &&& i + t.len() <= s.len()
    &&& s.subrange(i, i + t.len()) == t
}

/// Whether `t` occurs in `s`.
pub open spec fn holds(s: Seq<char>, t: Seq<char>) -> bool {
    exists|i: int| holds_at(s, t, i)
}

/// Whether `s` begins with `t`.
pub open spec fn begins(s: Seq<char>, t: Seq<char>) -> bool {
    holds_at(s, t, 0)
}

/// Whether `v` holds `t` starting at `i`.
pub fn found_at(v: &Vec<char>, t: &Vec<char>, i: usize) -> (r: bool)
    ensures
        r == holds_at(v@, t@, i as int),
{
    if i > v.len() || t.len() > v.len() - i {
        return false;
    }
    let n: usize = v.len();
    for k in 0..t.len()
        invariant
            i + t@.len() <= v@.len() == n,
            forall|j: int| 0 <= j < k ==> v@[i + j] == t@[j],
    {
        if v[i + k] != t[k] {
            assert(v@.subrange(i as int, i + t@.len())[k as int] == v@[i + k]);
            return false;
        }
    }
    assert(v@.subrange(i as int, i + t@.len()) =~= t@);
    true
}

/// Whether `t` occurs in `s`.
pub fn contains(s: &str, t: &str) -> (r: bool)
    ensures
        r == holds(s@, t@),
{
    let v = chars_of(s);
    let w = chars_of(t);
    let mut i: usize = 0;
    while i <= v.len()
        invariant
            i <= v@.len() + 1,
            v@ == s@,
            w@ == t@,
            forall|j: int| 0 <= j < i ==> !holds_at(v@, w@, j),
        decreases v@.len() + 1 - i,
    {
        if found_at(&v, &w, i) {
            return true;
        }
        if i == v.len() {
            assert forall|j: int| !holds_at(v@, w@, j) by {
                if 0 <= j < i {
                }
            }
            return false;
        }
        i = i + 1;
    }
    false
}

/// Whether `s` begins with `t`.
pub fn starts_with(s: &str, t: &str) -> (r: bool)
    ensures
        r == begins(s@, t@),
{
    let v = chars_of(s);
    let w = chars_of(t);
    found_at(&v, &w, 0)
}

/// Where `c` first occurs in `s`; the length of `s` when it does not.
pub open spec fn first_of(s: Seq<char>, c: char) -> nat
    decreases s.len(),
{
    if s.len() == 0 || s[0] == c {
        0
    } else {
        1 + first_of(s.drop_first(), c)
    }
}

pub proof fn lemma_first_of(s: Seq<char>, c: char, i: int)
    requires
        0 <= i <= s.len(),
        forall|j: int| 0 <= j < i ==> s[j] != c,
        i < s.len() ==> s[i] == c,
    ensures
        first_of(s, c) == i,
    decreases s.len(),
{
    if i > 0 {
        let t = s.drop_first();
        assert forall|j: int| 0 <= j < i - 1 implies t[j] != c by {
            assert(t[j] == s[j + 1]);
        }
        lemma_first_of(t, c, i - 1);
    }
}

/// Where `c` first occurs in `v`; the length of `v` when it does not.
pub fn find_first(v: &Vec<char>, c: char) -> (i: usize)
    ensures
        i as nat == first_of(v@, c),
        i <= v@.len(),
        i < v@.len() ==> v@[i as int] == c,
        forall|j: int| 0 <= j < i ==> v@[j] != c,
{
    let mut i: usize = 0;
    while i < v.len() && v[i] != c
        invariant
            i <= v@.len(),
            forall|j: int| 0 <= j < i ==> v@[j] != c,
        decreases v@.len() - i,
    {
        i = i + 1;
    }
    proof {
        lemma_first_of(v@, c, i as int);
    }
    i
}

/// What follows the last `c` in `s`: the whole of `s` when it has none.
pub open spec fn after_last(s: Seq<char>, c: char) -> Seq<char>
    decreases s.len(),
{
    if s.contains(c) {
        let i = first_of(s, c) as int;
        if 0 <= i < s.len() {
            after_last(s.skip(i + 1), c)
        } else {
            s
        }
    } else {
        s
    }
}

/// What follows the last `c` in `v`.
pub fn tail_after(v: &Vec<char>, c: char) -> (r: Vec<char>)
    ensures
        r@ == after_last(v@, c),
{
    let mut start: usize = 0;
    let mut i: usize = 0;
    assert(v@.skip(0) =~= v@);
    while i < v.len()
        invariant
            start <= i <= v@.len(),
            forall|j: int| start <= j < i ==> v@[j] != c,
            after_last(v@.skip(start as int), c) == after_last(v@, c),
        decreases v@.len() - i,
    {
        if v[i] == c {
            proof {
                let t = v@.skip(start as int);
                assert(t[i - start] == c);
                assert(t.contains(c));
                assert forall|j: int| 0 <= j < i - start implies t[j] != c by {
                    assert(t[j] == v@[start + j]);
                }
                lemma_first_of(t, c, i - start);
                assert(t.skip(i - start + 1) =~= v@.skip(i + 1));
            }
            start = i + 1;
        }
        i = i + 1;
    }
    proof {
        let t = v@.skip(start as int);
        assert(!t.contains(c)) by {
            if t.contains(c) {
                let j = choose|j: int| 0 <= j < t.len() && t[j] == c;
                assert(t[j] == v@[start + j]);
            }
        }
    }
    let mut out: Vec<char> = Vec::new();
    for k in start..v.len()
        invariant
            start <= v@.len(),
            out@ == v@.subrange(start as int, k as int),
    {
        out.push(v[k]);
        assert(v@.subrange(start as int, k + 1) =~= v@.subrange(start as int, k as int).push(v@[k as int]));
    }
    assert(v@.subrange(start as int, v@.len() as int) =~= v@.skip(start as int));
    out
}

/// What follows the last `c` in `s`.
pub fn text_after(s: &str, c: char) -> (r: String)
    ensures
        r@ == after_last(s@, c),
{
    let v = chars_of(s);
    let t = tail_after(&v, c);
    text_of(&t)
}

// ── Pieces ─────────────────────────────────────────────────────────────────

/// What stands between the `c`s of `s`, empty pieces left out.
pub open spec fn pieces(s: Seq<char>, c: char) -> Seq<Seq<char>>
    decreases s.len(),
{
    if s.len() == 0 {
        Seq::empty()
    } else if s[0] == c {
        pieces(s.drop_first(), c)
    } else {
        let n = first_of(s, c) as int;
        if 0 < n <= s.len() {
            seq![s.take(n)] + pieces(s.skip(n), c)
        } else {
            Seq::empty()
        }
    }
}

/// What stands between the `c`s of `s`, empty pieces left out.
pub fn pieces_of(s: &str, c: char) -> (out: Vec<String>)
    ensures
        out.deep_view() == pieces(s@, c),
{
    let v = chars_of(s);
    let mut out: Vec<String> = none();
    let mut i: usize = 0;
    assert(v@.skip(0) =~= v@);
    assert(out.deep_view() + pieces(v@, c) =~= pieces(v@, c));
    while i < v.len()
        invariant
            i <= v@.len(),
            out.deep_view() + pieces(v@.skip(i as int), c) == pieces(v@, c),
        decreases v@.len() - i,
    {
        let ghost rest = v@.skip(i as int);
        assert(rest[0] == v@[i as int]);
        if v[i] == c {
            assert(rest.drop_first() =~= v@.skip(i + 1));
            i = i + 1;
        } else {
            let start: usize = i;
            while i < v.len() && v[i] != c
                invariant
                    start <= i <= v@.len(),
                    forall|j: int| start <= j < i ==> v@[j] != c,
                decreases v@.len() - i,
            {
                i = i + 1;
            }
            let piece = text_between(&v, start, i);
            proof {
                let n = i - start;
                assert forall|j: int| 0 <= j < n implies rest[j] != c by {
                    assert(rest[j] == v@[start + j]);
                }
                if n < rest.len() {
                    assert(rest[n] == v@[i as int]);
                }
                lemma_first_of(rest, c, n);
                assert(v@.subrange(start as int, i as int) =~= rest.take(n));
                assert(rest.skip(n) =~= v@.skip(i as int));
                assert(n > 0);
            }
            let ghost before = out.deep_view();
            put(&mut out, piece);
            assert(out.deep_view() + pieces(v@.skip(i as int), c) =~= before + pieces(rest, c));
        }
    }
    assert(v@.skip(i as int).len() == 0);
    assert(out.deep_view() + pieces(v@.skip(i as int), c) =~= out.deep_view());
    out
}

/// The first `n` of `parts`, `sep` between them.
pub open spec fn joined(parts: Seq<Seq<char>>, sep: Seq<char>, n: int) -> Seq<char>
    decreases n,
{
    if n <= 0 {
        Seq::empty()
    } else if n == 1 {
        parts[0]
    } else {
        joined(parts, sep, n - 1) + sep + parts[n - 1]
    }
}

/// All of `parts`, `sep` between them.
pub fn join(parts: &Vec<String>, sep: &str) -> (r: String)
    ensures
        r@ == joined(parts.deep_view(), sep@, parts@.len() as int),
{
    let ghost p = parts.deep_view();
    let mut r = String::new();
    let mut i: usize = 0;
    while i < parts.len()
        invariant
            i <= parts@.len(),
            p == parts.deep_view(),
            r@ == joined(p, sep@, i as int),
        decreases parts@.len() - i,
    {
        assert(p[i as int] == parts@[i as int]@);
        if i == 0 {
            r = parts[0].as_str().to_string();
        } else {
            r.append(sep);
            r.append(&parts[i]);
        }
        i = i + 1;
    }
    r
}

/// `s` with every `from` made a `to`.
pub open spec fn swapped(s: Seq<char>, from: char, to: char) -> Seq<char> {
    Seq::new(
        s.len(),
        |i: int|
            if s[i] == from {
                to
            } else {
                s[i]
            },
    )
}

/// `s` with every `from` made a `to`.
pub fn swap_char(s: &str, from: char, to: char) -> (r: String)
    ensures
        r@ == swapped(s@, from, to),
{
    let v = chars_of(s);
    let mut out = String::new();
    for i in 0..v.len()
        invariant
            v@ == s@,
            out@ == swapped(s@, from, to).take(i as int),
    {
        if v[i] == from {
            out.push(to);
        } else {
            out.push(v[i]);
        }
        assert(out@ =~= swapped(s@, from, to).take(i + 1));
    }
    assert(swapped(s@, from, to).take(s@.len() as int) =~= swapped(s@, from, to));
    out
}

/// `s` for anything but one.
#[verifier::allow_in_spec]
pub fn plural(n: usize) -> &'static str
    returns
        (if n == 1 {
            ""
        } else {
            "s"
        }),
{
    if n == 1 {
        ""
    } else {
        "s"
    }
}

/// The text of an option, or another in its place.
pub open spec fn text_or(o: Option<String>, other: Seq<char>) -> Seq<char> {
    match o {
        Some(s) => s@,
        None => other,
    }
}

/// The text of an option, or another in its place.
pub fn or_text<'a>(o: &'a Option<String>, other: &'a str) -> (r: &'a str)
    ensures
        r@ == text_or(*o, other@),
{
    match o {
        Some(s) => s.as_str(),
        None => other,
    }
}

// ── ASCII case ─────────────────────────────────────────────────────────────

/// `c` in lower case when it is an ASCII capital, `c` otherwise.
pub open spec fn lower_ascii(c: char) -> char {
    if 'A' as int <= c as int <= 'Z' as int {
        (c as int + 32) as char
    } else {
        c
    }
}

/// `s` with its ASCII capitals in lower case.
pub open spec fn lowered(s: Seq<char>) -> Seq<char> {
    Seq::new(s.len(), |i: int| lower_ascii(s[i]))
}

/// Whether `c` is an ASCII letter or digit.
pub open spec fn alnum(c: char) -> bool {
    ||| 'a' as int <= c as int <= 'z' as int
    ||| 'A' as int <= c as int <= 'Z' as int
    ||| '0' as int <= c as int <= '9' as int
}

fn lower_char(c: char) -> (r: char)
    ensures
        r == lower_ascii(c),
{
    let n = c as u32;
    if 65 <= n && n <= 90 {
        ((n + 32) as u8) as char
    } else {
        c
    }
}

/// Whether `c` is an ASCII letter or digit.
pub fn is_alnum(c: char) -> (r: bool)
    ensures
        r == alnum(c),
{
    let n = c as u32;
    (97 <= n && n <= 122) || (65 <= n && n <= 90) || (48 <= n && n <= 57)
}

/// `v` with its ASCII capitals in lower case.
pub fn lower_chars(v: &Vec<char>) -> (r: Vec<char>)
    ensures
        r@ == lowered(v@),
{
    let mut out: Vec<char> = Vec::new();
    for i in 0..v.len()
        invariant
            out@ == lowered(v@).take(i as int),
    {
        out.push(lower_char(v[i]));
        assert(lowered(v@).take(i + 1) =~= lowered(v@).take(i as int).push(lower_ascii(v@[i as int])));
    }
    assert(lowered(v@).take(v@.len() as int) =~= lowered(v@));
    out
}

} // verus!
