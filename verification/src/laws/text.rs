//! Laws on texts: searching, cutting, trimming, joining, and numbers.

use vstd::prelude::*;

use crate::text::{
    decimal, digit_value, find_from, find_space, find_text_from, first_of, gather, has_infix,
    has_prefix, has_suffix, hexadecimal, in_order, is_control, is_space, joined, lemma_decimal_digits,
    lemma_decimal_number, lemma_find_from, lemma_find_from_is, lemma_find_space,
    lemma_find_text_from, lemma_find_text_from_is, lines, lines_from, lower, lowered, number,
    occurs_at, opt_str_view, opt_view, parsed, replaced, replaced_from, signed_decimal, split,
    split_from, split_once, str_views, text_lt, trim, trim_end, trim_start, unsigned, views,
    without_trailing, words, words_from, zero_padded,
};

verus! {

// ---------------------------------------------------------------------------
// Lists of texts
// ---------------------------------------------------------------------------

/// The texts of a list are those of its strings, one for one.
pub proof fn law_views_are_the_strings(v: Seq<String>, w: Seq<&str>, i: int)
    ensures
        views(v).len() == v.len(),
        str_views(w).len() == w.len(),
        0 <= i < v.len() ==> views(v)[i] == v[i]@,
        0 <= i < w.len() ==> str_views(w)[i] == w[i]@,
{
}

/// The text of an optional string is there where the string is.
pub proof fn law_optional_views_are_the_strings(s: String, t: &str)
    ensures
        opt_view(Some(s)) == Some(s@),
        opt_view(None) is None,
        opt_str_view(Some(t)) == Some(t@),
        opt_str_view(None) is None,
{
}

/// Joining nothing gives nothing, joining one text gives it, and each further
/// text comes behind a separator.
pub proof fn law_joined_adds_at_the_end(parts: Seq<Seq<char>>, x: Seq<char>, sep: Seq<char>)
    ensures
        joined(Seq::empty(), sep) == Seq::<char>::empty(),
        parts.len() == 0 ==> joined(parts.push(x), sep) == x,
        parts.len() > 0 ==> joined(parts.push(x), sep) == joined(parts, sep) + sep + x,
{
    assert(parts.push(x).drop_last() =~= parts);
}

/// What is said of a list is what is said of its front, and then of its last.
pub proof fn law_gather_adds_at_the_end<T, U>(items: Seq<T>, x: T, f: spec_fn(T) -> Seq<U>)
    ensures
        gather(Seq::<T>::empty(), f) == Seq::<U>::empty(),
        gather(items.push(x), f) == gather(items, f) + f(x),
{
    assert(items.push(x).drop_last() =~= items);
}

/// Something is said of a list exactly where it is said of one of its items.
pub proof fn law_gather_holds<T, U>(items: Seq<T>, f: spec_fn(T) -> Seq<U>, u: U)
    ensures
        gather(items, f).contains(u) <==> exists|i: int|
            0 <= i < items.len() && f(#[trigger] items[i]).contains(u),
    decreases items.len(),
{
    if items.len() > 0 {
        let front = items.drop_last();
        law_gather_holds(front, f, u);
        let a = gather(front, f);
        let b = f(items.last());
        let all = gather(items, f);
        assert(all == a + b);
        if all.contains(u) {
            let k = choose|k: int| 0 <= k < all.len() && all[k] == u;
            if k < a.len() {
                assert(a[k] == u);
                let i = choose|i: int| 0 <= i < front.len() && f(#[trigger] front[i]).contains(u);
                assert(items[i] == front[i]);
            } else {
                assert(b[k - a.len()] == u);
                assert(f(items[items.len() - 1]).contains(u));
            }
        }
        if exists|i: int| 0 <= i < items.len() && f(#[trigger] items[i]).contains(u) {
            let i = choose|i: int| 0 <= i < items.len() && f(#[trigger] items[i]).contains(u);
            if i < front.len() {
                assert(front[i] == items[i]);
                assert(a.contains(u));
                let k = choose|k: int| 0 <= k < a.len() && a[k] == u;
                assert(all[k] == u);
            } else {
                let k = choose|k: int| 0 <= k < b.len() && b[k] == u;
                assert(all[a.len() + k] == u);
            }
        }
    }
}

/// The first thing said of a list is what is said of the first item of which
/// anything is said.
pub proof fn law_first_of_is_the_first<T>(
    items: Seq<T>,
    f: spec_fn(T) -> Option<Seq<char>>,
    i: int,
)
    requires
        0 <= i < items.len(),
        forall|k: int| 0 <= k < i ==> f(#[trigger] items[k]) is None,
    ensures
        f(items[i]) is Some ==> first_of(items, f) == f(items[i]),
    decreases items.len(),
{
    if i < items.len() - 1 {
        let front = items.drop_last();
        assert forall|k: int| 0 <= k < i implies f(#[trigger] front[k]) is None by {
            assert(front[k] == items[k]);
        }
        assert(front[i] == items[i]);
        law_first_of_is_the_first(front, f, i);
    } else {
        let front = items.drop_last();
        crate::text::lemma_first_of_none(front, f);
        assert forall|k: int| 0 <= k < front.len() implies f(#[trigger] front[k]) is None by {
            assert(front[k] == items[k]);
        }
    }
}

// ---------------------------------------------------------------------------
// Searching
// ---------------------------------------------------------------------------

/// A text begins, ends with, or holds another where it is that one with
/// something behind, before, or around it.
pub proof fn law_parts_of_a_text(a: Seq<char>, p: Seq<char>, b: Seq<char>, s: Seq<char>)
    ensures
        has_prefix(p + b, p),
        has_suffix(a + p, p),
        has_infix(a + p + b, p),
        occurs_at(a + p + b, p, a.len() as int),
        has_prefix(s, p) ==> exists|t: Seq<char>| s == #[trigger] (p + t),
        has_suffix(s, p) ==> exists|t: Seq<char>| s == #[trigger] (t + p),
        has_infix(s, p) ==> exists|t: Seq<char>, u: Seq<char>| s == #[trigger] (t + p + u),
{
    assert((p + b).take(p.len() as int) =~= p);
    assert((a + p).skip(a.len() as int) =~= p);
    let all = a + p + b;
    assert(all.subrange(a.len() as int, a.len() as int + p.len()) =~= p);
    assert(occurs_at(all, p, a.len() as int));
    if has_prefix(s, p) {
        assert(s =~= p + s.skip(p.len() as int));
    }
    if has_suffix(s, p) {
        assert(s =~= s.take(s.len() - p.len()) + p);
    }
    if has_infix(s, p) {
        let i = choose|i: int| #[trigger] occurs_at(s, p, i);
        assert(s =~= s.take(i) + p + s.skip(i + p.len()));
    }
}

proof fn lemma_find_from_shift(pre: Seq<char>, s: Seq<char>, c: char, i: int)
    requires
        0 <= i,
    ensures
        find_from(pre + s, c, pre.len() + i) == pre.len() + find_from(s, c, i),
    decreases s.len() - i,
{
    if i < s.len() {
        assert((pre + s)[pre.len() + i] == s[i]);
        lemma_find_from_shift(pre, s, c, i + 1);
    }
}

/// A text is cut at a character for the first time behind the part that does
/// not hold it.
pub proof fn law_split_once_is_at_the_first(a: Seq<char>, c: char, b: Seq<char>)
    requires
        !a.contains(c),
    ensures
        split_once(a + seq![c] + b, c) == Some((a, b)),
        split_once(a, c) is None,
        find_from(a + seq![c] + b, c, 0) == a.len(),
        find_from(a, c, 0) == a.len(),
{
    let s = a + seq![c] + b;
    assert forall|k: int| 0 <= k < a.len() implies s[k] != c && a[k] != c by {
        assert(a.contains(a[k]));
        assert(s[k] == a[k]);
    }
    lemma_find_from_is(s, c, 0, a.len() as int);
    lemma_find_from_is(a, c, 0, a.len() as int);
    assert(s.take(a.len() as int) =~= a);
    assert(s.skip(a.len() as int + 1) =~= b);
}

proof fn lemma_split_shift(pre: Seq<char>, s: Seq<char>, c: char, i: int)
    requires
        0 <= i <= s.len(),
    ensures
        split_from(pre + s, c, pre.len() + i) == split_from(s, c, i),
    decreases s.len() - i,
{
    let t = pre + s;
    lemma_find_from_shift(pre, s, c, i);
    lemma_find_from(s, c, i);
    let e = find_from(s, c, i);
    if e < s.len() {
        lemma_split_shift(pre, s, c, e + 1);
        assert(t.subrange(pre.len() + i, pre.len() + e) =~= s.subrange(i, e));
    } else {
        assert(t.skip(pre.len() + i) =~= s.skip(i));
    }
}

/// A text is cut at a character into the part before it and the pieces of what
/// follows; a text without it is one piece.
pub proof fn law_split_cuts_everywhere(a: Seq<char>, c: char, b: Seq<char>)
    requires
        !a.contains(c),
    ensures
        split(a, c) == seq![a],
        split(a + seq![c] + b, c) == seq![a] + split(b, c),
{
    law_split_once_is_at_the_first(a, c, b);
    let s = a + seq![c] + b;
    let pre = a + seq![c];
    lemma_split_shift(pre, b, c, 0);
    assert(s.subrange(0, a.len() as int) =~= a);
    assert(a.skip(0) =~= a);
}

proof fn lemma_lines_shift(pre: Seq<char>, s: Seq<char>, i: int)
    requires
        0 <= i <= s.len(),
    ensures
        lines_from(pre + s, pre.len() + i) == lines_from(s, i),
    decreases s.len() - i,
{
    let t = pre + s;
    lemma_find_from_shift(pre, s, '\n', i);
    lemma_find_from(s, '\n', i);
    let e = find_from(s, '\n', i);
    if i < s.len() {
        if e < s.len() {
            lemma_lines_shift(pre, s, e + 1);
            assert(t.subrange(pre.len() + i, pre.len() + e) =~= s.subrange(i, e));
        } else {
            assert(t.skip(pre.len() + i) =~= s.skip(i));
        }
    }
}

/// A line ends at a line feed, which may have a carriage return before it; the
/// last line may end with the text, and then keeps a carriage return.
pub proof fn law_lines_end_at_line_feeds(a: Seq<char>, b: Seq<char>)
    requires
        !a.contains('\n'),
    ensures
        lines(Seq::empty()) == Seq::<Seq<char>>::empty(),
        a.len() > 0 ==> lines(a) == seq![a],
        a.len() == 0 || a.last() != '\r' ==> lines(a + seq!['\n'] + b) == seq![a] + lines(b),
        lines(a + seq!['\r', '\n'] + b) == seq![a] + lines(b),
{
    law_split_once_is_at_the_first(a, '\n', b);
    let s = a + seq!['\n'] + b;
    let pre = a + seq!['\n'];
    lemma_lines_shift(pre, b, 0);
    assert(s.subrange(0, a.len() as int) =~= a);
    assert(a.skip(0) =~= a);
    let r = a.push('\r');
    assert(!r.contains('\n')) by {
        if r.contains('\n') {
            let k = choose|k: int| 0 <= k < r.len() && r[k] == '\n';
            assert(a[k] == '\n');
        }
    }
    law_split_once_is_at_the_first(r, '\n', b);
    let t = r + seq!['\n'] + b;
    assert(t =~= a + seq!['\r', '\n'] + b);
    lemma_lines_shift(r + seq!['\n'], b, 0);
    assert(t.subrange(0, r.len() as int) =~= r);
    assert(r.drop_last() =~= a);
}

proof fn lemma_find_space_shift(pre: Seq<char>, s: Seq<char>, i: int)
    requires
        0 <= i,
    ensures
        find_space(pre + s, pre.len() + i) == pre.len() + find_space(s, i),
    decreases s.len() - i,
{
    if i < s.len() {
        assert((pre + s)[pre.len() + i] == s[i]);
        lemma_find_space_shift(pre, s, i + 1);
    }
}

proof fn lemma_words_shift(pre: Seq<char>, s: Seq<char>, i: int)
    requires
        0 <= i <= s.len(),
    ensures
        words_from(pre + s, pre.len() + i) == words_from(s, i),
    decreases s.len() - i,
{
    let t = pre + s;
    if i < s.len() {
        assert(t[pre.len() + i] == s[i]);
        lemma_find_space(s, i);
        lemma_find_space_shift(pre, s, i);
        if is_space(s[i]) {
            lemma_words_shift(pre, s, i + 1);
        } else {
            let e = find_space(s, i);
            lemma_words_shift(pre, s, e);
            assert(t.subrange(pre.len() + i, pre.len() + e) =~= s.subrange(i, e));
        }
    }
}

proof fn lemma_find_space_is(s: Seq<char>, i: int, e: int)
    requires
        0 <= i <= e <= s.len(),
        forall|k: int| i <= k < e ==> !is_space(#[trigger] s[k]),
        e < s.len() ==> is_space(s[e]),
    ensures
        find_space(s, i) == e,
    decreases e - i,
{
    if i < e {
        assert(!is_space(s[i]));
        lemma_find_space_is(s, i + 1, e);
    }
}

/// White space is no part of any word and ends one; what has none is a word.
pub proof fn law_words_stand_between_spaces(w: Seq<char>, x: char, b: Seq<char>)
    requires
        w.len() > 0,
        forall|i: int| 0 <= i < w.len() ==> !is_space(#[trigger] w[i]),
        is_space(x),
    ensures
        words(Seq::empty()) == Seq::<Seq<char>>::empty(),
        words(w) == seq![w],
        words(seq![x] + b) == words(b),
        words(w + seq![x] + b) == seq![w] + words(b),
{
    let s = w + seq![x] + b;
    let n = w.len() as int;
    assert(!is_space(w[0]));
    lemma_find_space_is(w, 0, n);
    assert(w.subrange(0, n) =~= w);
    assert(words_from(w, n) =~= Seq::<Seq<char>>::empty());
    assert(words(w) =~= seq![w]);
    lemma_words_shift(seq![x], b, 0);
    assert((seq![x] + b)[0] == x);
    assert forall|k: int| 0 <= k < n implies !is_space(#[trigger] s[k]) by {
        assert(s[k] == w[k]);
    }
    assert(s[n] == x);
    lemma_find_space_is(s, 0, n);
    assert(s[0] == w[0]);
    lemma_words_shift(w + seq![x], b, 0);
    assert(s.subrange(0, n) =~= w);
    assert(words_from(s, n) == words_from(s, n + 1));
}

// ---------------------------------------------------------------------------
// Replacing
// ---------------------------------------------------------------------------

proof fn lemma_find_text_shift(pre: Seq<char>, s: Seq<char>, p: Seq<char>, i: int)
    requires
        0 <= i,
    ensures
        find_text_from(pre + s, p, pre.len() + i) == if find_text_from(s, p, i) < 0 {
            -1
        } else {
            pre.len() + find_text_from(s, p, i)
        },
    decreases s.len() + 1 - i,
{
    let t = pre + s;
    if i <= s.len() {
        if i + p.len() <= s.len() {
            assert(t.subrange(pre.len() + i, pre.len() + i + p.len()) =~= s.subrange(
                i,
                i + p.len(),
            ));
        }
        assert(occurs_at(t, p, pre.len() + i) == occurs_at(s, p, i));
        if !occurs_at(s, p, i) {
            lemma_find_text_shift(pre, s, p, i + 1);
        }
    }
}

proof fn lemma_replaced_shift(pre: Seq<char>, s: Seq<char>, p: Seq<char>, w: Seq<char>, i: int)
    requires
        0 <= i <= s.len(),
        p.len() > 0,
    ensures
        replaced_from(pre + s, p, w, pre.len() + i) == replaced_from(s, p, w, i),
    decreases s.len() - i,
{
    let t = pre + s;
    lemma_find_text_shift(pre, s, p, i);
    lemma_find_text_from(s, p, i);
    let f = find_text_from(s, p, i);
    if f < 0 {
        assert(t.skip(pre.len() + i) =~= s.skip(i));
    } else {
        lemma_replaced_shift(pre, s, p, w, f + p.len());
        assert(t.subrange(pre.len() + i, pre.len() + f) =~= s.subrange(i, f));
    }
}

/// A text is replaced where it first occurs, and then in what follows; a text
/// that does not hold it stays as it is.
pub proof fn law_replaced_everywhere(a: Seq<char>, p: Seq<char>, b: Seq<char>, w: Seq<char>)
    requires
        p.len() > 0,
        !has_infix((a + p).drop_last(), p),
    ensures
        replaced(a + p + b, p, w) == a + w + replaced(b, p, w),
        !has_infix(b, p) ==> replaced(b, p, w) == b,
{
    let s = a + p + b;
    let n = a.len() as int;
    let front = (a + p).drop_last();
    assert(s.subrange(n, n + p.len()) =~= p);
    assert forall|k: int| 0 <= k < n implies !occurs_at(s, p, k) by {
        if occurs_at(s, p, k) {
            assert(front.subrange(k, k + p.len()) =~= s.subrange(k, k + p.len()));
            assert(occurs_at(front, p, k));
        }
    }
    lemma_find_text_from_is(s, p, 0, n);
    lemma_replaced_shift(a + p, b, p, w, 0);
    assert(s.subrange(0, n) =~= a);
    if !has_infix(b, p) {
        lemma_find_text_from(b, p, 0);
        assert(b.skip(0) =~= b);
    }
}

// ---------------------------------------------------------------------------
// Trimming
// ---------------------------------------------------------------------------

proof fn lemma_trim_start_skips(a: Seq<char>, m: Seq<char>)
    requires
        forall|i: int| 0 <= i < a.len() ==> is_space(#[trigger] a[i]),
    ensures
        trim_start(a + m) == trim_start(m),
    decreases a.len(),
{
    if a.len() > 0 {
        let r = a.drop_first();
        assert forall|i: int| 0 <= i < r.len() implies is_space(#[trigger] r[i]) by {
            assert(r[i] == a[i + 1]);
        }
        lemma_trim_start_skips(r, m);
        assert((a + m)[0] == a[0]);
        assert(is_space(a[0]));
        assert((a + m).drop_first() =~= r + m);
    } else {
        assert(a + m =~= m);
    }
}

proof fn lemma_trim_end_skips(m: Seq<char>, b: Seq<char>)
    requires
        forall|i: int| 0 <= i < b.len() ==> is_space(#[trigger] b[i]),
    ensures
        trim_end(m + b) == trim_end(m),
    decreases b.len(),
{
    if b.len() > 0 {
        let r = b.drop_last();
        assert forall|i: int| 0 <= i < r.len() implies is_space(#[trigger] r[i]) by {
            assert(r[i] == b[i]);
        }
        lemma_trim_end_skips(m, r);
        assert((m + b).last() == b[b.len() - 1]);
        assert((m + b).drop_last() =~= m + r);
    } else {
        assert(m + b =~= m);
    }
}

/// Trimming takes away the white space around a text and nothing else.
pub proof fn law_trim_takes_the_space_around(a: Seq<char>, m: Seq<char>, b: Seq<char>)
    requires
        forall|i: int| 0 <= i < a.len() ==> is_space(#[trigger] a[i]),
        forall|i: int| 0 <= i < b.len() ==> is_space(#[trigger] b[i]),
        m.len() > 0 ==> !is_space(m[0]) && !is_space(m.last()),
    ensures
        trim(a + m + b) == m,
{
    assert(a + m + b =~= a + (m + b));
    lemma_trim_start_skips(a, m + b);
    lemma_trim_end_skips(m, b);
    if m.len() > 0 {
        assert((m + b)[0] == m[0]);
    } else {
        assert(m + b =~= b + m);
        lemma_trim_start_skips(b, m);
        assert(trim_start(m) == m);
    }
}

/// Cutting a character off the end takes away all of it that stands there and
/// nothing else.
pub proof fn law_trailing_characters_go(m: Seq<char>, c: char, k: nat)
    requires
        m.len() > 0 ==> m.last() != c,
    ensures
        without_trailing(m + Seq::new(k, |i: int| c), c) == m,
    decreases k,
{
    let t = Seq::new(k, |i: int| c);
    if k > 0 {
        let u = Seq::new((k - 1) as nat, |i: int| c);
        assert((m + t).drop_last() =~= m + u);
        assert((m + t).last() == c);
        law_trailing_characters_go(m, c, (k - 1) as nat);
    } else {
        assert(m + t =~= m);
    }
}

/// A text in lower case has the same length, with each of the 26 capitals in
/// lower case and every other character as it was.
pub proof fn law_lowered_changes_capitals(s: Seq<char>, i: int)
    requires
        0 <= i < s.len(),
    ensures
        lowered(s).len() == s.len(),
        'A' <= s[i] <= 'Z' ==> lowered(s)[i] as u32 == s[i] as u32 + 32,
        !('A' <= s[i] <= 'Z') ==> lowered(s)[i] == s[i],
{
    lemma_lower_char(s[i]);
}

proof fn lemma_lower_char(c: char)
    ensures
        'A' <= c <= 'Z' ==> lower(c) as u32 == c as u32 + 32,
        !('A' <= c <= 'Z') ==> lower(c) == c,
{
}

// ---------------------------------------------------------------------------
// Numbers
// ---------------------------------------------------------------------------

/// A number below ten is its digit; the last digit of a larger one is its
/// remainder by ten, behind the digits of its tenth.
pub proof fn law_decimal_digits(n: nat)
    ensures
        n < 10 ==> decimal(n).len() == 1 && decimal(n)[0] as u32 == 48 + n,
        n >= 10 ==> decimal(n).drop_last() == decimal(n / 10) && decimal(n).last() as u32 == 48 + n
            % 10,
{
    if n >= 10 {
        assert(decimal(n).drop_last() =~= decimal(n / 10));
    }
}

/// Hexadecimal digits are lower-case and written like decimal ones.
pub proof fn law_hexadecimal_digits(n: nat)
    ensures
        n < 10 ==> hexadecimal(n).len() == 1 && hexadecimal(n)[0] as u32 == 48 + n,
        10 <= n < 16 ==> hexadecimal(n).len() == 1 && hexadecimal(n)[0] as u32 == 87 + n,
        n >= 16 ==> hexadecimal(n) == hexadecimal(n / 16) + hexadecimal(n % 16),
{
    if n >= 16 {
        assert(hexadecimal(n) =~= hexadecimal(n / 16) + hexadecimal(n % 16));
    }
}

/// Only a negative number has a sign.
pub proof fn law_signs(n: nat)
    ensures
        signed_decimal(n as int) == decimal(n),
        n > 0 ==> signed_decimal(-(n as int)) == "-"@ + decimal(n),
{
}

/// Padding puts zeros before a text up to a width and never shortens it.
pub proof fn law_zeros_come_first(s: Seq<char>, w: nat, i: int)
    ensures
        zero_padded(s, w).len() == if s.len() < w {
            w
        } else {
            s.len()
        },
        has_suffix(zero_padded(s, w), s),
        0 <= i < zero_padded(s, w).len() - s.len() ==> zero_padded(s, w)[i] == '0',
{
    let z = zero_padded(s, w);
    assert(z.skip(z.len() - s.len()) =~= s);
}

/// A number that was written is read back, with or without a plus sign, up to
/// the limit; nothing is no number, and neither is anything but digits.
pub proof fn law_numbers_are_read_back(n: nat, max: nat, s: Seq<char>, i: int)
    ensures
        parsed(decimal(n), 10, max) == if n <= max {
            Some(n)
        } else {
            None
        },
        parsed(seq!['+'] + decimal(n), 10, max) == parsed(decimal(n), 10, max),
        parsed(Seq::empty(), 10, max) is None,
        parsed(seq!['+'], 10, max) is None,
        0 <= i < s.len() && !('0' <= s[i] <= '9') && (i > 0 || s[i] != '+') ==> parsed(s, 10, max)
            is None,
{
    lemma_decimal_number(n);
    lemma_decimal_digits(n);
    let d = decimal(n);
    assert('0' <= d[0] <= '9');
    assert((seq!['+'] + d).drop_first() =~= d);
    assert(seq!['+'].drop_first() =~= Seq::<char>::empty());
    if 0 <= i < s.len() && !('0' <= s[i] <= '9') && (i > 0 || s[i] != '+') {
        let u = unsigned(s);
        let k = if s[0] == '+' {
            i - 1
        } else {
            i
        };
        assert(u[k] == s[i]);
        lemma_no_digit(u, k);
    }
}

proof fn lemma_no_digit(s: Seq<char>, k: int)
    requires
        0 <= k < s.len(),
        !('0' <= s[k] <= '9'),
    ensures
        number(s, 10) is None,
    decreases s.len(),
{
    if k < s.len() - 1 {
        assert(s.drop_last()[k] == s[k]);
        lemma_no_digit(s.drop_last(), k);
    } else {
        lemma_digit_ten(s[k]);
    }
}

proof fn lemma_digit_ten(c: char)
    ensures
        digit_value(c, 10) is Some <==> '0' <= c <= '9',
        '0' <= c <= '9' ==> digit_value(c, 10) == Some((c as u32 - 48) as nat),
        digit_value(c, 16) is Some <==> ('0' <= c <= '9' || 'a' <= c <= 'f' || 'A' <= c <= 'F'),
{
}

/// Each further digit multiplies by the base and adds its value; capital
/// letters count like small ones.
pub proof fn law_digits_add_up(s: Seq<char>, c: char, n: nat)
    requires
        number(s, 16) == Some(n),
    ensures
        '0' <= c <= '9' ==> number(s.push(c), 16) == Some(n * 16 + (c as u32 - 48) as nat),
        'a' <= c <= 'f' ==> number(s.push(c), 16) == Some(n * 16 + (c as u32 - 87) as nat),
        'A' <= c <= 'F' ==> number(s.push(c), 16) == Some(n * 16 + (c as u32 - 55) as nat),
        !('0' <= c <= '9' || 'a' <= c <= 'f' || 'A' <= c <= 'F') ==> number(s.push(c), 16) is None,
        number(Seq::empty(), 16) == Some(0nat),
{
    assert(s.push(c).drop_last() =~= s);
}

// ---------------------------------------------------------------------------
// Order
// ---------------------------------------------------------------------------

/// Of two texts with a common beginning the one comes first that ends with it,
/// or goes on with the smaller character.
pub proof fn law_texts_are_ordered_by_characters(
    p: Seq<char>,
    x: char,
    y: char,
    a: Seq<char>,
    b: Seq<char>,
)
    ensures
        x < y ==> text_lt(p + seq![x] + a, p + seq![y] + b),
        x < y ==> !text_lt(p + seq![y] + b, p + seq![x] + a),
        text_lt(p, p + seq![y] + b),
        !text_lt(p + seq![y] + b, p),
        !text_lt(p, p),
    decreases p.len(),
{
    let s = p + seq![x] + a;
    let t = p + seq![y] + b;
    if p.len() == 0 {
        assert(s[0] == x && t[0] == y);
    } else {
        let q = p.drop_first();
        law_texts_are_ordered_by_characters(q, x, y, a, b);
        assert(s.drop_first() =~= q + seq![x] + a);
        assert(t.drop_first() =~= q + seq![y] + b);
        assert(s[0] == p[0] && t[0] == p[0]);
    }
}

/// A sorted list holds what the list holds, as often, and no text behind one
/// that comes after it.
pub proof fn law_sorting_orders(list: Seq<Seq<char>>, i: int, j: int)
    ensures
        in_order(list).to_multiset() == list.to_multiset(),
        0 <= i < j < in_order(list).len() ==> !text_lt(in_order(list)[j], in_order(list)[i]),
{
    crate::text::law_in_order(list);
}

/// White space is what Unicode says it is, and so are control characters.
pub proof fn law_white_space_and_controls(c: char)
    ensures
        is_space(c) <==> c as u32 == 0x20 || 0x09 <= c as u32 <= 0x0d || c as u32 == 0x85 || c as u32
            == 0xa0 || c as u32 == 0x1680 || 0x2000 <= c as u32 <= 0x200a || c as u32 == 0x2028
            || c as u32 == 0x2029 || c as u32 == 0x202f || c as u32 == 0x205f || c as u32 == 0x3000,
        is_control(c) <==> c as u32 <= 0x1f || 0x7f <= c as u32 <= 0x9f,
{
}

} // verus!
