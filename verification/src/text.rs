//! Text as sequences of characters: searching, splitting, trimming, and
//! writing numbers.

use vstd::prelude::*;

verus! {

/// `String::push` appends the character to the end of the string.
pub assume_specification[ String::push ](s: &mut String, c: char)
    ensures
        final(s)@ == old(s)@.push(c),
;

/// The text that `String::from_utf8_lossy` makes of `bytes`.
pub uninterp spec fn lossy_text(bytes: Seq<u8>) -> Seq<char>;

/// `String::from_utf8_lossy`. The text depends on the bytes alone; bytes that
/// are valid UTF-8 are read as the text that they encode. Of other bytes only
/// what is invalid is replaced, by U+FFFD, so that every ASCII character of the
/// text stands for a byte of its own.
#[verifier::external_body]
fn utf8_lossy(bytes: &[u8]) -> (r: String)
    ensures
        r@ == lossy_text(bytes@),
        vstd::utf8::valid_utf8(bytes@) ==> r@ == vstd::utf8::decode_utf8(bytes@),
        forall|i: int|
            0 <= i < r@.len() && #[trigger] r@[i] <= '\u{7f}' ==> bytes@.contains(r@[i] as u8),
{
    String::from_utf8_lossy(bytes).into_owned()
}

/// Bytes read as text.
pub open spec fn utf8_text(bytes: Seq<u8>) -> Seq<char> {
    if vstd::utf8::valid_utf8(bytes) {
        vstd::utf8::decode_utf8(bytes)
    } else {
        lossy_text(bytes)
    }
}

/// Reads bytes as text.
pub fn read_utf8(bytes: &[u8]) -> (r: String)
    ensures
        r@ == utf8_text(bytes@),
        forall|i: int|
            0 <= i < r@.len() && #[trigger] r@[i] <= '\u{7f}' ==> bytes@.contains(r@[i] as u8),
{
    utf8_lossy(bytes)
}

/// Bytes that encode a text are read as that text.
pub proof fn lemma_utf8_text(t: Seq<char>)
    ensures
        utf8_text(vstd::utf8::encode_utf8(t)) == t,
{
    vstd::utf8::encode_utf8_valid_utf8(t);
    vstd::utf8::encode_utf8_decode_utf8(t);
}

// ---------------------------------------------------------------------------
// Model
// ---------------------------------------------------------------------------

/// The texts of a list of strings.
pub open spec fn views(v: Seq<String>) -> Seq<Seq<char>> {
    v.map_values(|s: String| s@)
}

/// The texts of a list of string slices.
pub open spec fn str_views(v: Seq<&str>) -> Seq<Seq<char>> {
    v.map_values(|s: &str| s@)
}

/// The text of an optional string.
pub open spec fn opt_view(o: Option<String>) -> Option<Seq<char>> {
    match o {
        Some(s) => Some(s@),
        None => None,
    }
}

/// The text of an optional string slice.
pub open spec fn opt_str_view(o: Option<&str>) -> Option<Seq<char>> {
    match o {
        Some(s) => Some(s@),
        None => None,
    }
}

/// `s` begins with `p`.
pub open spec fn has_prefix(s: Seq<char>, p: Seq<char>) -> bool {
    p.len() <= s.len() && s.take(p.len() as int) == p
}

/// `s` ends with `p`.
pub open spec fn has_suffix(s: Seq<char>, p: Seq<char>) -> bool {
    p.len() <= s.len() && s.skip(s.len() - p.len()) == p
}

/// `p` occurs in `s` at position `i`.
pub open spec fn occurs_at<T>(s: Seq<T>, p: Seq<T>, i: int) -> bool {
    0 <= i && i + p.len() <= s.len() && s.subrange(i, i + p.len()) == p
}

/// `p` occurs somewhere in `s`.
pub open spec fn has_infix(s: Seq<char>, p: Seq<char>) -> bool {
    exists|i: int| #[trigger] occurs_at(s, p, i)
}

/// The first position at or after `i` that holds `c`, or the length of `s`.
pub open spec fn find_from(s: Seq<char>, c: char, i: int) -> int
    decreases s.len() - i,
{
    if i >= s.len() {
        s.len() as int
    } else if s[i] == c {
        i
    } else {
        find_from(s, c, i + 1)
    }
}

/// The first position at or after `i` at which `p` occurs, or -1.
pub open spec fn find_text_from<T>(s: Seq<T>, p: Seq<T>, i: int) -> int
    decreases s.len() + 1 - i,
{
    if i > s.len() {
        -1
    } else if occurs_at(s, p, i) {
        i
    } else {
        find_text_from(s, p, i + 1)
    }
}

/// The pieces of `s` from position `i` on, cut at every `c`.
pub open spec fn split_from(s: Seq<char>, c: char, i: int) -> Seq<Seq<char>>
    decreases s.len() - i,
    via split_from_decreases
{
    let e = find_from(s, c, i);
    if i < 0 || e >= s.len() {
        seq![s.skip(i)]
    } else {
        seq![s.subrange(i, e)] + split_from(s, c, e + 1)
    }
}

#[via_fn]
proof fn split_from_decreases(s: Seq<char>, c: char, i: int) {
    lemma_find_from(s, c, i);
}

/// `s` cut at every `c`: one piece more than there are `c`s.
pub open spec fn split(s: Seq<char>, c: char) -> Seq<Seq<char>> {
    split_from(s, c, 0)
}

/// `s` cut at its first `c`.
pub open spec fn split_once(s: Seq<char>, c: char) -> Option<(Seq<char>, Seq<char>)> {
    let e = find_from(s, c, 0);
    if e >= s.len() {
        None
    } else {
        Some((s.take(e), s.skip(e + 1)))
    }
}

/// A line without the carriage return that its line feed took along.
pub open spec fn strip_cr(s: Seq<char>) -> Seq<char> {
    if s.len() > 0 && s.last() == '\r' {
        s.drop_last()
    } else {
        s
    }
}

/// The lines of `s` from position `i` on: each ends at a line feed (with the
/// carriage return before it) or at the end of the text.
pub open spec fn lines_from(s: Seq<char>, i: int) -> Seq<Seq<char>>
    decreases s.len() - i,
    via lines_from_decreases
{
    let e = find_from(s, '\n', i);
    if i < 0 || i >= s.len() {
        Seq::empty()
    } else if e >= s.len() {
        seq![s.skip(i)]
    } else {
        seq![strip_cr(s.subrange(i, e))] + lines_from(s, e + 1)
    }
}

#[via_fn]
proof fn lines_from_decreases(s: Seq<char>, i: int) {
    lemma_find_from(s, '\n', i);
}

/// The lines of `s`.
pub open spec fn lines(s: Seq<char>) -> Seq<Seq<char>> {
    lines_from(s, 0)
}

/// The Unicode property White_Space.
pub open spec fn is_space(c: char) -> bool {
    ||| '\u{9}' <= c <= '\u{d}'
    ||| c == ' '
    ||| c == '\u{85}'
    ||| c == '\u{a0}'
    ||| c == '\u{1680}'
    ||| '\u{2000}' <= c <= '\u{200a}'
    ||| c == '\u{2028}'
    ||| c == '\u{2029}'
    ||| c == '\u{202f}'
    ||| c == '\u{205f}'
    ||| c == '\u{3000}'
}

/// The Unicode category Cc.
pub open spec fn is_control(c: char) -> bool {
    c <= '\u{1f}' || '\u{7f}' <= c <= '\u{9f}'
}

/// `s` without the white space at its end.
pub open spec fn trim_end(s: Seq<char>) -> Seq<char>
    decreases s.len(),
{
    if s.len() > 0 && is_space(s.last()) {
        trim_end(s.drop_last())
    } else {
        s
    }
}

/// `s` without the white space at its start.
pub open spec fn trim_start(s: Seq<char>) -> Seq<char>
    decreases s.len(),
{
    if s.len() > 0 && is_space(s[0]) {
        trim_start(s.drop_first())
    } else {
        s
    }
}

/// `s` without the white space at both ends.
pub open spec fn trim(s: Seq<char>) -> Seq<char> {
    trim_end(trim_start(s))
}

/// `s` without the `c`s at its end.
pub open spec fn without_trailing(s: Seq<char>, c: char) -> Seq<char>
    decreases s.len(),
{
    if s.len() > 0 && s.last() == c {
        without_trailing(s.drop_last(), c)
    } else {
        s
    }
}

/// What `f` says of each item, one after the other.
pub open spec fn gather<T, U>(items: Seq<T>, f: spec_fn(T) -> Seq<U>) -> Seq<U>
    decreases items.len(),
{
    if items.len() == 0 {
        Seq::empty()
    } else {
        gather(items.drop_last(), f) + f(items.last())
    }
}

/// The first thing that `f` has to say of an item.
pub open spec fn first_of<T>(items: Seq<T>, f: spec_fn(T) -> Option<Seq<char>>) -> Option<Seq<char>>
    decreases items.len(),
{
    if items.len() == 0 {
        None
    } else {
        match first_of(items.drop_last(), f) {
            Some(e) => Some(e),
            None => f(items.last()),
        }
    }
}

/// An ASCII letter in lower case, any other character unchanged.
pub open spec fn lower(c: char) -> char {
    if 'A' <= c <= 'Z' {
        (c as u8 + 32) as u8 as char
    } else {
        c
    }
}

/// `s` with its ASCII letters in lower case.
pub open spec fn lowered(s: Seq<char>) -> Seq<char> {
    s.map_values(|c: char| lower(c))
}

/// The decimal digit that stands for `d`.
pub open spec fn digit(d: nat) -> char {
    (48 + d) as u8 as char
}

/// `n` in decimal.
pub open spec fn decimal(n: nat) -> Seq<char>
    decreases n,
{
    if n < 10 {
        seq![digit(n)]
    } else {
        decimal(n / 10).push(digit(n % 10))
    }
}

/// The lower-case hexadecimal digit that stands for `d`.
pub open spec fn hex_digit(d: nat) -> char {
    if d < 10 {
        (48 + d) as u8 as char
    } else {
        (87 + d) as u8 as char
    }
}

/// `n` in hexadecimal.
pub open spec fn hexadecimal(n: nat) -> Seq<char>
    decreases n,
{
    if n < 16 {
        seq![hex_digit(n)]
    } else {
        hexadecimal(n / 16).push(hex_digit(n % 16))
    }
}

/// `s` with zeros in front of it up to a width of `w`.
pub open spec fn zero_padded(s: Seq<char>, w: nat) -> Seq<char> {
    if s.len() >= w {
        s
    } else {
        Seq::new((w - s.len()) as nat, |i: int| '0') + s
    }
}

/// A number in decimal, with a sign where it is negative.
pub open spec fn signed_decimal(n: int) -> Seq<char> {
    if n < 0 {
        "-"@ + decimal((-n) as nat)
    } else {
        decimal(n as nat)
    }
}

/// `s` from position `i` on with `with` in place of every `p`, taken from the
/// left.
pub open spec fn replaced_from(s: Seq<char>, p: Seq<char>, with: Seq<char>, i: int) -> Seq<char>
    decreases s.len() - i,
    via replaced_from_decreases
{
    let f = find_text_from(s, p, i);
    if p.len() == 0 || i < 0 || f < 0 {
        s.skip(i)
    } else {
        s.subrange(i, f) + with + replaced_from(s, p, with, f + p.len())
    }
}

#[via_fn]
proof fn replaced_from_decreases(s: Seq<char>, p: Seq<char>, with: Seq<char>, i: int) {
    if i >= 0 {
        lemma_find_text_from(s, p, i);
    }
}

/// `s` with `with` in place of every `p`.
pub open spec fn replaced(s: Seq<char>, p: Seq<char>, with: Seq<char>) -> Seq<char> {
    replaced_from(s, p, with, 0)
}

/// The value of `c` as a digit, in bases up to 16.
pub open spec fn digit_value(c: char, radix: nat) -> Option<nat> {
    let v = if '0' <= c <= '9' {
        c as nat - 48
    } else if 'a' <= c <= 'f' {
        c as nat - 87
    } else if 'A' <= c <= 'F' {
        c as nat - 55
    } else {
        -1
    };
    if 0 <= v < radix {
        Some(v as nat)
    } else {
        None
    }
}

/// The number that a row of digits stands for.
pub open spec fn number(s: Seq<char>, radix: nat) -> Option<nat>
    decreases s.len(),
{
    if s.len() == 0 {
        Some(0)
    } else {
        match (number(s.drop_last(), radix), digit_value(s.last(), radix)) {
            (Some(n), Some(d)) => Some(n * radix + d),
            _ => None,
        }
    }
}

/// The digits of a number, behind the `+` that may stand before them.
pub open spec fn unsigned(s: Seq<char>) -> Seq<char> {
    if s.len() > 0 && s[0] == '+' {
        s.drop_first()
    } else {
        s
    }
}

/// The number up to `max` that `s` writes: digits, at least one, and at most
/// one `+` before them.
pub open spec fn parsed(s: Seq<char>, radix: nat, max: nat) -> Option<nat> {
    match number(unsigned(s), radix) {
        Some(n) => if unsigned(s).len() > 0 && n <= max {
            Some(n)
        } else {
            None
        },
        None => None,
    }
}

/// The first position at or after `i` that holds white space, or the length.
pub open spec fn find_space(s: Seq<char>, i: int) -> int
    decreases s.len() - i,
{
    if i >= s.len() {
        s.len() as int
    } else if is_space(s[i]) {
        i
    } else {
        find_space(s, i + 1)
    }
}

/// The words of `s` from position `i` on.
pub open spec fn words_from(s: Seq<char>, i: int) -> Seq<Seq<char>>
    decreases s.len() - i,
    via words_from_decreases
{
    if i < 0 || i >= s.len() {
        Seq::empty()
    } else if is_space(s[i]) {
        words_from(s, i + 1)
    } else {
        seq![s.subrange(i, find_space(s, i))] + words_from(s, find_space(s, i))
    }
}

#[via_fn]
proof fn words_from_decreases(s: Seq<char>, i: int) {
    lemma_find_space(s, i);
}

/// The words of `s`: what stands between white space.
pub open spec fn words(s: Seq<char>) -> Seq<Seq<char>> {
    words_from(s, 0)
}

/// The texts of `parts` with `sep` between each two.
pub open spec fn joined(parts: Seq<Seq<char>>, sep: Seq<char>) -> Seq<char>
    decreases parts.len(),
{
    if parts.len() == 0 {
        Seq::empty()
    } else if parts.len() == 1 {
        parts[0]
    } else {
        joined(parts.drop_last(), sep) + sep + parts.last()
    }
}

/// `a` stands before `b` in the order of their characters' code points.
pub open spec fn text_lt(a: Seq<char>, b: Seq<char>) -> bool
    decreases a.len(),
{
    if b.len() == 0 {
        false
    } else if a.len() == 0 {
        true
    } else if a[0] == b[0] {
        text_lt(a.drop_first(), b.drop_first())
    } else {
        a[0] < b[0]
    }
}

/// `t` put into its place in a sorted list, behind texts equal to it.
pub open spec fn placed(list: Seq<Seq<char>>, t: Seq<char>) -> Seq<Seq<char>>
    decreases list.len(),
{
    if list.len() > 0 && text_lt(t, list.last()) {
        placed(list.drop_last(), t).push(list.last())
    } else {
        list.push(t)
    }
}

/// The texts of a list in order.
pub open spec fn in_order(list: Seq<Seq<char>>) -> Seq<Seq<char>>
    decreases list.len(),
{
    if list.len() == 0 {
        list
    } else {
        placed(in_order(list.drop_last()), list.last())
    }
}

/// No text stands behind one that it comes before.
pub open spec fn is_ordered(list: Seq<Seq<char>>) -> bool {
    forall|i: int, j: int|
        0 <= i < j < list.len() ==> !text_lt(#[trigger] list[j], #[trigger] list[i])
}

// ---------------------------------------------------------------------------
// Facts about the model
// ---------------------------------------------------------------------------

/// `find_from` is the least position at or after `i` that holds `c`.
pub proof fn lemma_find_from(s: Seq<char>, c: char, i: int)
    ensures
        find_from(s, c, i) <= s.len(),
        i <= s.len() ==> i <= find_from(s, c, i),
        i > s.len() ==> find_from(s, c, i) == s.len(),
        0 <= i && find_from(s, c, i) < s.len() ==> s[find_from(s, c, i)] == c,
        forall|k: int| 0 <= i <= k < find_from(s, c, i) ==> s[k] != c,
    decreases s.len() - i,
{
    if i < s.len() && s[i] != c {
        lemma_find_from(s, c, i + 1);
    }
}

/// A position that holds `c` with none before it from `i` on is what
/// `find_from` gives.
pub proof fn lemma_find_from_is(s: Seq<char>, c: char, i: int, e: int)
    requires
        0 <= i <= e <= s.len(),
        forall|k: int| i <= k < e ==> s[k] != c,
        e < s.len() ==> s[e] == c,
    ensures
        find_from(s, c, i) == e,
    decreases e - i,
{
    if i < e {
        lemma_find_from_is(s, c, i + 1, e);
    }
}

/// `find_space` stays within the text and goes on at a word's start.
pub proof fn lemma_find_space(s: Seq<char>, i: int)
    ensures
        find_space(s, i) <= s.len(),
        i <= s.len() ==> i <= find_space(s, i),
        0 <= i < s.len() && !is_space(s[i]) ==> i < find_space(s, i),
    decreases s.len() - i,
{
    if i < s.len() && !is_space(s[i]) {
        lemma_find_space(s, i + 1);
    }
}

/// A row of digits never stands for less than its front part does.
pub proof fn lemma_number_grows(s: Seq<char>, radix: nat, k: int)
    requires
        0 <= k <= s.len(),
        radix > 0,
        number(s, radix) is Some,
    ensures
        number(s.take(k), radix) is Some,
        number(s.take(k), radix)->0 <= number(s, radix)->0,
    decreases s.len() - k,
{
    if k == s.len() {
        assert(s.take(k) =~= s);
    } else {
        let f = s.drop_last();
        lemma_number_grows(f, radix, k);
        assert(f.take(k) =~= s.take(k));
        let n = number(f, radix)->0;
        assert(n * radix >= n) by (nonlinear_arith)
            requires
                radix > 0,
        ;
    }
}

/// Writing a number in hexadecimal and reading it gives the number back.
pub proof fn lemma_hexadecimal_number(n: nat)
    ensures
        number(hexadecimal(n), 16) == Some(n),
        hexadecimal(n).len() > 0,
        forall|i: int|
            0 <= i < hexadecimal(n).len() ==> '0' <= #[trigger] hexadecimal(n)[i] <= '9' || 'a'
                <= hexadecimal(n)[i] <= 'f',
    decreases n,
{
    let h = hexadecimal(n);
    if n < 16 {
        assert(h.drop_last() =~= Seq::<char>::empty());
        assert(h.last() == hex_digit(n));
        assert(number(h.drop_last(), 16) == Some(0nat));
    } else {
        lemma_hexadecimal_number(n / 16);
        assert(h.drop_last() =~= hexadecimal(n / 16));
        assert(h.last() == hex_digit(n % 16));
        assert forall|i: int| 0 <= i < h.len() implies '0' <= #[trigger] h[i] <= '9' || 'a' <= h[i]
            <= 'f' by {
            if i < h.len() - 1 {
                assert(h[i] == hexadecimal(n / 16)[i]);
            }
        }
    }
}

/// Writing a number in decimal and reading it gives the number back.
pub proof fn lemma_decimal_number(n: nat)
    ensures
        number(decimal(n), 10) == Some(n),
    decreases n,
{
    let d = decimal(n);
    if n < 10 {
        assert(d.drop_last() =~= Seq::<char>::empty());
        assert(d.last() == digit(n));
        assert(number(d.drop_last(), 10) == Some(0nat));
    } else {
        lemma_decimal_number(n / 10);
        assert(d.drop_last() =~= decimal(n / 10));
        assert(d.last() == digit(n % 10));
    }
}

/// Zeros in front of digits do not change their number.
pub proof fn lemma_leading_zeros(zeros: Seq<char>, s: Seq<char>, radix: nat)
    requires
        radix > 0,
        forall|i: int| 0 <= i < zeros.len() ==> #[trigger] zeros[i] == '0',
    ensures
        number(zeros + s, radix) == number(s, radix),
    decreases zeros.len() + s.len(),
{
    if s.len() > 0 {
        lemma_leading_zeros(zeros, s.drop_last(), radix);
        assert((zeros + s).drop_last() =~= zeros + s.drop_last());
    } else if zeros.len() > 0 {
        let z = zeros.drop_last();
        assert forall|i: int| 0 <= i < z.len() implies #[trigger] z[i] == '0' by {
            assert(z[i] == zeros[i]);
        }
        lemma_leading_zeros(z, s, radix);
        assert(z + s =~= z);
        assert(zeros + s =~= zeros);
        assert(zeros[zeros.len() - 1] == '0');
        assert(digit_value('0', radix) == Some(0nat));
        assert(number(z, radix) == Some(0nat));
        assert(0 * radix == 0) by (nonlinear_arith);
    } else {
        assert(zeros + s =~= s);
    }
}

/// `find_text_from` is the least position at or after `i` at which `p` occurs.
pub proof fn lemma_find_text_from<T>(s: Seq<T>, p: Seq<T>, i: int)
    requires
        0 <= i,
    ensures
        ({
            let f = find_text_from(s, p, i);
            &&& f >= 0 ==> i <= f && occurs_at(s, p, f)
            &&& f >= 0 ==> forall|k: int| i <= k < f ==> !occurs_at(s, p, k)
            &&& f < 0 ==> f == -1 && forall|k: int| i <= k ==> !occurs_at(s, p, k)
        }),
    decreases s.len() + 1 - i,
{
    if i <= s.len() && !occurs_at(s, p, i) {
        lemma_find_text_from(s, p, i + 1);
    }
}

/// A position at which `p` occurs with none before it from `i` on is what
/// `find_text_from` gives.
pub proof fn lemma_find_text_from_is<T>(s: Seq<T>, p: Seq<T>, i: int, f: int)
    requires
        0 <= i <= f,
        occurs_at(s, p, f),
        forall|k: int| i <= k < f ==> !occurs_at(s, p, k),
    ensures
        find_text_from(s, p, i) == f,
    decreases f - i,
{
    if i < f {
        lemma_find_text_from_is(s, p, i + 1, f);
    }
}

/// More text behind leaves the first occurrence where it was.
pub proof fn lemma_find_text_extends<T>(s: Seq<T>, d: Seq<T>, p: Seq<T>)
    requires
        find_text_from(s, p, 0) >= 0,
    ensures
        find_text_from(s + d, p, 0) == find_text_from(s, p, 0),
{
    let f = find_text_from(s, p, 0);
    lemma_find_text_from(s, p, 0);
    assert forall|k: int| 0 <= k && k + p.len() <= s.len() implies #[trigger] occurs_at(s + d, p, k)
        == occurs_at(s, p, k) by {
        assert((s + d).subrange(k, k + p.len()) =~= s.subrange(k, k + p.len()));
    }
    lemma_find_text_from_is(s + d, p, 0, f);
}

/// `trim` takes a middle part of the text, with no white space at its ends.
pub proof fn lemma_trim_end(s: Seq<char>)
    ensures
        trim_end(s).len() <= s.len(),
        trim_end(s) == s.take(trim_end(s).len() as int),
        trim_end(s).len() > 0 ==> !is_space(trim_end(s).last()),
        forall|k: int| trim_end(s).len() <= k < s.len() ==> is_space(s[k]),
    decreases s.len(),
{
    if s.len() > 0 && is_space(s.last()) {
        lemma_trim_end(s.drop_last());
        assert(trim_end(s) =~= s.take(trim_end(s).len() as int));
        assert forall|k: int| trim_end(s).len() <= k < s.len() implies is_space(s[k]) by {
            if k < s.len() - 1 {
                assert(s.drop_last()[k] == s[k]);
            }
        }
    } else {
        assert(s =~= s.take(s.len() as int));
    }
}

/// White space at the start is gone from a trimmed text.
pub proof fn lemma_trim_start(s: Seq<char>)
    ensures
        trim_start(s).len() <= s.len(),
        trim_start(s) == s.skip(s.len() - trim_start(s).len()),
        trim_start(s).len() > 0 ==> !is_space(trim_start(s)[0]),
    decreases s.len(),
{
    if s.len() > 0 && is_space(s[0]) {
        lemma_trim_start(s.drop_first());
        assert(trim_start(s) =~= s.skip(s.len() - trim_start(s).len()));
    } else {
        assert(s =~= s.skip(0));
    }
}

/// A text without white space is left as it is.
pub proof fn lemma_trim_none(s: Seq<char>)
    requires
        forall|i: int| 0 <= i < s.len() ==> !is_space(#[trigger] s[i]),
    ensures
        trim(s) == s,
{
    if s.len() > 0 {
        assert(!is_space(s[0]));
        assert(!is_space(s[s.len() - 1]));
    }
}

/// What has been trimmed stays as it is.
pub proof fn lemma_trim_idempotent(s: Seq<char>)
    ensures
        trim(trim(s)) == trim(s),
{
    lemma_trim_start(s);
    lemma_trim_end(trim_start(s));
    let t = trim(s);
    if t.len() > 0 {
        assert(t[0] == trim_start(s)[0]);
        assert(trim_start(t) == t);
    }
}

/// What is said of the front part is said first.
pub proof fn lemma_first_of_front<T>(items: Seq<T>, f: spec_fn(T) -> Option<Seq<char>>, k: int)
    requires
        0 <= k <= items.len(),
    ensures
        first_of(items.take(k), f) is Some ==> first_of(items, f) == first_of(items.take(k), f),
    decreases items.len() - k,
{
    if k == items.len() {
        assert(items.take(k) =~= items);
    } else {
        lemma_first_of_front(items.drop_last(), f, k);
        assert(items.drop_last().take(k) =~= items.take(k));
    }
}

/// Nothing is said at all where nothing is said of any item.
pub proof fn lemma_first_of_none<T>(items: Seq<T>, f: spec_fn(T) -> Option<Seq<char>>)
    ensures
        first_of(items, f) is None <==> forall|i: int|
            0 <= i < items.len() ==> f(#[trigger] items[i]) is None,
    decreases items.len(),
{
    if items.len() > 0 {
        let front = items.drop_last();
        lemma_first_of_none(front, f);
        assert forall|i: int| 0 <= i < front.len() implies #[trigger] items[i] == front[i] by {}
        assert(items.last() == items[items.len() - 1]);
        if first_of(items, f) is None {
            assert forall|i: int| 0 <= i < items.len() implies f(#[trigger] items[i]) is None by {
                if i < front.len() {
                    assert(items[i] == front[i]);
                }
            }
        }
        if forall|i: int| 0 <= i < items.len() ==> f(#[trigger] items[i]) is None {
            assert forall|i: int| 0 <= i < front.len() implies f(#[trigger] front[i]) is None by {
                assert(items[i] == front[i]);
            }
        }
    }
}

proof fn lemma_text_not_lt_itself(a: Seq<char>)
    ensures
        !text_lt(a, a),
    decreases a.len(),
{
    if a.len() > 0 {
        lemma_text_not_lt_itself(a.drop_first());
    }
}

/// The order of texts is transitive, and no text comes before itself.
pub proof fn lemma_text_lt(a: Seq<char>, b: Seq<char>, c: Seq<char>)
    ensures
        !text_lt(a, a),
        text_lt(a, b) && text_lt(b, c) ==> text_lt(a, c),
        text_lt(a, b) ==> !text_lt(b, a),
        !text_lt(a, b) && !text_lt(b, a) ==> a == b,
    decreases a.len() + b.len() + c.len(),
{
    lemma_text_not_lt_itself(a);
    if a.len() > 0 && b.len() > 0 && a[0] == b[0] {
        if c.len() > 0 {
            lemma_text_lt(a.drop_first(), b.drop_first(), c.drop_first());
        } else {
            lemma_text_lt(a.drop_first(), b.drop_first(), c);
        }
        if a.drop_first() == b.drop_first() {
            assert(a =~= seq![a[0]] + a.drop_first());
            assert(b =~= seq![b[0]] + b.drop_first());
        }
    }
    if a.len() == 0 && b.len() == 0 {
        assert(a =~= b);
    }
}

proof fn lemma_placed(list: Seq<Seq<char>>, t: Seq<char>)
    requires
        is_ordered(list),
    ensures
        is_ordered(placed(list, t)),
        placed(list, t).to_multiset() == list.to_multiset().insert(t),
    decreases list.len(),
{
    broadcast use vstd::seq_lib::group_to_multiset_ensures;

    let p = placed(list, t);
    if list.len() > 0 && text_lt(t, list.last()) {
        let front = list.drop_last();
        assert(is_ordered(front)) by {
            assert forall|i: int, j: int| 0 <= i < j < front.len() implies !text_lt(
                #[trigger] front[j],
                #[trigger] front[i],
            ) by {
                assert(front[i] == list[i] && front[j] == list[j]);
            }
        }
        lemma_placed(front, t);
        let q = placed(front, t);
        assert(list =~= front.push(list.last()));
        assert(p.to_multiset() =~= list.to_multiset().insert(t));
        assert forall|i: int, j: int| 0 <= i < j < p.len() implies !text_lt(
            #[trigger] p[j],
            #[trigger] p[i],
        ) by {
            if j == q.len() {
                let x = q[i];
                assert(q.to_multiset().count(x) > 0) by {
                    assert(q.contains(x));
                }
                if x == t {
                    lemma_text_lt(t, list.last(), t);
                } else {
                    assert(front.to_multiset().count(x) > 0);
                    assert(front.contains(x));
                    let k = choose|k: int| 0 <= k < front.len() && front[k] == x;
                    assert(list[k] == x);
                    assert(!text_lt(list[list.len() - 1], list[k]));
                }
            } else {
                assert(p[i] == q[i] && p[j] == q[j]);
            }
        }
    } else {
        assert(p =~= list.push(t));
        assert(p.to_multiset() =~= list.to_multiset().insert(t));
        assert forall|i: int, j: int| 0 <= i < j < p.len() implies !text_lt(
            #[trigger] p[j],
            #[trigger] p[i],
        ) by {
            if j == list.len() {
                let l = list[list.len() - 1];
                if i < list.len() - 1 {
                    assert(!text_lt(list[list.len() - 1], list[i]));
                    lemma_text_lt(t, list[i], l);
                    lemma_text_lt(l, list[i], l);
                }
            } else {
                assert(p[i] == list[i] && p[j] == list[j]);
            }
        }
    }
}

/// Putting a list in order keeps what it holds.
pub proof fn law_in_order(list: Seq<Seq<char>>)
    ensures
        is_ordered(in_order(list)),
        in_order(list).to_multiset() == list.to_multiset(),
        forall|t: Seq<char>| #[trigger] in_order(list).contains(t) <==> list.contains(t),
    decreases list.len(),
{
    broadcast use vstd::seq_lib::group_to_multiset_ensures;

    if list.len() > 0 {
        law_in_order(list.drop_last());
        lemma_placed(in_order(list.drop_last()), list.last());
        assert(list =~= list.drop_last().push(list.last()));
    }
    assert forall|t: Seq<char>| #[trigger] in_order(list).contains(t) <==> list.contains(t) by {
        assert(in_order(list).contains(t) <==> in_order(list).to_multiset().count(t) > 0);
        assert(list.contains(t) <==> list.to_multiset().count(t) > 0);
    }
}

/// `decimal` writes at least one character, all of them digits.
pub proof fn lemma_decimal_digits(n: nat)
    ensures
        decimal(n).len() > 0,
        forall|k: int| 0 <= k < decimal(n).len() ==> '0' <= #[trigger] decimal(n)[k] <= '9',
    decreases n,
{
    if n >= 10 {
        lemma_decimal_digits(n / 10);
    }
}

// ---------------------------------------------------------------------------
// Strings and characters
// ---------------------------------------------------------------------------

/// The characters of `s`.
pub fn chars_of(s: &str) -> (r: Vec<char>)
    ensures
        r@ == s@,
{
    let mut out: Vec<char> = Vec::new();
    for c in it: s.chars()
        invariant
            it.seq() == s@,
            out@ == s@.take(it.index() as int),
    {
        proof {
            assert(s@.take(it.index() + 1) =~= s@.take(it.index() as int).push(
                s@[it.index() as int],
            ));
        }
        out.push(c);
    }
    proof {
        assert(s@.take(s@.len() as int) =~= s@);
    }
    out
}

/// The text made of the characters `lo..hi` of `v`.
pub fn text_range(v: &Vec<char>, lo: usize, hi: usize) -> (r: String)
    requires
        lo <= hi <= v@.len(),
    ensures
        r@ == v@.subrange(lo as int, hi as int),
{
    let mut out = String::new();
    let mut i: usize = lo;
    proof {
        assert(v@.subrange(lo as int, lo as int) =~= Seq::<char>::empty());
    }
    while i < hi
        invariant
            lo <= i <= hi <= v@.len(),
            out@ == v@.subrange(lo as int, i as int),
        decreases hi - i,
    {
        proof {
            assert(v@.subrange(lo as int, i + 1) =~= v@.subrange(lo as int, i as int).push(
                v@[i as int],
            ));
        }
        out.push(v[i]);
        i = i + 1;
    }
    out
}

/// Whether two texts are the same.
pub fn same(a: &str, b: &str) -> (r: bool)
    ensures
        r == (a@ == b@),
{
    let x: String = a.to_owned();
    let y: String = b.to_owned();
    x == y
}

/// Whether a text is in a list.
pub fn listed(s: &str, list: &Vec<String>) -> (r: bool)
    ensures
        r == views(list@).contains(s@),
{
    let ghost texts = views(list@);
    let mut i: usize = 0;
    while i < list.len()
        invariant
            i <= list@.len(),
            texts == views(list@),
            forall|j: int| 0 <= j < i ==> #[trigger] texts[j] != s@,
        decreases list@.len() - i,
    {
        proof {
            assert(texts[i as int] == list@[i as int]@);
        }
        if same(list[i].as_str(), s) {
            proof {
                assert(texts.contains(texts[i as int]));
            }
            return true;
        }
        i = i + 1;
    }
    false
}

/// The first position at or after `i` that holds `c`.
pub fn find_char(v: &Vec<char>, c: char, i: usize) -> (r: usize)
    requires
        i <= v@.len(),
    ensures
        r == find_from(v@, c, i as int),
        i <= r <= v@.len(),
        r < v@.len() ==> v@[r as int] == c,
        forall|k: int| i <= k < r ==> v@[k] != c,
{
    let mut e: usize = i;
    while e < v.len() && v[e] != c
        invariant
            i <= e <= v@.len(),
            forall|k: int| i <= k < e ==> v@[k] != c,
        decreases v@.len() - e,
    {
        e = e + 1;
    }
    proof {
        lemma_find_from_is(v@, c, i as int, e as int);
    }
    e
}

/// Whether `p` occurs in `v` at position `i`.
pub fn occurs(v: &Vec<char>, p: &Vec<char>, i: usize) -> (r: bool)
    requires
        i <= v@.len(),
    ensures
        r == occurs_at(v@, p@, i as int),
{
    if p.len() > v.len() - i {
        return false;
    }
    let mut k: usize = 0;
    while k < p.len()
        invariant
            i + p@.len() <= v@.len() <= usize::MAX,
            k <= p@.len(),
            forall|j: int| 0 <= j < k ==> v@[i + j] == p@[j],
        decreases p@.len() - k,
    {
        if v[i + k] != p[k] {
            proof {
                assert(v@.subrange(i as int, i + p@.len())[k as int] == v@[i + k]);
            }
            return false;
        }
        k = k + 1;
    }
    proof {
        assert(v@.subrange(i as int, i + p@.len()) =~= p@);
    }
    true
}

/// The first position at or after `i` at which `p` occurs in `v`.
pub fn find_text(v: &Vec<char>, p: &Vec<char>, i: usize) -> (r: Option<usize>)
    requires
        i <= v@.len(),
    ensures
        match r {
            Some(f) => f == find_text_from(v@, p@, i as int) && i <= f && occurs_at(
                v@,
                p@,
                f as int,
            ),
            None => find_text_from(v@, p@, i as int) == -1,
        },
{
    let mut f: usize = i;
    loop
        invariant
            i <= f <= v@.len(),
            find_text_from(v@, p@, i as int) == find_text_from(v@, p@, f as int),
        decreases v@.len() - f,
    {
        if occurs(v, p, f) {
            return Some(f);
        }
        if f == v.len() {
            proof {
                assert(find_text_from(v@, p@, f + 1) == -1);
            }
            return None;
        }
        f = f + 1;
    }
}

/// Whether `s` begins with `p`.
pub fn starts_with(s: &str, p: &str) -> (r: bool)
    ensures
        r == has_prefix(s@, p@),
{
    let v = chars_of(s);
    let q = chars_of(p);
    proof {
        if p@.len() <= s@.len() {
            assert(s@.subrange(0, p@.len() as int) =~= s@.take(p@.len() as int));
        }
    }
    occurs(&v, &q, 0)
}

/// Whether `s` ends with `p`.
pub fn ends_with(s: &str, p: &str) -> (r: bool)
    ensures
        r == has_suffix(s@, p@),
{
    let v = chars_of(s);
    let q = chars_of(p);
    if q.len() > v.len() {
        return false;
    }
    proof {
        assert(s@.subrange(s@.len() - p@.len(), s@.len() - p@.len() + p@.len()) =~= s@.skip(
            s@.len() - p@.len(),
        ));
    }
    occurs(&v, &q, v.len() - q.len())
}

/// Whether `p` occurs in `s`.
pub fn contains(s: &str, p: &str) -> (r: bool)
    ensures
        r == has_infix(s@, p@),
{
    let v = chars_of(s);
    let q = chars_of(p);
    proof {
        lemma_find_text_from(s@, p@, 0);
        let f = find_text_from(s@, p@, 0);
        if f < 0 {
            assert forall|i: int| !occurs_at(s@, p@, i) by {}
        }
    }
    find_text(&v, &q, 0).is_some()
}

/// `s` without its prefix `p`, where it has it.
pub fn strip_prefix(s: &str, p: &str) -> (r: Option<String>)
    ensures
        opt_view(r) == if has_prefix(s@, p@) {
            Some(s@.skip(p@.len() as int))
        } else {
            None
        },
{
    if !starts_with(s, p) {
        return None;
    }
    let v = chars_of(s);
    let n: usize = chars_of(p).len();
    proof {
        assert(s@.subrange(p@.len() as int, s@.len() as int) =~= s@.skip(p@.len() as int));
    }
    Some(text_range(&v, n, v.len()))
}

/// `s` cut at every `c`.
pub fn split_text(s: &str, c: char) -> (r: Vec<String>)
    ensures
        views(r@) == split(s@, c),
{
    let v = chars_of(s);
    let mut out: Vec<String> = Vec::new();
    let mut i: usize = 0;
    proof {
        assert(views(out@) + split_from(s@, c, 0) =~= split(s@, c));
    }
    loop
        invariant
            v@ == s@,
            i <= v@.len(),
            views(out@) + split_from(s@, c, i as int) == split(s@, c),
        decreases v@.len() - i,
    {
        let e: usize = find_char(&v, c, i);
        let piece = text_range(&v, i, e);
        let ghost before = out@;
        out.push(piece);
        proof {
            assert(views(out@) =~= views(before).push(piece@));
        }
        if e == v.len() {
            proof {
                assert(s@.skip(i as int) =~= piece@);
                assert(views(out@) =~= views(before) + split_from(s@, c, i as int));
            }
            return out;
        }
        proof {
            assert(views(out@) + split_from(s@, c, e + 1) =~= views(before) + split_from(
                s@,
                c,
                i as int,
            ));
        }
        i = e + 1;
    }
}

/// `s` cut at its first `c`.
pub fn split_at_char(s: &str, c: char) -> (r: Option<(String, String)>)
    ensures
        match r {
            Some((a, b)) => split_once(s@, c) == Some((a@, b@)),
            None => split_once(s@, c) is None,
        },
{
    let v = chars_of(s);
    let e: usize = find_char(&v, c, 0);
    if e == v.len() {
        return None;
    }
    let a = text_range(&v, 0, e);
    let b = text_range(&v, e + 1, v.len());
    proof {
        assert(a@ =~= s@.take(e as int));
        assert(b@ =~= s@.skip(e + 1));
    }
    Some((a, b))
}

/// The lines of `s`.
pub fn lines_of(s: &str) -> (r: Vec<String>)
    ensures
        views(r@) == lines(s@),
{
    let v = chars_of(s);
    let mut out: Vec<String> = Vec::new();
    let mut i: usize = 0;
    proof {
        assert(views(out@) + lines_from(s@, 0) =~= lines(s@));
    }
    while i < v.len()
        invariant
            v@ == s@,
            i <= v@.len(),
            views(out@) + lines_from(s@, i as int) == lines(s@),
        decreases v@.len() - i,
    {
        let e: usize = find_char(&v, '\n', i);
        let ghost before = out@;
        if e == v.len() {
            let piece = text_range(&v, i, e);
            out.push(piece);
            proof {
                assert(s@.skip(i as int) =~= piece@);
                assert(views(out@) =~= views(before) + lines_from(s@, i as int));
            }
            return out;
        }
        let ghost whole = s@.subrange(i as int, e as int);
        let end: usize = if e > i && v[e - 1] == '\r' {
            e - 1
        } else {
            e
        };
        let piece = text_range(&v, i, end);
        proof {
            assert(piece@ =~= strip_cr(whole));
        }
        out.push(piece);
        proof {
            assert(views(out@) + lines_from(s@, e + 1) =~= views(before) + lines_from(
                s@,
                i as int,
            ));
        }
        i = e + 1;
    }
    proof {
        assert(views(out@) + lines_from(s@, i as int) =~= views(out@));
    }
    out
}

/// The value of `c` as a digit.
pub fn digit_of(c: char, radix: u32) -> (r: Option<u32>)
    requires
        2 <= radix <= 16,
    ensures
        match r {
            Some(d) => digit_value(c, radix as nat) == Some(d as nat),
            None => digit_value(c, radix as nat) is None,
        },
{
    let v: u32 = if c >= '0' && c <= '9' {
        c as u32 - 48
    } else if c >= 'a' && c <= 'f' {
        c as u32 - 87
    } else if c >= 'A' && c <= 'F' {
        c as u32 - 55
    } else {
        16
    };
    if v < radix {
        Some(v)
    } else {
        None
    }
}

/// Reads a number up to `max`.
pub fn parse_number(s: &str, radix: u32, max: usize) -> (r: Option<usize>)
    requires
        2 <= radix <= 16,
    ensures
        match r {
            Some(n) => parsed(s@, radix as nat, max as nat) == Some(n as nat),
            None => parsed(s@, radix as nat, max as nat) is None,
        },
{
    let v = chars_of(s);
    let start: usize = if v.len() > 0 && v[0] == '+' {
        1
    } else {
        0
    };
    let ghost digits = unsigned(s@);
    proof {
        assert(digits =~= s@.skip(start as int));
    }
    if start == v.len() {
        return None;
    }
    let mut acc: usize = 0;
    let mut i: usize = start;
    while i < v.len()
        invariant
            v@ == s@,
            start <= i <= v@.len(),
            2 <= radix <= 16,
            digits == unsigned(s@),
            digits == s@.skip(start as int),
            acc <= max,
            number(digits.take(i - start), radix as nat) == Some(acc as nat),
        decreases v@.len() - i,
    {
        proof {
            let k = i - start;
            assert(digits.take(k + 1).drop_last() =~= digits.take(k));
            assert(digits.take(k + 1).last() == v@[i as int]);
            assert(acc * radix <= 0xffff_ffff_ffff_ffff * 16) by (nonlinear_arith)
                requires
                    acc <= 0xffff_ffff_ffff_ffff,
                    radix <= 16,
            ;
        }
        match digit_of(v[i], radix) {
            Some(d) => {
                let next: u128 = acc as u128 * radix as u128 + d as u128;
                if next > max as u128 {
                    proof {
                        if number(digits, radix as nat) is Some {
                            lemma_number_grows(digits, radix as nat, i - start + 1);
                        }
                    }
                    return None;
                }
                acc = next as usize;
            },
            None => {
                proof {
                    if number(digits, radix as nat) is Some {
                        lemma_number_grows(digits, radix as nat, i - start + 1);
                    }
                }
                return None;
            },
        }
        i = i + 1;
    }
    proof {
        assert(digits.take(i - start) =~= digits);
    }
    Some(acc)
}

/// The words of `s`.
pub fn words_of(s: &str) -> (r: Vec<String>)
    ensures
        views(r@) == words(s@),
{
    let v = chars_of(s);
    let mut out: Vec<String> = Vec::new();
    let mut i: usize = 0;
    proof {
        assert(views(out@) + words_from(s@, 0) =~= words(s@));
    }
    while i < v.len()
        invariant
            v@ == s@,
            i <= v@.len(),
            views(out@) + words_from(s@, i as int) == words(s@),
        decreases v@.len() - i,
    {
        if space(v[i]) {
            i = i + 1;
        } else {
            let mut e: usize = i;
            while e < v.len() && !space(v[e])
                invariant
                    v@ == s@,
                    i <= e <= v@.len(),
                    find_space(s@, i as int) == find_space(s@, e as int),
                decreases v@.len() - e,
            {
                e = e + 1;
            }
            proof {
                lemma_find_space(s@, i as int);
            }
            let word = text_range(&v, i, e);
            let ghost before = out@;
            out.push(word);
            proof {
                assert(views(out@) + words_from(s@, e as int) =~= views(before) + words_from(
                    s@,
                    i as int,
                ));
            }
            i = e;
        }
    }
    proof {
        assert(views(out@) + words_from(s@, i as int) =~= views(out@));
    }
    out
}

/// Whether `c` is white space.
pub fn space(c: char) -> (r: bool)
    ensures
        r == is_space(c),
{
    (c >= '\u{9}' && c <= '\u{d}') || c == ' ' || c == '\u{85}' || c == '\u{a0}' || c == '\u{1680}'
        || (c >= '\u{2000}' && c <= '\u{200a}') || c == '\u{2028}' || c == '\u{2029}' || c
        == '\u{202f}' || c == '\u{205f}' || c == '\u{3000}'
}

/// Whether `c` is a control character.
pub fn control(c: char) -> (r: bool)
    ensures
        r == is_control(c),
{
    c <= '\u{1f}' || (c >= '\u{7f}' && c <= '\u{9f}')
}

/// `s` without the white space at both ends.
pub fn trimmed(s: &str) -> (r: String)
    ensures
        r@ == trim(s@),
{
    let v = chars_of(s);
    let mut lo: usize = 0;
    proof {
        assert(s@.skip(0) =~= s@);
    }
    while lo < v.len() && space(v[lo])
        invariant
            v@ == s@,
            lo <= v@.len(),
            trim_start(s@.skip(lo as int)) == trim_start(s@),
        decreases v@.len() - lo,
    {
        proof {
            assert(s@.skip(lo as int).drop_first() =~= s@.skip(lo + 1));
        }
        lo = lo + 1;
    }
    let ghost rest = s@.skip(lo as int);
    let mut hi: usize = v.len();
    proof {
        assert(s@.subrange(lo as int, hi as int) =~= rest);
    }
    while hi > lo && space(v[hi - 1])
        invariant
            v@ == s@,
            lo <= hi <= v@.len(),
            trim_end(s@.subrange(lo as int, hi as int)) == trim_end(rest),
        decreases hi,
    {
        proof {
            assert(s@.subrange(lo as int, hi as int).drop_last() =~= s@.subrange(
                lo as int,
                hi - 1,
            ));
        }
        hi = hi - 1;
    }
    text_range(&v, lo, hi)
}

/// `s` without the `c`s at its end.
pub fn trim_trailing(s: &str, c: char) -> (r: String)
    ensures
        r@ == without_trailing(s@, c),
{
    let v = chars_of(s);
    let mut hi: usize = v.len();
    proof {
        assert(s@.subrange(0, hi as int) =~= s@);
    }
    while hi > 0 && v[hi - 1] == c
        invariant
            v@ == s@,
            hi <= v@.len(),
            without_trailing(s@.subrange(0, hi as int), c) == without_trailing(s@, c),
        decreases hi,
    {
        proof {
            assert(s@.subrange(0, hi as int).drop_last() =~= s@.subrange(0, hi - 1));
        }
        hi = hi - 1;
    }
    text_range(&v, 0, hi)
}

/// `c` in lower case, where it is an ASCII letter.
pub fn lower_char(c: char) -> (r: char)
    ensures
        r == lower(c),
{
    if c >= 'A' && c <= 'Z' {
        (c as u8 + 32) as char
    } else {
        c
    }
}

/// `s` with its ASCII letters in lower case.
pub fn lower_text(s: &str) -> (r: String)
    ensures
        r@ == lowered(s@),
{
    let v = chars_of(s);
    let mut out = String::new();
    let mut i: usize = 0;
    while i < v.len()
        invariant
            v@ == s@,
            i <= v@.len(),
            out@ == lowered(s@.take(i as int)),
        decreases v@.len() - i,
    {
        proof {
            assert(lowered(s@.take(i + 1)) =~= lowered(s@.take(i as int)).push(
                lower(s@[i as int]),
            ));
        }
        out.push(lower_char(v[i]));
        i = i + 1;
    }
    proof {
        assert(s@.take(i as int) =~= s@);
    }
    out
}

/// `n` in decimal.
pub fn decimal_text(n: u128) -> (r: String)
    ensures
        r@ == decimal(n as nat),
    decreases n,
{
    let d: char = (48 + (n % 10) as u8) as char;
    let mut out = if n < 10 {
        String::new()
    } else {
        decimal_text(n / 10)
    };
    out.push(d);
    proof {
        if n < 10 {
            assert(out@ =~= decimal(n as nat));
        }
    }
    out
}

/// A number in decimal, with a sign where it is negative.
pub fn signed_decimal_text(n: i64) -> (r: String)
    ensures
        r@ == signed_decimal(n as int),
{
    if n < 0 {
        "-".to_owned().concat(decimal_text((-(n as i128)) as u128).as_str())
    } else {
        decimal_text(n as u128)
    }
}

/// `s` with `with` in place of every `p`.
pub fn replace_text(s: &str, p: &str, with: &str) -> (r: String)
    requires
        p@.len() > 0,
    ensures
        r@ == replaced(s@, p@, with@),
{
    let v = chars_of(s);
    let q = chars_of(p);
    let len: usize = v.len();
    let mut out = String::new();
    let mut i: usize = 0;
    proof {
        assert(out@ + replaced_from(s@, p@, with@, 0) =~= replaced(s@, p@, with@));
    }
    loop
        invariant
            v@ == s@,
            q@ == p@,
            len == v@.len(),
            p@.len() > 0,
            i <= len,
            out@ + replaced_from(s@, p@, with@, i as int) == replaced(s@, p@, with@),
        decreases len - i,
    {
        let ghost before = out@;
        match find_text(&v, &q, i) {
            Some(f) => {
                let piece = text_range(&v, i, f);
                out.append(piece.as_str());
                out.append(with);
                i = f + q.len();
                proof {
                    assert(out@ + replaced_from(s@, p@, with@, i as int) =~= before + (piece@ + with@
                        + replaced_from(s@, p@, with@, i as int)));
                }
            },
            None => {
                let piece = text_range(&v, i, len);
                out.append(piece.as_str());
                proof {
                    assert(piece@ =~= s@.skip(i as int));
                }
                return out;
            },
        }
    }
}

/// The hexadecimal digit that stands for `d`.
pub fn hex_char(d: u8) -> (r: char)
    requires
        d < 16,
    ensures
        r == hex_digit(d as nat),
{
    if d < 10 {
        (48 + d) as char
    } else {
        (87 + d) as char
    }
}

/// `n` in hexadecimal.
pub fn hex_text(n: u64) -> (r: String)
    ensures
        r@ == hexadecimal(n as nat),
    decreases n,
{
    let d: char = hex_char((n % 16) as u8);
    let mut out = if n < 16 {
        String::new()
    } else {
        hex_text(n / 16)
    };
    out.push(d);
    proof {
        if n < 16 {
            assert(out@ =~= hexadecimal(n as nat));
        }
    }
    out
}

/// `s` with zeros in front of it up to a width of `w`.
pub fn pad_zeros(s: &str, w: usize) -> (r: String)
    ensures
        r@ == zero_padded(s@, w as nat),
{
    let n: usize = chars_of(s).len();
    let mut out = String::new();
    let mut k: usize = n;
    while k < w
        invariant
            n == s@.len(),
            n <= k,
            k <= w || k == n,
            out@ =~= Seq::new((k - n) as nat, |i: int| '0'),
        decreases w - k,
    {
        out.push('0');
        k = k + 1;
    }
    out.append(s);
    proof {
        assert(out@ =~= zero_padded(s@, w as nat));
    }
    out
}

/// The texts of `parts` with `sep` between each two.
pub fn join_texts(parts: &Vec<String>, sep: &str) -> (r: String)
    ensures
        r@ == joined(views(parts@), sep@),
{
    let mut out = String::new();
    let mut i: usize = 0;
    while i < parts.len()
        invariant
            i <= parts@.len(),
            out@ == joined(views(parts@).take(i as int), sep@),
        decreases parts@.len() - i,
    {
        proof {
            let all = views(parts@);
            assert(all.take(i + 1).drop_last() =~= all.take(i as int));
            assert(all.take(i + 1).last() == parts@[i as int]@);
        }
        if i > 0 {
            out.append(sep);
        }
        let ghost before = out@;
        out.append(parts[i].as_str());
        proof {
            if i == 0 {
                assert(out@ =~= views(parts@).take(1)[0]);
            }
        }
        i = i + 1;
    }
    proof {
        assert(views(parts@).take(i as int) =~= views(parts@));
    }
    out
}

/// Whether `a` stands before `b` in the order of their characters.
pub fn text_before(a: &str, b: &str) -> (r: bool)
    ensures
        r == text_lt(a@, b@),
{
    let x = chars_of(a);
    let y = chars_of(b);
    let mut i: usize = 0;
    proof {
        assert(a@.skip(0) =~= a@);
        assert(b@.skip(0) =~= b@);
    }
    loop
        invariant
            x@ == a@,
            y@ == b@,
            i <= x@.len(),
            i <= y@.len(),
            text_lt(a@, b@) == text_lt(a@.skip(i as int), b@.skip(i as int)),
        decreases x@.len() - i,
    {
        if i == y.len() {
            return false;
        }
        if i == x.len() {
            return true;
        }
        if x[i] != y[i] {
            return x[i] < y[i];
        }
        proof {
            assert(a@.skip(i as int).drop_first() =~= a@.skip(i + 1));
            assert(b@.skip(i as int).drop_first() =~= b@.skip(i + 1));
        }
        i = i + 1;
    }
}

/// Puts `t` into its place in a sorted list.
fn place_text(list: &mut Vec<String>, t: String)
    ensures
        views(final(list)@) == placed(views(old(list)@), t@),
    decreases old(list)@.len(),
{
    let ghost all = views(list@);
    let n: usize = list.len();
    if n > 0 && text_before(t.as_str(), list[n - 1].as_str()) {
        proof {
            assert(all.last() == list@[n - 1]@);
        }
        let last = list.pop();
        proof {
            assert(views(list@) =~= all.drop_last());
        }
        let ghost key = t@;
        place_text(list, t);
        let ghost front = views(list@);
        if let Some(l) = last {
            list.push(l);
            proof {
                assert(views(list@) =~= front.push(l@));
            }
        }
    } else {
        proof {
            if n > 0 {
                assert(all.last() == list@[n - 1]@);
            }
        }
        let ghost key = t@;
        list.push(t);
        proof {
            assert(views(list@) =~= all.push(key));
        }
    }
}

/// The texts of a list in order.
pub fn sort_texts(v: &Vec<String>) -> (r: Vec<String>)
    ensures
        views(r@) == in_order(views(v@)),
{
    let mut out: Vec<String> = Vec::new();
    let ghost all = views(v@);
    let mut i: usize = 0;
    proof {
        assert(views(out@) =~= in_order(all.take(0)));
    }
    while i < v.len()
        invariant
            i <= v@.len(),
            all == views(v@),
            views(out@) == in_order(all.take(i as int)),
        decreases v@.len() - i,
    {
        proof {
            assert(all.take(i + 1).drop_last() =~= all.take(i as int));
            assert(all.take(i + 1).last() == v@[i as int]@);
        }
        place_text(&mut out, v[i].clone());
        i = i + 1;
    }
    proof {
        assert(all.take(i as int) =~= all);
    }
    out
}

} // verus!
