//! How far two words are apart, and which known word a misspelt one was meant
//! to be.

use vstd::prelude::*;

use crate::text::{chars_of, same, str_views};

verus! {

/// The smaller of two numbers.
pub open spec fn least(a: nat, b: nat) -> nat {
    if a < b {
        a
    } else {
        b
    }
}

/// The edit distance: the least number of insertions, deletions and
/// replacements of one character that turn `a` into `b`.
pub open spec fn distance(a: Seq<char>, b: Seq<char>) -> nat
    decreases a.len() + b.len(),
{
    if a.len() == 0 {
        b.len()
    } else if b.len() == 0 {
        a.len()
    } else {
        let cost: nat = if a.last() == b.last() {
            0
        } else {
            1
        };
        least(
            least(distance(a.drop_last(), b) + 1, distance(a, b.drop_last()) + 1),
            distance(a.drop_last(), b.drop_last()) + cost,
        )
    }
}

/// The distance is at most the longer length.
pub proof fn law_distance_bound(a: Seq<char>, b: Seq<char>)
    ensures
        distance(a, b) <= a.len() || distance(a, b) <= b.len(),
    decreases a.len() + b.len(),
{
    if a.len() > 0 && b.len() > 0 {
        law_distance_bound(a.drop_last(), b.drop_last());
    }
}

/// The distance is the same both ways.
pub proof fn law_distance_symmetric(a: Seq<char>, b: Seq<char>)
    ensures
        distance(a, b) == distance(b, a),
    decreases a.len() + b.len(),
{
    if a.len() > 0 && b.len() > 0 {
        law_distance_symmetric(a.drop_last(), b);
        law_distance_symmetric(a, b.drop_last());
        law_distance_symmetric(a.drop_last(), b.drop_last());
    }
}

/// Only equal words are at distance 0.
pub proof fn law_distance_zero(a: Seq<char>, b: Seq<char>)
    ensures
        distance(a, b) == 0 <==> a == b,
    decreases a.len() + b.len(),
{
    if a.len() == 0 {
        assert(b.len() == 0 ==> a =~= b);
    } else if b.len() > 0 {
        law_distance_zero(a.drop_last(), b.drop_last());
        if a.drop_last() == b.drop_last() && a.last() == b.last() {
            assert(a =~= a.drop_last().push(a.last()));
            assert(b =~= b.drop_last().push(b.last()));
        }
    }
}

/// The distance is at least the difference of the lengths.
proof fn lemma_distance_lengths(a: Seq<char>, b: Seq<char>)
    ensures
        a.len() <= b.len() + distance(a, b),
        b.len() <= a.len() + distance(a, b),
    decreases a.len() + b.len(),
{
    if a.len() > 0 && b.len() > 0 {
        lemma_distance_lengths(a.drop_last(), b);
        lemma_distance_lengths(a, b.drop_last());
        lemma_distance_lengths(a.drop_last(), b.drop_last());
    }
}

/// A detour over a third word is never shorter.
pub proof fn law_distance_triangle(a: Seq<char>, b: Seq<char>, c: Seq<char>)
    ensures
        distance(a, c) <= distance(a, b) + distance(b, c),
    decreases a.len() + b.len() + c.len(),
{
    lemma_distance_lengths(a, b);
    lemma_distance_lengths(b, c);
    if a.len() > 0 && b.len() > 0 && c.len() > 0 {
        let (x, y, z) = (a.drop_last(), b.drop_last(), c.drop_last());
        law_distance_triangle(x, b, c);
        law_distance_triangle(a, b, z);
        law_distance_triangle(a, y, c);
        law_distance_triangle(a, y, z);
        law_distance_triangle(x, y, c);
        law_distance_triangle(x, y, z);
    } else if b.len() == 0 {
        law_distance_bound(a, c);
    }
}

/// `b` is `a` with one character inserted, deleted or replaced.
pub open spec fn is_edit(a: Seq<char>, b: Seq<char>) -> bool {
    ||| exists|i: int, c: char| 0 <= i <= a.len() && b == #[trigger] a.insert(i, c)
    ||| exists|i: int| 0 <= i < a.len() && b == #[trigger] a.remove(i)
    ||| exists|i: int, c: char| 0 <= i < a.len() && b == #[trigger] a.update(i, c)
}

/// `n` edits of one character turn `a` into `b`.
pub open spec fn edited(a: Seq<char>, b: Seq<char>, n: nat) -> bool
    decreases n,
{
    if n == 0 {
        a == b
    } else {
        exists|m: Seq<char>| #[trigger] is_edit(a, m) && edited(m, b, (n - 1) as nat)
    }
}

/// One insertion makes a distance of at most 1.
proof fn lemma_insert_distance(a: Seq<char>, i: int, c: char)
    requires
        0 <= i <= a.len(),
    ensures
        distance(a, a.insert(i, c)) <= 1,
    decreases a.len(),
{
    let b = a.insert(i, c);
    if i == a.len() {
        assert(b.drop_last() =~= a);
        law_distance_zero(a, b.drop_last());
    } else {
        assert(b.drop_last() =~= a.drop_last().insert(i, c));
        assert(b.last() == a.last());
        lemma_insert_distance(a.drop_last(), i, c);
    }
}

/// One replacement makes a distance of at most 1.
proof fn lemma_update_distance(a: Seq<char>, i: int, c: char)
    requires
        0 <= i < a.len(),
    ensures
        distance(a, a.update(i, c)) <= 1,
    decreases a.len(),
{
    let b = a.update(i, c);
    if i == a.len() - 1 {
        assert(b.drop_last() =~= a.drop_last());
        law_distance_zero(a.drop_last(), b.drop_last());
    } else {
        assert(b.drop_last() =~= a.drop_last().update(i, c));
        assert(b.last() == a.last());
        lemma_update_distance(a.drop_last(), i, c);
    }
}

/// One edit makes a distance of at most 1.
proof fn lemma_edit_distance(a: Seq<char>, b: Seq<char>)
    requires
        is_edit(a, b),
    ensures
        distance(a, b) <= 1,
{
    if exists|i: int, c: char| 0 <= i <= a.len() && b == #[trigger] a.insert(i, c) {
        let (i, c) = choose|i: int, c: char| 0 <= i <= a.len() && b == #[trigger] a.insert(i, c);
        lemma_insert_distance(a, i, c);
    } else if exists|i: int| 0 <= i < a.len() && b == #[trigger] a.remove(i) {
        let i = choose|i: int| 0 <= i < a.len() && b == #[trigger] a.remove(i);
        assert(a =~= b.insert(i, a[i]));
        lemma_insert_distance(b, i, a[i]);
        law_distance_symmetric(a, b);
    } else {
        let (i, c) = choose|i: int, c: char| 0 <= i < a.len() && b == #[trigger] a.update(i, c);
        lemma_update_distance(a, i, c);
    }
}

/// An edit may also come last.
proof fn lemma_edited_then(a: Seq<char>, b: Seq<char>, c: Seq<char>, n: nat)
    requires
        edited(a, b, n),
        is_edit(b, c),
    ensures
        edited(a, c, n + 1),
    decreases n,
{
    if n == 0 {
        assert(is_edit(a, c) && edited(c, c, 0));
    } else {
        let m = choose|m: Seq<char>| #[trigger] is_edit(a, m) && edited(m, b, (n - 1) as nat);
        lemma_edited_then(m, b, c, (n - 1) as nat);
        assert(is_edit(a, m) && edited(m, c, n));
    }
}

/// What is edited can be edited with a character behind it.
proof fn lemma_edit_before(a: Seq<char>, b: Seq<char>, x: char)
    requires
        is_edit(a, b),
    ensures
        is_edit(a.push(x), b.push(x)),
{
    let (p, q) = (a.push(x), b.push(x));
    if exists|i: int, c: char| 0 <= i <= a.len() && b == #[trigger] a.insert(i, c) {
        let (i, c) = choose|i: int, c: char| 0 <= i <= a.len() && b == #[trigger] a.insert(i, c);
        assert(q =~= p.insert(i, c));
    } else if exists|i: int| 0 <= i < a.len() && b == #[trigger] a.remove(i) {
        let i = choose|i: int| 0 <= i < a.len() && b == #[trigger] a.remove(i);
        assert(q =~= p.remove(i));
    } else {
        let (i, c) = choose|i: int, c: char| 0 <= i < a.len() && b == #[trigger] a.update(i, c);
        assert(q =~= p.update(i, c));
    }
}

proof fn lemma_edited_before(a: Seq<char>, b: Seq<char>, x: char, n: nat)
    requires
        edited(a, b, n),
    ensures
        edited(a.push(x), b.push(x), n),
    decreases n,
{
    if n > 0 {
        let m = choose|m: Seq<char>| #[trigger] is_edit(a, m) && edited(m, b, (n - 1) as nat);
        lemma_edit_before(a, m, x);
        lemma_edited_before(m, b, x, (n - 1) as nat);
        assert(is_edit(a.push(x), m.push(x)));
    }
}

/// As many edits as the distance says are enough.
proof fn lemma_distance_is_enough(a: Seq<char>, b: Seq<char>)
    ensures
        edited(a, b, distance(a, b)),
    decreases a.len() + b.len(),
{
    let d = distance(a, b);
    let (x, y) = (a.drop_last(), b.drop_last());
    if a.len() == 0 && b.len() == 0 {
        assert(a =~= b);
    } else if b.len() > 0 && (a.len() == 0 || d == distance(a, y) + 1) {
        lemma_distance_is_enough(a, y);
        assert(b =~= y.insert(y.len() as int, b.last()));
        lemma_edited_then(a, y, b, distance(a, y));
    } else if a.len() > 0 && (b.len() == 0 || d == distance(x, b) + 1) {
        lemma_distance_is_enough(x, b);
        assert(x =~= a.remove(a.len() - 1));
        assert(is_edit(a, x) && edited(x, b, (d - 1) as nat));
    } else {
        lemma_distance_is_enough(x, y);
        let n = distance(x, y);
        lemma_edited_before(x, y, a.last(), n);
        let m = y.push(a.last());
        assert(x.push(a.last()) =~= a);
        if a.last() == b.last() {
            assert(m =~= b);
        } else {
            assert(b =~= m.update(m.len() - 1, b.last()));
            lemma_edited_then(a, m, b, n);
        }
    }
}

/// The distance is the least number of edits of one character that turn `a`
/// into `b`: so many are enough, and no fewer are.
pub proof fn law_distance_is_least(a: Seq<char>, b: Seq<char>, n: nat)
    ensures
        edited(a, b, distance(a, b)),
        edited(a, b, n) ==> distance(a, b) <= n,
    decreases n,
{
    lemma_distance_is_enough(a, b);
    if edited(a, b, n) {
        if n == 0 {
            law_distance_zero(a, b);
        } else {
            let m = choose|m: Seq<char>| #[trigger] is_edit(a, m) && edited(m, b, (n - 1) as nat);
            law_distance_is_least(m, b, (n - 1) as nat);
            lemma_edit_distance(a, m);
            law_distance_triangle(a, m, b);
        }
    }
}

/// One row of distances: from `a` to each non-empty front part of `b`.
spec fn is_row(row: Seq<u128>, a: Seq<char>, b: Seq<char>) -> bool {
    &&& row.len() == b.len()
    &&& forall|j: int| 0 <= j < b.len() ==> #[trigger] row[j] == distance(a, b.take(j + 1))
}

/// The next row of distances, for one more character of the first word.
fn next_row(prev: &Vec<u128>, a: &Vec<char>, i: usize, b: &Vec<char>) -> (r: Vec<u128>)
    requires
        i < a@.len(),
        is_row(prev@, a@.take(i as int), b@),
    ensures
        is_row(r@, a@.take(i + 1), b@),
{
    let mut cur: Vec<u128> = Vec::new();
    let ghost x = a@.take(i + 1);
    proof {
        assert(x.drop_last() =~= a@.take(i as int));
        assert(b@.take(0).len() == 0);
    }
    let mut j: usize = 0;
    let mut left: u128 = i as u128 + 1;
    let mut diagonal: u128 = i as u128;
    let len: usize = b.len();
    let total: usize = a.len();
    while j < len
        invariant
            i < total == a@.len(),
            len == b@.len(),
            j <= len,
            x == a@.take(i + 1),
            x.drop_last() == a@.take(i as int),
            is_row(prev@, a@.take(i as int), b@),
            cur@.len() == j,
            forall|k: int| 0 <= k < j ==> #[trigger] cur@[k] == distance(x, b@.take(k + 1)),
            left == distance(x, b@.take(j as int)),
            diagonal == distance(x.drop_last(), b@.take(j as int)),
            left <= usize::MAX + 1,
            diagonal <= usize::MAX + 1,
        decreases len - j,
    {
        let ghost y = b@.take(j + 1);
        proof {
            assert(y.drop_last() =~= b@.take(j as int));
            assert(y.last() == b@[j as int]);
            assert(x.last() == a@[i as int]);
            law_distance_bound(x, y);
            law_distance_bound(x.drop_last(), y);
        }
        let up: u128 = prev[j];
        let cost: u128 = if a[i] == b[j] {
            0
        } else {
            1
        };
        let mut best: u128 = if up < left {
            up + 1
        } else {
            left + 1
        };
        if diagonal + cost < best {
            best = diagonal + cost;
        }
        cur.push(best);
        left = best;
        diagonal = up;
        j = j + 1;
    }
    cur
}

/// The edit distance of two words.
pub fn levenshtein(a: &str, b: &str) -> (r: usize)
    ensures
        r == distance(a@, b@),
{
    let x = chars_of(a);
    let y = chars_of(b);
    let n: usize = x.len();
    let m: usize = y.len();
    if m == 0 {
        return n;
    }
    let mut row: Vec<u128> = Vec::new();
    let mut j: usize = 0;
    while j < m
        invariant
            m == y@.len(),
            j <= m,
            row@.len() == j,
            forall|k: int|
                0 <= k < j ==> #[trigger] row@[k] == distance(x@.take(0), y@.take(k + 1)),
        decreases m - j,
    {
        proof {
            assert(x@.take(0).len() == 0);
        }
        row.push(j as u128 + 1);
        j = j + 1;
    }
    let mut i: usize = 0;
    while i < n
        invariant
            n == x@.len(),
            m == y@.len(),
            i <= n,
            is_row(row@, x@.take(i as int), y@),
        decreases n - i,
    {
        row = next_row(&row, &x, i, &y);
        i = i + 1;
    }
    proof {
        assert(x@.take(n as int) =~= x@);
        assert(y@.take(m as int) =~= y@);
        assert(row@[m - 1] == distance(x@, y@.take(m - 1 + 1)));
        law_distance_bound(a@, b@);
    }
    row[m - 1] as usize
}

/// A word that may be suggested: any but the name of the discriminant.
pub open spec fn may_suggest(c: Seq<char>) -> bool {
    c != "type"@
}

/// The place of the first of the candidates that are nearest to `key`, or -1.
pub open spec fn nearest_place(key: Seq<char>, candidates: Seq<Seq<char>>) -> int
    decreases candidates.len(),
{
    if candidates.len() == 0 {
        -1
    } else {
        let p = nearest_place(key, candidates.drop_last());
        let c = candidates.last();
        if may_suggest(c) && (p < 0 || distance(key, c) < distance(key, candidates[p])) {
            candidates.len() - 1
        } else {
            p
        }
    }
}

/// How far a suggestion may be from `key`: a third of its bytes, at least 2.
pub open spec fn tolerance(key: Seq<char>) -> nat {
    let third = vstd::utf8::encode_utf8(key).len() / 3;
    if third < 2 {
        2
    } else {
        third
    }
}

/// The word that `key` was meant to be, where one is close enough.
pub open spec fn suggestion(key: Seq<char>, candidates: Seq<Seq<char>>) -> Option<Seq<char>> {
    let p = nearest_place(key, candidates);
    if p >= 0 && distance(key, candidates[p]) <= tolerance(key) {
        Some(candidates[p])
    } else {
        None
    }
}

/// What is suggested is a candidate within the tolerance, and no candidate is
/// nearer; where nothing is suggested, no candidate is within it.
pub proof fn law_suggestion_is_nearest(key: Seq<char>, candidates: Seq<Seq<char>>)
    ensures
        match suggestion(key, candidates) {
            Some(s) => {
                &&& candidates.contains(s)
                &&& may_suggest(s)
                &&& distance(key, s) <= tolerance(key)
                &&& forall|i: int|
                    0 <= i < candidates.len() && may_suggest(#[trigger] candidates[i]) ==> distance(
                        key,
                        s,
                    ) <= distance(key, candidates[i])
            },
            None => forall|i: int|
                0 <= i < candidates.len() && may_suggest(#[trigger] candidates[i]) ==> distance(
                    key,
                    candidates[i],
                ) > tolerance(key),
        },
{
    lemma_nearest_place(key, candidates);
}

proof fn lemma_nearest_place(key: Seq<char>, candidates: Seq<Seq<char>>)
    ensures
        ({
            let p = nearest_place(key, candidates);
            &&& -1 <= p < candidates.len()
            &&& p >= 0 ==> may_suggest(candidates[p])
            &&& forall|i: int|
                0 <= i < candidates.len() && may_suggest(#[trigger] candidates[i]) ==> p >= 0
                    && distance(key, candidates[p]) <= distance(key, candidates[i])
        }),
    decreases candidates.len(),
{
    if candidates.len() > 0 {
        let front = candidates.drop_last();
        lemma_nearest_place(key, front);
        assert forall|i: int| 0 <= i < front.len() implies #[trigger] candidates[i] == front[i] by {}
    }
}

/// The known word nearest to `key`, where one is close enough.
pub fn nearest(key: &str, candidates: &Vec<&str>) -> (r: Option<String>)
    ensures
        crate::text::opt_view(r) == suggestion(key@, str_views(candidates@)),
{
    let ghost texts = str_views(candidates@);
    let mut best: Option<(usize, usize)> = None;
    let mut i: usize = 0;
    while i < candidates.len()
        invariant
            i <= candidates@.len(),
            texts == str_views(candidates@),
            match best {
                Some((d, p)) => {
                    &&& p < i
                    &&& nearest_place(key@, texts.take(i as int)) == p
                    &&& d == distance(key@, texts[p as int])
                },
                None => nearest_place(key@, texts.take(i as int)) == -1,
            },
        decreases candidates@.len() - i,
    {
        let c: &str = candidates[i];
        proof {
            assert(texts.take(i + 1).drop_last() =~= texts.take(i as int));
            assert(texts.take(i + 1).last() == c@);
        }
        if !same(c, "type") {
            let d: usize = levenshtein(key, c);
            let nearer: bool = match best {
                Some((b, _)) => d < b,
                None => true,
            };
            if nearer {
                best = Some((d, i));
            }
        }
        i = i + 1;
    }
    proof {
        assert(texts.take(i as int) =~= texts);
        lemma_nearest_place(key@, texts);
    }
    match best {
        Some((d, p)) => {
            let third: usize = key.as_bytes().len() / 3;
            let limit: usize = if third < 2 {
                2
            } else {
                third
            };
            if d <= limit {
                Some(candidates[p].to_owned())
            } else {
                None
            }
        },
        None => None,
    }
}

} // verus!
