//! Laws on the environment: what patterns match, which variables a captured
//! text holds, and which of them are handed on.

use vstd::prelude::*;

use crate::env::{
    allow_views, base_names, capture_step, captured_variables, pair_texts, passes, record, text_map,
    valid_key, variables, wildcard, CaptureStep,
};
use crate::laws::text::{
    law_split_once_is_at_the_first,
};
use crate::text::{lines, split, views};

verus! {

/// A pattern without a star matches itself and nothing else.
pub proof fn law_patterns_without_stars_match_themselves(pattern: Seq<char>, text: Seq<char>)
    requires
        !pattern.contains('*'),
    ensures
        wildcard(pattern, text) <==> pattern == text,
    decreases pattern.len(),
{
    if pattern.len() > 0 {
        assert(pattern[0] != '*') by {
            assert(pattern.contains(pattern[0]));
        }
        let p = pattern.drop_first();
        assert(!p.contains('*')) by {
            if p.contains('*') {
                let k = choose|k: int| 0 <= k < p.len() && p[k] == '*';
                assert(pattern[k + 1] == '*');
            }
        }
        if text.len() > 0 {
            law_patterns_without_stars_match_themselves(p, text.drop_first());
            if text[0] == pattern[0] && p == text.drop_first() {
                assert(pattern =~= seq![pattern[0]] + p);
                assert(text =~= seq![text[0]] + text.drop_first());
            }
        }
    } else if text.len() == 0 {
        assert(pattern =~= text);
    }
}

/// The rest of the pattern matches the text from place `k` on.
pub open spec fn matches_from(rest: Seq<char>, text: Seq<char>, k: int) -> bool {
    wildcard(rest, text.skip(k))
}

/// A star matches any run of characters, none among them: a pattern with one
/// behind a plain beginning matches exactly the texts with that beginning of
/// which some part behind it, to the end, is matched by the rest.
pub proof fn law_stars_match_anything(plain: Seq<char>, rest: Seq<char>, text: Seq<char>)
    requires
        !plain.contains('*'),
    ensures
        wildcard(plain + seq!['*'] + rest, text) <==> plain.len() <= text.len() && text.take(
            plain.len() as int,
        ) == plain && exists|k: int|
            plain.len() <= k <= text.len() && #[trigger] matches_from(rest, text, k),
    decreases plain.len(), text.len(),
{
    let pattern = plain + seq!['*'] + rest;
    if plain.len() == 0 {
        assert(pattern[0] == '*');
        assert(pattern.drop_first() =~= rest);
        assert(text.take(0) =~= plain);
        assert(text.skip(0) =~= text);
        if wildcard(rest, text) {
            assert(matches_from(rest, text, 0));
        }
        if text.len() > 0 {
            let t = text.drop_first();
            assert(pattern =~= plain + seq!['*'] + rest);
            law_stars_match_anything(plain, rest, t);
            assert(t.take(0) =~= plain);
            if wildcard(pattern, t) {
                let k = choose|k: int| 0 <= k <= t.len() && #[trigger] matches_from(rest, t, k);
                assert(t.skip(k) =~= text.skip(k + 1));
                assert(matches_from(rest, text, k + 1));
            }
            if exists|k: int| 0 <= k <= text.len() && #[trigger] matches_from(rest, text, k) {
                let k = choose|k: int| 0 <= k <= text.len() && #[trigger] matches_from(rest, text, k);
                if k > 0 {
                    assert(t.skip(k - 1) =~= text.skip(k));
                    assert(matches_from(rest, t, k - 1));
                }
            }
        }
    } else {
        assert(pattern[0] == plain[0]);
        assert(plain.contains(plain[0]));
        let p = plain.drop_first();
        assert(!p.contains('*')) by {
            if p.contains('*') {
                let k = choose|k: int| 0 <= k < p.len() && p[k] == '*';
                assert(plain[k + 1] == '*');
            }
        }
        assert(pattern.drop_first() =~= p + seq!['*'] + rest);
        if text.len() > 0 {
            let t = text.drop_first();
            law_stars_match_anything(p, rest, t);
            if text[0] == plain[0] {
                if wildcard(pattern, text) {
                    let k = choose|k: int|
                        p.len() <= k <= t.len() && #[trigger] matches_from(rest, t, k);
                    assert(t.skip(k) =~= text.skip(k + 1));
                    assert(matches_from(rest, text, k + 1));
                    assert(text.take(plain.len() as int) =~= plain) by {
                        assert forall|i: int| 0 <= i < plain.len() implies text[i] == plain[i] by {
                            if i > 0 {
                                assert(t.take(p.len() as int)[i - 1] == p[i - 1]);
                            }
                        }
                    }
                }
                if plain.len() <= text.len() && text.take(plain.len() as int) == plain && exists|
                    k: int,
                |
                    plain.len() <= k <= text.len() && #[trigger] matches_from(rest, text, k) {
                    let k = choose|k: int|
                        plain.len() <= k <= text.len() && #[trigger] matches_from(rest, text, k);
                    assert(t.skip(k - 1) =~= text.skip(k));
                    assert(matches_from(rest, t, k - 1));
                    assert(t.take(p.len() as int) =~= p) by {
                        assert forall|i: int| 0 <= i < p.len() implies t[i] == p[i] by {
                            assert(text.take(plain.len() as int)[i + 1] == plain[i + 1]);
                        }
                    }
                }
            } else if plain.len() <= text.len() {
                assert(text.take(plain.len() as int)[0] == text[0]);
            }
        }
    }
}

/// A star at the end of a plain beginning matches exactly what begins so.
pub proof fn law_stars_at_the_end(plain: Seq<char>, text: Seq<char>)
    requires
        !plain.contains('*'),
    ensures
        wildcard(plain + seq!['*'], text) <==> plain.len() <= text.len() && text.take(
            plain.len() as int,
        ) == plain,
{
    let none = Seq::<char>::empty();
    assert(plain + seq!['*'] + none =~= plain + seq!['*']);
    law_stars_match_anything(plain, none, text);
    if plain.len() <= text.len() {
        assert(text.skip(text.len() as int) =~= none);
        assert(matches_from(none, text, text.len() as int));
    }
}

/// The name of a variable is a letter or `_`, and then letters, digits or `_`.
pub proof fn law_variable_names(k: Seq<char>)
    ensures
        valid_key(k) <==> k.len() > 0 && !('0' <= k[0] <= '9') && forall|i: int|
            0 <= i < k.len() ==> {
                ||| 'a' <= #[trigger] k[i] <= 'z'
                ||| 'A' <= k[i] <= 'Z'
                ||| k[i] == '_'
                ||| '0' <= k[i] <= '9'
            },
{
    if k.len() > 0 && !('0' <= k[0] <= '9') && forall|i: int|
        0 <= i < k.len() ==> {
            ||| 'a' <= #[trigger] k[i] <= 'z'
            ||| 'A' <= k[i] <= 'Z'
            ||| k[i] == '_'
            ||| '0' <= k[i] <= '9'
        } {
        assert(crate::env::is_key_start(k[0]));
    }
    if valid_key(k) {
        lemma_key_start(k[0]);
    }
}

proof fn lemma_key_start(c: char)
    requires
        crate::env::is_key_start(c),
    ensures
        !('0' <= c <= '9'),
{
}

/// A record gives the name before its first `=` the value behind it, where the
/// name is valid; without one it gives nothing.
pub proof fn law_records_give_values(k: Seq<char>, v: Seq<char>)
    requires
        !k.contains('='),
    ensures
        valid_key(k) ==> record(k + seq!['='] + v) == Some((k, v)),
        !valid_key(k) ==> record(k + seq!['='] + v) is None,
        record(k) is None,
{
    law_split_once_is_at_the_first(k, '=', v);
}

/// Each record adds its variable, in place of an earlier value; one that is none
/// adds nothing.
pub proof fn law_records_add_up(
    records: Seq<Seq<char>>,
    r: Seq<char>,
    k: Seq<char>,
    v: Seq<char>,
    m: Map<Seq<char>, String>,
)
    ensures
        variables(Seq::empty()) == Map::<Seq<char>, Seq<char>>::empty(),
        record(r) == Some((k, v)) ==> variables(records.push(r)) == variables(records).insert(k, v),
        record(r) is None ==> variables(records.push(r)) == variables(records),
        text_map(m).dom() == m.dom(),
        m.dom().contains(k) ==> text_map(m)[k] == m[k]@,
{
    assert(records.push(r).drop_last() =~= records);
    assert(text_map(m).dom() =~= m.dom());
}

/// A captured text with a zero character is cut there, else at its lines.
pub proof fn law_captured_texts_are_cut(text: Seq<char>)
    ensures
        text.contains('\0') ==> captured_variables(text) == variables(split(text, '\0')),
        !text.contains('\0') ==> captured_variables(text) == variables(lines(text)),
{
}

/// Without an allowlist everything is handed on; with one the five base
/// variables are, and whatever one of its patterns matches, and nothing else.
pub proof fn law_allowlists(patterns: Seq<Seq<char>>, k: Seq<char>, i: int)
    ensures
        passes(None, k),
        k == "PATH"@ || k == "HOME"@ || k == "SHELL"@ || k == "TERM"@ || k == "LANG"@ ==> passes(
            Some(patterns),
            k,
        ),
        0 <= i < patterns.len() && wildcard(patterns[i], k) ==> passes(Some(patterns), k),
        passes(Some(patterns), k) && k != "PATH"@ && k != "HOME"@ && k != "SHELL"@ && k != "TERM"@
            && k != "LANG"@ ==> exists|j: int|
            0 <= j < patterns.len() && wildcard(#[trigger] patterns[j], k),
{
    let b = base_names();
    assert(b[0] == "PATH"@ && b[1] == "HOME"@ && b[2] == "SHELL"@ && b[3] == "TERM"@ && b[4]
        == "LANG"@);
}

/// Pairs and lists of the model are those of the library, one by one.
pub proof fn law_environment_records_are_taken_as_they_are(
    pairs: Seq<(&str, &str)>,
    allow: &[String],
    i: int,
)
    ensures
        pair_texts(pairs).len() == pairs.len(),
        0 <= i < pairs.len() ==> pair_texts(pairs)[i] == (pairs[i].0@, pairs[i].1@),
        allow_views(None) is None,
        allow_views(Some(allow)) == Some(views(allow@)),
{
}

/// A capture is collected as soon as it has ended, and given up only once its
/// time is over, which it never is where none is set.
pub proof fn law_captures_are_given_up_in_time(
    exited: bool,
    timeout_secs: u64,
    elapsed_nanos: u128,
    r: CaptureStep,
)
    requires
        call_ensures(capture_step, (exited, timeout_secs, elapsed_nanos), r),
    ensures
        r == CaptureStep::Collect <==> exited,
        timeout_secs == 0 ==> r != CaptureStep::Kill,
        timeout_secs > 0 ==> (r == CaptureStep::Kill <==> !exited && elapsed_nanos >= timeout_secs
            * 1_000_000_000),
{
}

} // verus!
