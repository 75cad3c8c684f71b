//! The environment that backends run in: what a captured shell environment
//! says, and which variables a backend is given.

use vstd::prelude::*;

use crate::names::{keys_differ, lemma_map_of, lemma_valued, map_of, valued, NameMap};
use crate::text::{
    chars_of, contains, decimal, decimal_text, find_char, find_text, find_text_from, has_suffix,
    lemma_find_text_from, lines, lines_of, occurs, occurs_at, same, split, split_at_char,
    split_once, split_text, text_range, views,
};

verus! {

// ---------------------------------------------------------------------------
// Wildcards
// ---------------------------------------------------------------------------

/// `text` is `pattern` with each `*` replaced by some text, which may be empty.
pub open spec fn wildcard(pattern: Seq<char>, text: Seq<char>) -> bool
    decreases pattern.len(), text.len(),
{
    if pattern.len() == 0 {
        text.len() == 0
    } else if pattern[0] == '*' {
        wildcard(pattern.drop_first(), text) || (text.len() > 0 && wildcard(
            pattern,
            text.drop_first(),
        ))
    } else {
        text.len() > 0 && text[0] == pattern[0] && wildcard(
            pattern.drop_first(),
            text.drop_first(),
        )
    }
}

/// Literal characters at the front of a pattern match themselves.
proof fn lemma_wildcard_literal(lit: Seq<char>, rest: Seq<char>, text: Seq<char>)
    requires
        !lit.contains('*'),
    ensures
        wildcard(lit + rest, text) == (occurs_at(text, lit, 0) && wildcard(
            rest,
            text.skip(lit.len() as int),
        )),
    decreases lit.len(),
{
    if lit.len() == 0 {
        assert(lit + rest =~= rest);
        assert(text.skip(0) =~= text);
        assert(text.subrange(0, 0) =~= lit);
    } else {
        assert(lit[0] != '*') by {
            assert(lit.contains(lit[0]));
        }
        let l1 = lit.drop_first();
        assert((lit + rest).drop_first() =~= l1 + rest);
        assert(!l1.contains('*')) by {
            if l1.contains('*') {
                let i = choose|i: int| 0 <= i < l1.len() && l1[i] == '*';
                assert(lit[i + 1] == '*');
            }
        }
        if text.len() > 0 {
            let t1 = text.drop_first();
            lemma_wildcard_literal(l1, rest, t1);
            if lit.len() <= text.len() {
                assert(t1.skip(l1.len() as int) =~= text.skip(lit.len() as int));
            }
            if occurs_at(text, lit, 0) {
                assert(lit[0] == text.subrange(0, lit.len() as int)[0]);
                assert(t1.subrange(0, l1.len() as int) =~= text.subrange(
                    0,
                    lit.len() as int,
                ).drop_first());
            }
            if lit[0] == text[0] && occurs_at(t1, l1, 0) {
                assert forall|k: int| 0 <= k < lit.len() implies text[k] == lit[k] by {
                    if k > 0 {
                        assert(t1.subrange(0, l1.len() as int)[k - 1] == l1[k - 1]);
                    }
                }
                assert(text.subrange(0, lit.len() as int) =~= lit);
            }
        }
    }
}

/// A `*` matches any front part of the text.
proof fn lemma_wildcard_star(rest: Seq<char>, text: Seq<char>, k: int)
    requires
        0 <= k <= text.len(),
        wildcard(rest, text.skip(k)),
    ensures
        wildcard(seq!['*'] + rest, text),
    decreases k,
{
    let p = seq!['*'] + rest;
    assert(p.drop_first() =~= rest);
    if k == 0 {
        assert(text.skip(0) =~= text);
    } else {
        assert(text.drop_first().skip(k - 1) =~= text.skip(k));
        lemma_wildcard_star(rest, text.drop_first(), k - 1);
    }
}

/// What a `*` matched can be named.
proof fn lemma_wildcard_star_back(rest: Seq<char>, text: Seq<char>) -> (k: int)
    requires
        wildcard(seq!['*'] + rest, text),
    ensures
        0 <= k <= text.len(),
        wildcard(rest, text.skip(k)),
    decreases text.len(),
{
    let p = seq!['*'] + rest;
    assert(p.drop_first() =~= rest);
    if wildcard(rest, text) {
        assert(text.skip(0) =~= text);
        0
    } else {
        let j = lemma_wildcard_star_back(rest, text.drop_first());
        assert(text.drop_first().skip(j) =~= text.skip(j + 1));
        j + 1
    }
}

/// Text that has `lit` at `pos + k` has it, from `pos` on, at `k`.
proof fn lemma_occurs_shift(text: Seq<char>, lit: Seq<char>, pos: int, k: int)
    requires
        0 <= pos <= text.len(),
        0 <= k,
    ensures
        occurs_at(text.skip(pos), lit, k) == occurs_at(text, lit, pos + k),
{
    if pos + k + lit.len() <= text.len() {
        assert(text.skip(pos).subrange(k, k + lit.len()) =~= text.subrange(
            pos + k,
            pos + k + lit.len(),
        ));
    }
}

/// Between two `*`s it is enough to take the first occurrence of the literal.
proof fn lemma_wildcard_middle(lit: Seq<char>, rest: Seq<char>, text: Seq<char>, pos: int)
    requires
        !lit.contains('*'),
        0 <= pos <= text.len(),
    ensures
        ({
            let f = find_text_from(text, lit, pos);
            wildcard(seq!['*'] + (lit + (seq!['*'] + rest)), text.skip(pos)) == (f >= 0
                && wildcard(seq!['*'] + rest, text.skip(f + lit.len())))
        }),
{
    let f = find_text_from(text, lit, pos);
    let star = seq!['*'] + rest;
    let q = lit + star;
    let t = text.skip(pos);
    lemma_find_text_from(text, lit, pos);
    if wildcard(seq!['*'] + q, t) {
        let k = lemma_wildcard_star_back(q, t);
        lemma_wildcard_literal(lit, star, t.skip(k));
        lemma_occurs_shift(t, lit, k, 0);
        lemma_occurs_shift(text, lit, pos, k);
        assert(occurs_at(text, lit, pos + k));
        assert(f >= 0 && f <= pos + k);
        let u = text.skip(f + lit.len());
        let d = pos + k - f;
        assert(t.skip(k).skip(lit.len() as int) =~= u.skip(d));
        let j = lemma_wildcard_star_back(rest, u.skip(d));
        assert(u.skip(d).skip(j) =~= u.skip(d + j));
        lemma_wildcard_star(rest, u, d + j);
    }
    if f >= 0 && wildcard(star, text.skip(f + lit.len())) {
        let k = f - pos;
        lemma_occurs_shift(text, lit, pos, k);
        lemma_occurs_shift(t, lit, k, 0);
        assert(t.skip(k).skip(lit.len() as int) =~= text.skip(f + lit.len()));
        lemma_wildcard_literal(lit, star, t.skip(k));
        lemma_wildcard_star(q, t, k);
    }
}

/// After the last `*` the literal has to end the text.
proof fn lemma_wildcard_last(lit: Seq<char>, text: Seq<char>)
    requires
        !lit.contains('*'),
    ensures
        wildcard(seq!['*'] + lit, text) == has_suffix(text, lit),
{
    assert(lit + Seq::<char>::empty() =~= lit);
    if wildcard(seq!['*'] + lit, text) {
        let k = lemma_wildcard_star_back(lit, text);
        lemma_wildcard_literal(lit, Seq::empty(), text.skip(k));
        let t = text.skip(k);
        assert(t.skip(lit.len() as int).len() == 0);
        assert(t.subrange(0, lit.len() as int) =~= t);
        assert(text.skip(text.len() - lit.len()) =~= lit);
    }
    if has_suffix(text, lit) {
        let k = text.len() - lit.len();
        let t = text.skip(k);
        assert(t.subrange(0, lit.len() as int) =~= lit);
        lemma_wildcard_literal(lit, Seq::empty(), t);
        lemma_wildcard_star(lit, text, k);
    }
}

/// Whether `text` matches `pattern`, in which `*` stands for any text (e.g.
/// `ANTHROPIC_*`, `*_TOKEN`, `AWS_*_KEY`). There are no character classes.
pub fn glob_match(pattern: &str, text: &str) -> (r: bool)
    ensures
        r == wildcard(pattern@, text@),
{
    let p = chars_of(pattern);
    let t = chars_of(text);
    let len: usize = t.len();
    let first: usize = find_char(&p, '*', 0);
    let head = chars_of(text_range(&p, 0, first).as_str());
    proof {
        assert(!head@.contains('*'));
        assert(head@ + p@.skip(first as int) =~= p@);
        lemma_wildcard_literal(head@, p@.skip(first as int), t@);
    }
    if !occurs(&t, &head, 0) {
        return false;
    }
    if first == p.len() {
        return t.len() == head.len();
    }
    let mut i: usize = first;
    let mut pos: usize = first;
    loop
        invariant
            p@ == pattern@,
            t@ == text@,
            i < p@.len() <= usize::MAX,
            len == t@.len(),
            p@[i as int] == '*',
            pos <= t@.len(),
            wildcard(pattern@, text@) == wildcard(p@.skip(i as int), t@.skip(pos as int)),
        decreases p@.len() - i,
    {
        let e: usize = find_char(&p, '*', i + 1);
        let lit = chars_of(text_range(&p, i + 1, e).as_str());
        proof {
            assert(!lit@.contains('*'));
        }
        if e == p.len() {
            proof {
                assert(p@.skip(i as int) =~= seq!['*'] + lit@);
                lemma_wildcard_last(lit@, t@.skip(pos as int));
            }
            if lit.len() > t.len() - pos {
                return false;
            }
            proof {
                let u = t@.skip(pos as int);
                assert(u.skip(u.len() - lit@.len()) =~= t@.subrange(
                    t@.len() - lit@.len(),
                    t@.len() as int,
                ));
            }
            return occurs(&t, &lit, t.len() - lit.len());
        }
        proof {
            let rest = p@.skip(e + 1);
            assert(p@.skip(e as int) =~= seq!['*'] + rest);
            assert(p@.skip(i as int) =~= seq!['*'] + (lit@ + (seq!['*'] + rest)));
            lemma_wildcard_middle(lit@, rest, t@, pos as int);
        }
        match find_text(&t, &lit, pos) {
            Some(f) => {
                pos = f + lit.len();
            },
            None => {
                return false;
            },
        }
        i = e;
    }
}

// ---------------------------------------------------------------------------
// Captured text
// ---------------------------------------------------------------------------

/// An ASCII letter or an underscore.
pub open spec fn is_key_start(c: char) -> bool {
    'a' <= c <= 'z' || 'A' <= c <= 'Z' || c == '_'
}

/// A variable's name: a letter or `_`, then letters, digits and `_`.
pub open spec fn valid_key(k: Seq<char>) -> bool {
    &&& k.len() > 0
    &&& is_key_start(k[0])
    &&& forall|i: int| 0 <= i < k.len() ==> is_key_start(#[trigger] k[i]) || '0' <= k[i] <= '9'
}

/// The variable that a record `KEY=VALUE` sets; the value may hold `=`.
pub open spec fn record(r: Seq<char>) -> Option<(Seq<char>, Seq<char>)> {
    match split_once(r, '=') {
        Some((k, v)) => if valid_key(k) {
            Some((k, v))
        } else {
            None
        },
        None => None,
    }
}

/// The variables that the records set, in order: a later one replaces an
/// earlier one, and anything that is no record is passed over.
pub open spec fn variables(records: Seq<Seq<char>>) -> Map<Seq<char>, Seq<char>>
    decreases records.len(),
{
    if records.len() == 0 {
        Map::empty()
    } else {
        let before = variables(records.drop_last());
        match record(records.last()) {
            Some((k, v)) => before.insert(k, v),
            None => before,
        }
    }
}

/// A map of strings as a map of texts.
pub open spec fn text_map(m: Map<Seq<char>, String>) -> Map<Seq<char>, Seq<char>> {
    m.map_values(|s: String| s@)
}

/// Every variable that records set has a valid name.
pub proof fn law_variable_names_are_valid(records: Seq<Seq<char>>)
    ensures
        forall|k: Seq<char>| variables(records).dom().contains(k) ==> valid_key(k),
    decreases records.len(),
{
    if records.len() > 0 {
        law_variable_names_are_valid(records.drop_last());
    }
}

/// Of several records that set one variable the last counts.
pub proof fn law_last_record_wins(records: Seq<Seq<char>>, i: int, k: Seq<char>, v: Seq<char>)
    requires
        0 <= i < records.len(),
        record(records[i]) == Some((k, v)),
        forall|j: int|
            i < j < records.len() ==> (record(#[trigger] records[j]) matches Some((x, _)) ==> x
                != k),
    ensures
        variables(records).dom().contains(k),
        variables(records)[k] == v,
    decreases records.len(),
{
    if i < records.len() - 1 {
        let front = records.drop_last();
        assert(front[i] == records[i]);
        assert forall|j: int| i < j < front.len() implies (record(#[trigger] front[j]) matches Some(
            (x, _),
        ) ==> x != k) by {
            assert(front[j] == records[j]);
        }
        law_last_record_wins(front, i, k, v);
    }
}

/// Whether `k` is a variable's name.
pub fn is_valid_key(k: &str) -> (r: bool)
    ensures
        r == valid_key(k@),
{
    let v = chars_of(k);
    if v.len() == 0 {
        return false;
    }
    let mut i: usize = 0;
    while i < v.len()
        invariant
            v@ == k@,
            i <= v@.len(),
            i > 0 ==> is_key_start(v@[0]),
            forall|j: int|
                0 <= j < i ==> is_key_start(#[trigger] v@[j]) || '0' <= v@[j] <= '9',
        decreases v@.len() - i,
    {
        let c: char = v[i];
        let letter: bool = (c >= 'a' && c <= 'z') || (c >= 'A' && c <= 'Z') || c == '_';
        if !(letter || (i > 0 && c >= '0' && c <= '9')) {
            return false;
        }
        i = i + 1;
    }
    true
}

/// The variables that a list of records sets.
fn collect_records(records: &Vec<String>) -> (m: NameMap<String>)
    ensures
        text_map(m@) == variables(views(records@)),
{
    let mut m: NameMap<String> = NameMap::new();
    let ghost all = views(records@);
    let mut i: usize = 0;
    proof {
        assert(text_map(m@) =~= variables(all.take(0)));
    }
    while i < records.len()
        invariant
            i <= records@.len(),
            all == views(records@),
            text_map(m@) == variables(all.take(i as int)),
        decreases records@.len() - i,
    {
        proof {
            assert(all.take(i + 1).drop_last() =~= all.take(i as int));
            assert(all.take(i + 1).last() == records@[i as int]@);
        }
        if let Some((k, v)) = split_at_char(records[i].as_str(), '=') {
            if is_valid_key(k.as_str()) {
                let ghost before = m@;
                let ghost key = k@;
                m.insert(k, v);
                proof {
                    assert(text_map(m@) =~= text_map(before).insert(key, v@));
                }
            }
        }
        i = i + 1;
    }
    proof {
        assert(all.take(i as int) =~= all);
    }
    m
}

/// Reads the output of `env -0`: records that end in a NUL, in which a value
/// may hold line feeds.
pub fn parse_env_nul(raw: &str) -> (m: NameMap<String>)
    ensures
        text_map(m@) == variables(split(raw@, '\0')),
{
    collect_records(&split_text(raw, '\0'))
}

/// Reads the output of `env`: one record on each line.
pub fn parse_env(raw: &str) -> (m: NameMap<String>)
    ensures
        text_map(m@) == variables(lines(raw@)),
{
    collect_records(&lines_of(raw))
}

/// What captured text says: NUL-delimited where it holds a NUL, else by lines.
pub open spec fn captured_variables(text: Seq<char>) -> Map<Seq<char>, Seq<char>> {
    if text.contains('\0') {
        variables(split(text, '\0'))
    } else {
        variables(lines(text))
    }
}

/// Reads text captured from a shell, in either form.
pub fn parse_captured_text(text: &str) -> (m: NameMap<String>)
    ensures
        text_map(m@) == captured_variables(text@),
{
    let v = chars_of(text);
    let e: usize = find_char(&v, '\0', 0);
    if e < v.len() {
        proof {
            assert(text@.contains(text@[e as int]));
        }
        parse_env_nul(text)
    } else {
        parse_env(text)
    }
}

/// Reads bytes captured from a shell.
pub fn parse_captured(bytes: &[u8]) -> (m: NameMap<String>)
    ensures
        text_map(m@) == captured_variables(crate::text::utf8_text(bytes@)),
{
    parse_captured_text(crate::text::read_utf8(bytes).as_str())
}

// ---------------------------------------------------------------------------
// Capturing
// ---------------------------------------------------------------------------

/// Whether the environment source is the process itself rather than a shell.
pub fn is_process_source(source: &str) -> (r: bool)
    ensures
        r == (source@ == "process"@),
{
    same(source, "process")
}

/// What to do next while a shell prints its environment.
#[derive(Clone, Copy, PartialEq, Eq, Structural, Debug)]
pub enum CaptureStep {
    /// The shell has ended: read what it printed.
    Collect,
    /// The watchdog has run out: kill the shell.
    Kill,
    /// Look again a little later.
    Wait,
}

/// Decides the next step of a capture. `timeout_secs` bounds how long the
/// shell may take, and 0 means without bound.
pub fn capture_step(exited: bool, timeout_secs: u64, elapsed_nanos: u128) -> (r: CaptureStep)
    ensures
        r == (if exited {
            CaptureStep::Collect
        } else if timeout_secs > 0 && elapsed_nanos >= timeout_secs * 1_000_000_000 {
            CaptureStep::Kill
        } else {
            CaptureStep::Wait
        }),
{
    if exited {
        CaptureStep::Collect
    } else if timeout_secs > 0 && elapsed_nanos >= timeout_secs as u128 * 1_000_000_000 {
        CaptureStep::Kill
    } else {
        CaptureStep::Wait
    }
}

/// What is said of a shell that outlived its watchdog.
pub fn watchdog_message(timeout_secs: u64) -> (r: String)
    ensures
        r@ == "exceeded "@ + decimal(timeout_secs as nat) + "s watchdog"@,
{
    "exceeded ".to_owned().concat(decimal_text(timeout_secs as u128).as_str()).concat("s watchdog")
}

/// What is said when a capture fails and the process environment stands in.
pub fn capture_warning(e: &str) -> (r: String)
    ensures
        r@ == "shell env capture failed ("@ + e@
            + "); using process env instead — set env_source = \"process\" to make this the intended path"@,
{
    "shell env capture failed (".to_owned().concat(e).concat(
        "); using process env instead — set env_source = \"process\" to make this the intended path",
    )
}

// ---------------------------------------------------------------------------
// The environment
// ---------------------------------------------------------------------------

/// A captured environment.
pub struct Env {
    vars: NameMap<String>,
}

/// The variables that every backend is given.
pub open spec fn base_names() -> Seq<Seq<char>> {
    seq!["PATH"@, "HOME"@, "SHELL"@, "TERM"@, "LANG"@]
}

/// Some pattern matches `k`.
pub open spec fn matches_any(patterns: Seq<Seq<char>>, k: Seq<char>) -> bool {
    exists|i: int| 0 <= i < patterns.len() && wildcard(#[trigger] patterns[i], k)
}

/// Whether an allowlist lets the variable `k` through: `None` lets all through,
/// and the base variables always pass.
pub open spec fn passes(allow: Option<Seq<Seq<char>>>, k: Seq<char>) -> bool {
    match allow {
        None => true,
        Some(patterns) => base_names().contains(k) || matches_any(patterns, k),
    }
}

/// Pairs of string slices as pairs of texts.
pub open spec fn pair_texts(v: Seq<(&str, &str)>) -> Seq<(Seq<char>, Seq<char>)> {
    v.map_values(|p: (&str, &str)| (p.0@, p.1@))
}

/// The list of patterns of an optional allowlist.
pub open spec fn allow_views(allow: Option<&[String]>) -> Option<Seq<Seq<char>>> {
    match allow {
        Some(a) => Some(views(a@)),
        None => None,
    }
}

impl Env {
    /// The variables in order, each with its value.
    pub closed spec fn pairs(&self) -> Seq<(Seq<char>, Seq<char>)> {
        valued(self.vars.pairs(), |s: String| s@)
    }

    /// An environment of the given variables.
    pub fn from_map(map: NameMap<String>) -> (r: Env)
        ensures
            r@ == text_map(map@),
            r.pairs() == valued(map.pairs(), |s: String| s@),
    {
        let n: usize = map.len();
        proof {
            lemma_valued(map.pairs(), |s: String| s@);
        }
        Env { vars: map }
    }

    /// The value of the variable `k`.
    pub fn get(&self, k: &str) -> (r: Option<&str>)
        ensures
            match r {
                Some(v) => self@.dom().contains(k@) && v@ == self@[k@],
                None => !self@.dom().contains(k@),
            },
    {
        let n: usize = self.vars.len();
        proof {
            lemma_valued(self.vars.pairs(), |s: String| s@);
        }
        match self.vars.get(k) {
            Some(v) => Some(v.as_str()),
            None => None,
        }
    }

    /// All variables.
    pub fn as_pairs(&self) -> (r: Vec<(&str, &str)>)
        ensures
            pair_texts(r@) == self.pairs(),
            keys_differ(self.pairs()),
    {
        let r = self.filtered_pairs(None);
        proof {
            reveal(Seq::filter);
            let all = self.pairs();
            assert(all.filter(|p: (Seq<char>, Seq<char>)| passes(None, p.0)) =~= all) by {
                lemma_filter_all(all);
            }
        }
        r
    }

    /// The variables that an allowlist lets through.
    pub fn filtered_pairs(&self, allow: Option<&[String]>) -> (r: Vec<(&str, &str)>)
        ensures
            pair_texts(r@) == self.pairs().filter(
                |p: (Seq<char>, Seq<char>)| passes(allow_views(allow), p.0),
            ),
            keys_differ(self.pairs()),
    {
        let mut out: Vec<(&str, &str)> = Vec::new();
        let ghost all = self.pairs();
        let ghost pred = |p: (Seq<char>, Seq<char>)| passes(allow_views(allow), p.0);
        let mut i: usize = 0;
        proof {
            reveal(Seq::filter);
            assert(pair_texts(out@) =~= all.take(0).filter(pred));
        }
        while i < self.vars.len()
            invariant
                i <= self.vars.pairs().len(),
                all == self.pairs(),
                pred == (|p: (Seq<char>, Seq<char>)| passes(allow_views(allow), p.0)),
                pair_texts(out@) == all.take(i as int).filter(pred),
            decreases self.vars.pairs().len() - i,
        {
            let k: &str = self.vars.key_at(i).as_str();
            let v: &str = self.vars.value_at(i).as_str();
            proof {
                reveal(Seq::filter);
                assert(all.take(i + 1).drop_last() =~= all.take(i as int));
                assert(all.take(i + 1).last() == (k@, v@));
            }
            if lets_through(allow, k) {
                let ghost before = out@;
                out.push((k, v));
                proof {
                    assert(pair_texts(out@) =~= pair_texts(before).push((k@, v@)));
                }
            }
            i = i + 1;
        }
        proof {
            assert(all.take(i as int) =~= all);
            lemma_valued(self.vars.pairs(), |s: String| s@);
        }
        out
    }
}

impl View for Env {
    type V = Map<Seq<char>, Seq<char>>;

    /// The value of each variable.
    open spec fn view(&self) -> Map<Seq<char>, Seq<char>> {
        map_of(self.pairs())
    }
}

/// A filter that drops nothing.
proof fn lemma_filter_all(all: Seq<(Seq<char>, Seq<char>)>)
    ensures
        all.filter(|p: (Seq<char>, Seq<char>)| passes(None, p.0)) == all,
    decreases all.len(),
{
    reveal(Seq::filter);
    if all.len() > 0 {
        lemma_filter_all(all.drop_last());
        assert(all.drop_last().push(all.last()) =~= all);
    }
}

/// Whether an allowlist lets the variable `k` through.
fn lets_through(allow: Option<&[String]>, k: &str) -> (r: bool)
    ensures
        r == passes(allow_views(allow), k@),
{
    match allow {
        None => true,
        Some(patterns) => {
            if is_base(k) {
                return true;
            }
            let ghost texts = views(patterns@);
            let mut i: usize = 0;
            while i < patterns.len()
                invariant
                    i <= patterns@.len(),
                    allow == Some(patterns),
                    texts == views(patterns@),
                    forall|j: int| 0 <= j < i ==> !wildcard(#[trigger] texts[j], k@),
                decreases patterns@.len() - i,
            {
                proof {
                    assert(texts[i as int] == patterns@[i as int]@);
                }
                if glob_match(patterns[i].as_str(), k) {
                    proof {
                        assert(matches_any(texts, k@));
                    }
                    return true;
                }
                i = i + 1;
            }
            false
        },
    }
}

/// Whether `k` is one of the variables that every backend is given.
fn is_base(k: &str) -> (r: bool)
    ensures
        r == base_names().contains(k@),
{
    let r = same(k, "PATH") || same(k, "HOME") || same(k, "SHELL") || same(k, "TERM") || same(
        k,
        "LANG",
    );
    proof {
        let b = base_names();
        assert(b[0] == "PATH"@ && b[1] == "HOME"@ && b[2] == "SHELL"@ && b[3] == "TERM"@ && b[4]
            == "LANG"@);
        if b.contains(k@) {
            let i = choose|i: int| 0 <= i < b.len() && b[i] == k@;
            assert(i == 0 || i == 1 || i == 2 || i == 3 || i == 4);
        }
    }
    r
}

/// What a filter keeps was there.
proof fn lemma_filter_keeps<T>(s: Seq<T>, pred: spec_fn(T) -> bool, x: T)
    requires
        s.filter(pred).contains(x),
    ensures
        s.contains(x),
    decreases s.len(),
{
    reveal(Seq::filter);
    if s.len() > 0 {
        let front = s.drop_last().filter(pred);
        if front.contains(x) {
            lemma_filter_keeps(s.drop_last(), pred, x);
            let i = choose|i: int| 0 <= i < s.drop_last().len() && s.drop_last()[i] == x;
            assert(s[i] == x);
        } else {
            let kept = s.filter(pred);
            let i = choose|i: int| 0 <= i < kept.len() && kept[i] == x;
            if i < front.len() {
                assert(front[i] == x);
            }
            assert(s[s.len() - 1] == x);
        }
    }
}

/// A backend is given a variable exactly where the environment has it and the
/// allowlist lets it through, and then with the value that it has there.
pub proof fn law_backends_see_what_passes(
    pairs: Seq<(Seq<char>, Seq<char>)>,
    allow: Option<Seq<Seq<char>>>,
    k: Seq<char>,
    v: Seq<char>,
)
    requires
        keys_differ(pairs),
    ensures
        pairs.filter(|p: (Seq<char>, Seq<char>)| passes(allow, p.0)).contains((k, v)) <==> (map_of(
            pairs,
        ).dom().contains(k) && map_of(pairs)[k] == v && passes(allow, k)),
{
    broadcast use vstd::seq_lib::group_filter_ensures;

    let pred = |p: (Seq<char>, Seq<char>)| passes(allow, p.0);
    let kept = pairs.filter(pred);
    lemma_map_of(pairs);
    if kept.contains((k, v)) {
        let i = choose|i: int| 0 <= i < kept.len() && kept[i] == (k, v);
        assert(pred(kept[i]));
        lemma_filter_keeps(pairs, pred, kept[i]);
        let j = choose|j: int| 0 <= j < pairs.len() && pairs[j] == kept[i];
        assert(pairs[j].0 == k);
    }
    if map_of(pairs).dom().contains(k) && map_of(pairs)[k] == v && passes(allow, k) {
        let j = crate::names::place(pairs, k);
        assert(pairs[j] == (k, v));
        assert(pred(pairs[j]));
        assert(kept.contains(pairs[j]));
    }
}

/// Whatever the allowlist, the base variables pass.
pub proof fn law_base_variables_always_pass(allow: Option<Seq<Seq<char>>>, k: Seq<char>)
    requires
        base_names().contains(k),
    ensures
        passes(allow, k),
{
}

} // verus!
