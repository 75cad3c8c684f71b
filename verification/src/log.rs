//! A minimal leveled log: which lines are written, what they look like, and
//! the ids by which the lines of one request are found.

use vstd::prelude::*;

use crate::text::{
    chars_of, control, decimal, decimal_text, hex_text, hexadecimal, is_control,
    lemma_hexadecimal_number, lemma_leading_zeros, lower_text, lowered, number, pad_zeros, same,
    zero_padded,
};

verus! {

/// The state of the log: the highest level that is written (0 error, 1 warn,
/// 2 info, 3 debug), and how many request ids have been given out.
#[derive(Clone, Copy)]
pub struct Log {
    pub level: u8,
    pub requests: u64,
}

/// The level that a name stands for, in any case; an unknown name means info.
pub open spec fn level_of(name: Seq<char>) -> u8 {
    let l = lowered(name);
    if l == "error"@ {
        0
    } else if l == "warn"@ {
        1
    } else if l == "debug"@ {
        3
    } else {
        2
    }
}

/// `msg` with a blank in place of every control character.
pub open spec fn sanitized(msg: Seq<char>) -> Seq<char> {
    msg.map_values(
        |c: char|
            if is_control(c) {
                ' '
            } else {
                c
            },
    )
}

/// A line of the log: the time, the level's tag and the message.
pub open spec fn line_text(ts: u64, tag: Seq<char>, msg: Seq<char>) -> Seq<char> {
    decimal(ts as nat) + " "@ + tag + " "@ + sanitized(msg)
}

/// What is written for a message: a line where the log takes its level.
pub open spec fn written(
    log: Log,
    level: u8,
    tag: Seq<char>,
    ts: u64,
    msg: Seq<char>,
) -> Option<Seq<char>> {
    if level <= log.level {
        Some(line_text(ts, tag, msg))
    } else {
        None
    }
}

/// A log before anything is configured: it writes up to info.
pub fn new_log() -> (r: Log)
    ensures
        r == (Log { level: 2, requests: 0 }),
{
    Log { level: 2, requests: 0 }
}

/// Sets the level by its name.
pub fn set_level(log: &mut Log, l: &str)
    ensures
        final(log).level == level_of(l@),
        final(log).requests == old(log).requests,
{
    let name = lower_text(l);
    let n = name.as_str();
    log.level = if same(n, "error") {
        0
    } else if same(n, "warn") {
        1
    } else if same(n, "debug") {
        3
    } else {
        2
    };
}

/// Whether messages of a level are written.
pub fn enabled(log: &Log, level: u8) -> (r: bool)
    ensures
        r == (level <= log.level),
{
    level <= log.level
}

/// Replaces control characters, so that a text from outside can neither start
/// a line of its own nor drive a terminal.
pub fn sanitize(msg: &str) -> (r: String)
    ensures
        r@ == sanitized(msg@),
{
    let v = chars_of(msg);
    let mut out = String::new();
    let mut i: usize = 0;
    while i < v.len()
        invariant
            v@ == msg@,
            i <= v@.len(),
            out@ =~= sanitized(msg@.take(i as int)),
        decreases v@.len() - i,
    {
        let c: char = v[i];
        out.push(if control(c) { ' ' } else { c });
        i = i + 1;
    }
    proof {
        assert(msg@.take(i as int) =~= msg@);
    }
    out
}

/// A sanitized message is one line without control characters, of the same
/// length, and a message without any is left as it is.
pub proof fn law_sanitized_has_no_control(msg: Seq<char>)
    ensures
        sanitized(msg).len() == msg.len(),
        forall|i: int| 0 <= i < msg.len() ==> !is_control(#[trigger] sanitized(msg)[i]),
        (forall|i: int| 0 <= i < msg.len() ==> !is_control(#[trigger] msg[i])) ==> sanitized(msg)
            == msg,
{
    if forall|i: int| 0 <= i < msg.len() ==> !is_control(#[trigger] msg[i]) {
        assert(sanitized(msg) =~= msg);
    }
}

/// The line for a message, where the log takes its level.
pub fn line(log: &Log, level: u8, tag: &str, ts: u64, msg: &str) -> (r: Option<String>)
    ensures
        crate::text::opt_view(r) == written(*log, level, tag@, ts, msg@),
{
    if !enabled(log, level) {
        return None;
    }
    Some(
        decimal_text(ts as u128).concat(" ").concat(tag).concat(" ").concat(sanitize(msg).as_str()),
    )
}

/// The line for an error.
pub fn error(log: &Log, ts: u64, msg: &str) -> (r: Option<String>)
    ensures
        crate::text::opt_view(r) == written(*log, 0, "error"@, ts, msg@),
{
    line(log, 0, "error", ts, msg)
}

/// The line for a warning.
pub fn warn(log: &Log, ts: u64, msg: &str) -> (r: Option<String>)
    ensures
        crate::text::opt_view(r) == written(*log, 1, "warn"@, ts, msg@),
{
    line(log, 1, "warn", ts, msg)
}

/// The line for an information.
pub fn info(log: &Log, ts: u64, msg: &str) -> (r: Option<String>)
    ensures
        crate::text::opt_view(r) == written(*log, 2, "info"@, ts, msg@),
{
    line(log, 2, "info", ts, msg)
}

/// The line for a debugging message.
pub fn debug(log: &Log, ts: u64, msg: &str) -> (r: Option<String>)
    ensures
        crate::text::opt_view(r) == written(*log, 3, "debug"@, ts, msg@),
{
    line(log, 3, "debug", ts, msg)
}

/// The id of the request with the number `n`: at least six hexadecimal digits.
pub open spec fn reqid_text(n: nat) -> Seq<char> {
    zero_padded(hexadecimal(n), 6)
}

/// Requests with different numbers have different ids.
pub proof fn law_request_ids_differ(a: nat, b: nat)
    requires
        reqid_text(a) == reqid_text(b),
    ensures
        a == b,
{
    lemma_reqid_number(a);
    lemma_reqid_number(b);
}

proof fn lemma_reqid_number(n: nat)
    ensures
        number(reqid_text(n), 16) == Some(n),
{
    lemma_hexadecimal_number(n);
    let h = hexadecimal(n);
    if h.len() < 6 {
        lemma_leading_zeros(Seq::new((6 - h.len()) as nat, |i: int| '0'), h, 16);
    }
}

/// A new request id.
pub fn next_reqid(log: &mut Log) -> (r: String)
    ensures
        r@ == reqid_text(old(log).requests as nat),
        final(log).level == old(log).level,
        final(log).requests == if old(log).requests == u64::MAX {
            0
        } else {
            (old(log).requests + 1) as u64
        },
{
    let n: u64 = log.requests;
    log.requests = n.wrapping_add(1);
    pad_zeros(hex_text(n).as_str(), 6)
}

} // verus!
