//! Laws on speaking HTTP with an upstream: what a request holds, when a response
//! is complete, and what is read out of it.

use vstd::prelude::*;

use crate::http_client::{
    action_view, before_semicolon, blank_line, chunk_size, complete, crlf, dechunked,
    declared_length, framed_end, head_end, head_lines, is_chunked_line, read_error_text,
    read_outcome, request_text, response, response_error_text, says_chunked, socket_timeouts,
    status_of, ReadAction, ReadError, ReadErrorView, ResponseError,
};
use crate::text::{
    decimal, has_infix, has_prefix, lemma_find_text_from, lemma_find_text_from_is, lines, lowered,
    occurs_at, parsed, trim, utf8_text, words,
};

verus! {

/// What a request holds: the path, the host with its port, the token where there
/// is one, the length of the body in bytes, and the body.
pub proof fn law_requests_hold_everything(
    host: Seq<char>,
    port: u16,
    path: Seq<char>,
    token: Seq<char>,
    body: Seq<char>,
)
    ensures
        ({
            let first = "POST "@ + path + " HTTP/1.1\r\nHost: "@ + host + ":"@ + decimal(
                port as nat,
            ) + "\r\n"@;
            let last = "Content-Type: application/json\r\nContent-Length: "@ + decimal(
                vstd::utf8::encode_utf8(body).len(),
            ) + "\r\nConnection: close\r\n\r\n"@ + body;
            &&& request_text(host, port, path, None, body) == first + last
            &&& request_text(host, port, path, Some(token), body) == first + (
            "Authorization: Bearer "@ + token + "\r\n"@) + last
        }),
{
    let first = "POST "@ + path + " HTTP/1.1\r\nHost: "@ + host + ":"@ + decimal(port as nat)
        + "\r\n"@;
    let last = "Content-Type: application/json\r\nContent-Length: "@ + decimal(
        vstd::utf8::encode_utf8(body).len(),
    ) + "\r\nConnection: close\r\n\r\n"@ + body;
    assert(request_text(host, port, path, None, body) =~= first + last);
    assert(request_text(host, port, path, Some(token), body) =~= first + ("Authorization: Bearer "@
        + token + "\r\n"@) + last);
}

/// An upstream has from one to fifteen seconds to accept a connection, by the
/// timeout, and the timeout to answer, where there is one.
pub proof fn law_connections_are_waited_for(timeout: u128, r: (u128, Option<u128>))
    requires
        call_ensures(socket_timeouts, (timeout,), r),
    ensures
        1_000_000_000 <= r.0 <= 15_000_000_000,
        1_000_000_000 <= timeout <= 15_000_000_000 ==> r.0 == timeout,
        timeout <= 1_000_000_000 ==> r.0 == 1_000_000_000,
        timeout >= 15_000_000_000 ==> r.0 == 15_000_000_000,
        timeout == 0 ==> r.1 is None,
        timeout > 0 ==> r.1 == Some(timeout),
{
}

/// A head says that the body comes in chunks exactly where one of its lines is a
/// transfer encoding with that word, in capitals or not.
pub proof fn law_chunks_are_announced(head: Seq<Seq<char>>)
    ensures
        says_chunked(head) <==> exists|i: int|
            0 <= i < head.len() && has_prefix(
                lowered(#[trigger] head[i]),
                "transfer-encoding:"@,
            ) && has_infix(lowered(head[i]), "chunked"@),
{
    if exists|i: int|
        0 <= i < head.len() && has_prefix(lowered(#[trigger] head[i]), "transfer-encoding:"@)
            && has_infix(lowered(head[i]), "chunked"@) {
        let i = choose|i: int|
            0 <= i < head.len() && has_prefix(lowered(#[trigger] head[i]), "transfer-encoding:"@)
                && has_infix(lowered(head[i]), "chunked"@);
        assert(is_chunked_line(head[i]));
    }
    if says_chunked(head) {
        let i = choose|i: int| 0 <= i < head.len() && is_chunked_line(#[trigger] head[i]);
        assert(has_prefix(lowered(head[i]), "transfer-encoding:"@));
    }
}

/// The last line that gives a length counts, and one that cannot be read gives
/// none; other lines make no difference.
pub proof fn law_the_last_length_counts(head: Seq<Seq<char>>, line: Seq<char>, value: Seq<char>)
    ensures
        declared_length(Seq::empty()) is None,
        lowered(line) == "content-length:"@ + value ==> declared_length(head.push(line)) == parsed(
            trim(value),
            10,
            usize::MAX as nat,
        ),
        !has_prefix(lowered(line), "content-length:"@) ==> declared_length(head.push(line))
            == declared_length(head),
{
    assert(head.push(line).drop_last() =~= head);
    let p = "content-length:"@;
    if lowered(line) == p + value {
        assert((p + value).take(p.len() as int) =~= p);
        assert((p + value).skip(p.len() as int) =~= value);
    }
}

/// The status is the second word of the first line.
pub proof fn law_the_status_is_the_second_word(head: Seq<Seq<char>>)
    ensures
        head.len() == 0 ==> status_of(head) is None,
        head.len() > 0 && words(head[0]).len() < 2 ==> status_of(head) is None,
        head.len() > 0 && words(head[0]).len() >= 2 ==> status_of(head) == parsed(
            words(head[0])[1],
            10,
            65535,
        ),
{
}

/// A line ends with a carriage return and a line feed, and a head with two line
/// ends.
pub proof fn law_line_ends()
    ensures
        crlf() == seq![13u8, 10u8],
        blank_line() == crlf() + crlf(),
{
    assert(blank_line() =~= crlf() + crlf());
}

/// The bytes of a response with the given head, where that ends it.
pub open spec fn with_head(head: Seq<u8>, rest: Seq<u8>) -> Seq<u8> {
    head + blank_line() + rest
}

/// The head ends at the first empty line.
pub open spec fn ends_there(head: Seq<u8>, rest: Seq<u8>) -> bool {
    forall|k: int|
        0 <= k < head.len() ==> !#[trigger] occurs_at(with_head(head, rest), blank_line(), k)
}

proof fn lemma_with_head(head: Seq<u8>, rest: Seq<u8>)
    requires
        ends_there(head, rest),
    ensures
        head_end(with_head(head, rest)) == head.len(),
        head_lines(with_head(head, rest)) == lines(utf8_text(head)),
        with_head(head, rest).skip(head.len() as int + 4) == rest,
{
    let raw = with_head(head, rest);
    let b = blank_line();
    assert(raw.subrange(head.len() as int, head.len() as int + 4) =~= b);
    assert(occurs_at(raw, b, head.len() as int));
    lemma_find_text_from_is(raw, b, 0, head.len() as int);
    assert(raw.take(head.len() as int) =~= head);
    assert(raw.skip(head.len() as int + 4) =~= rest);
}

/// A response is known to be complete exactly once its head has ended, does not
/// announce chunks but a length, and as many bytes have come; it ends there.
pub proof fn law_lengths_frame_responses(head: Seq<u8>, rest: Seq<u8>, n: nat)
    requires
        ends_there(head, rest),
    ensures
        ({
            let raw = with_head(head, rest);
            let h = lines(utf8_text(head));
            &&& !says_chunked(h) && declared_length(h) == Some(n) ==> (complete(raw) <==> rest.len()
                >= n) && framed_end(raw) == Some(head.len() as int + 4 + n)
            &&& says_chunked(h) || declared_length(h) is None ==> !complete(raw)
        }),
{
    lemma_with_head(head, rest);
}

/// Without an empty line nothing is complete, and there is no response.
pub proof fn law_heads_must_end(raw: Seq<u8>)
    requires
        forall|k: int| !#[trigger] occurs_at(raw, blank_line(), k),
    ensures
        !complete(raw),
        response(raw) == Err::<(nat, Seq<char>), ResponseError>(ResponseError::NoHeaderTerminator),
{
    lemma_find_text_from(raw, blank_line(), 0);
}

/// What is read is gathered. It is too much where it is over the limit, which 0
/// means there is none; else what is behind a complete response is left out.
pub proof fn law_reading_goes_on_until_complete(buf: Seq<u8>, max: usize, data: Seq<u8>)
    ensures
        ({
            let all = buf + data;
            let over = max > 0 && all.len() > max;
            let (bytes, action) = read_outcome(buf, max, data);
            &&& over ==> bytes == all && action == Some(
                Err::<(), ReadErrorView>(ReadErrorView::TooLarge(max)),
            )
            &&& !over && complete(all) ==> bytes == all.take(framed_end(all)->0) && action == Some(
                Ok::<(), ReadErrorView>(()),
            )
            &&& !over && !complete(all) ==> bytes == all && action is None
        }),
{
}

/// A response is its status and its body, which is put together where it came
/// in chunks; without a status it is none.
pub proof fn law_responses_are_read(head: Seq<u8>, rest: Seq<u8>)
    requires
        ends_there(head, rest),
    ensures
        ({
            let raw = with_head(head, rest);
            let h = lines(utf8_text(head));
            &&& status_of(h) is None ==> response(raw) == Err::<(nat, Seq<char>), ResponseError>(
                ResponseError::BadStatusLine,
            )
            &&& status_of(h) matches Some(s) ==> !says_chunked(h) ==> response(raw) == Ok::<
                (nat, Seq<char>),
                ResponseError,
            >((s, utf8_text(rest)))
            &&& status_of(h) matches Some(s) ==> says_chunked(h) ==> response(raw) == Ok::<
                (nat, Seq<char>),
                ResponseError,
            >((s, utf8_text(dechunked(rest))))
        }),
{
    lemma_with_head(head, rest);
}

/// The size of a chunk stands before the first semicolon of its line.
pub proof fn law_chunk_extensions_are_passed_over(a: Seq<u8>, b: Seq<u8>)
    requires
        !a.contains(59u8),
    ensures
        before_semicolon(a) == a,
        before_semicolon(a + seq![59u8] + b) == a,
        chunk_size(a + seq![59u8] + b) == chunk_size(a),
        parsed(trim(utf8_text(a)), 16, usize::MAX as nat) matches Some(n) ==> chunk_size(a) == n,
        parsed(trim(utf8_text(a)), 16, usize::MAX as nat) is None ==> chunk_size(a) == 0,
    decreases a.len(),
{
    let line = a + seq![59u8] + b;
    if a.len() == 0 {
        assert(line[0] == 59u8);
        assert(before_semicolon(a) =~= a);
    } else {
        assert(a.contains(a[0]));
        let t = a.drop_first();
        assert(!t.contains(59u8)) by {
            if t.contains(59u8) {
                let k = choose|k: int| 0 <= k < t.len() && t[k] == 59u8;
                assert(a[k + 1] == 59u8);
            }
        }
        law_chunk_extensions_are_passed_over(t, b);
        assert(line.drop_first() =~= t + seq![59u8] + b);
        assert(seq![a[0]] + t =~= a);
    }
}

/// The bytes of a chunk are as many as its line says, the next chunk follows
/// with or without a line end between them, a size of nothing ends the body, and
/// a body that breaks off ends there.
pub proof fn law_chunks_are_put_together(line: Seq<u8>, bytes: Seq<u8>, next: Seq<u8>)
    requires
        forall|k: int|
            0 <= k < line.len() ==> !#[trigger] occurs_at(
                line + crlf() + (bytes + next),
                crlf(),
                k,
            ),
    ensures
        ({
            let data = line + crlf() + (bytes + next);
            &&& chunk_size(line) == 0 ==> dechunked(data).len() == 0
            &&& chunk_size(line) == bytes.len() && bytes.len() > 0 && next.len() >= 2 && next[0]
                == 13 && next[1] == 10 ==> dechunked(data) == bytes + dechunked(next.skip(2))
            &&& chunk_size(line) == bytes.len() && bytes.len() > 0 && next.len() > 0 && !(
            next.len() >= 2 && next[0] == 13 && next[1] == 10) ==> dechunked(data) == bytes
                + dechunked(next)
            &&& chunk_size(line) >= (bytes + next).len() && chunk_size(line) > 0 ==> dechunked(data)
                == bytes + next
        }),
{
    let c = crlf();
    let rest = bytes + next;
    let data = line + c + rest;
    assert(data.subrange(line.len() as int, line.len() as int + 2) =~= c);
    lemma_find_text_from_is(data, c, 0, line.len() as int);
    assert(data.take(line.len() as int) =~= line);
    assert(data.skip(line.len() as int + 2) =~= rest);
    if chunk_size(line) == bytes.len() && bytes.len() > 0 && next.len() > 0 {
        assert(rest.take(bytes.len() as int) =~= bytes);
        assert(rest.skip(bytes.len() as int) =~= next);
        if next.len() >= 2 && next[0] == 13 && next[1] == 10 {
            assert(next.subrange(0, 2) =~= c);
        } else if occurs_at(next, c, 0) {
            assert(next.subrange(0, 2)[0] == 13u8);
            assert(next.subrange(0, 2)[1] == 10u8);
        }
    }
}

/// Without a line there are no chunks.
pub proof fn law_chunks_need_a_line(data: Seq<u8>)
    requires
        forall|k: int| !#[trigger] occurs_at(data, crlf(), k),
    ensures
        dechunked(data).len() == 0,
{
    lemma_find_text_from(data, crlf(), 0);
}

/// What is said of a response that could not be read.
pub proof fn law_reading_errors_are_told(n: usize, s: String)
    ensures
        read_error_text(ReadErrorView::TooLarge(n)) == "response exceeds max_response_bytes cap ("@
            + decimal(n as nat) + " bytes)"@,
        read_error_text(ReadErrorView::Failed(s@)) == s@,
        response_error_text(ResponseError::NoHeaderTerminator) == "no header terminator"@,
        response_error_text(ResponseError::BadStatusLine) == "bad status line"@,
        ReadError::TooLarge(n)@ == ReadErrorView::TooLarge(n),
        ReadError::Failed(s)@ == ReadErrorView::Failed(s@),
        action_view(ReadAction::More) is None,
        action_view(ReadAction::Done) == Some(Ok::<(), ReadErrorView>(())),
        action_view(ReadAction::Fail(ReadError::TooLarge(n))) == Some(
            Err::<(), ReadErrorView>(ReadErrorView::TooLarge(n)),
        ),
        action_view(ReadAction::Fail(ReadError::Failed(s))) == Some(
            Err::<(), ReadErrorView>(ReadErrorView::Failed(s@)),
        ),
{
}

} // verus!
