//! What is written over HTTP is what is read of it.

use vstd::prelude::*;

use crate::http_client::{
    bearer_line, before_semicolon, blank_line, chunk_size, crlf, dechunked, declared_length,
    framed_end, head_end, head_lines, is_chunked_line, lemma_framing_extends, request_text,
    response, says_chunked, status_of, ResponseError,
};
use crate::text::{
    decimal, find_text_from, has_prefix, hexadecimal, is_space, joined, lemma_decimal_digits,
    lemma_decimal_number, lemma_find_from_is, lemma_find_text_from_is, lemma_hexadecimal_number,
    lemma_trim_none, lemma_utf8_text, lines, lines_from, lowered, occurs_at, parsed, strip_cr,
    trim, trim_start, unsigned, utf8_text,
};

verus! {

// ---------------------------------------------------------------------------
// What is written is what is read
// ---------------------------------------------------------------------------

/// A body in chunks: before each its size in hexadecimal, and a chunk of size 0
/// at the end.
pub open spec fn in_chunks(chunks: Seq<Seq<u8>>) -> Seq<u8>
    decreases chunks.len(),
{
    if chunks.len() == 0 {
        vstd::utf8::encode_utf8(hexadecimal(0)) + crlf() + crlf()
    } else {
        vstd::utf8::encode_utf8(hexadecimal(chunks[0].len())) + crlf() + (chunks[0] + crlf()
            + in_chunks(chunks.drop_first()))
    }
}

/// A chunk's first line is found and its size is read.
proof fn lemma_chunk_line(n: nat, rest: Seq<u8>)
    requires
        n <= usize::MAX,
    ensures
        ({
            let line = vstd::utf8::encode_utf8(hexadecimal(n));
            let data = line + crlf() + rest;
            &&& find_text_from(data, crlf(), 0) == line.len()
            &&& data.take(line.len() as int) == line
            &&& data.skip(line.len() as int + 2) == rest
            &&& chunk_size(line) == n
        }),
{
    let digits = hexadecimal(n);
    let line = vstd::utf8::encode_utf8(digits);
    let data = line + crlf() + rest;
    lemma_hexadecimal_number(n);
    assert(vstd::utf8::is_ascii_chars(digits)) by {
        assert forall|i: int| 0 <= i < digits.len() implies 0 <= #[trigger] digits[i] as nat && (
        digits[i] as nat) < 128 by {}
    }
    vstd::utf8::is_ascii_chars_encode_utf8(digits);
    assert forall|i: int| 0 <= i < line.len() implies line[i] != 13 && #[trigger] line[i] != 59 by {
        assert(digits[i] as u8 == line[i]);
    }
    assert forall|k: int| 0 <= k < line.len() implies !occurs_at(data, crlf(), k) by {
        if occurs_at(data, crlf(), k) {
            assert(data.subrange(k, k + 2)[0] == 13);
            assert(data[k] == line[k]);
        }
    }
    assert(data.subrange(line.len() as int, line.len() as int + 2) =~= crlf());
    lemma_find_text_from_is(data, crlf(), 0, line.len() as int);
    assert(data.take(line.len() as int) =~= line);
    assert(data.skip(line.len() as int + 2) =~= rest);
    lemma_no_semicolon(line);
    lemma_utf8_text(digits);
    lemma_trim_none(digits);
    assert(unsigned(digits) == digits);
}

proof fn lemma_no_semicolon(line: Seq<u8>)
    requires
        forall|i: int| 0 <= i < line.len() ==> #[trigger] line[i] != 59,
    ensures
        before_semicolon(line) == line,
    decreases line.len(),
{
    if line.len() > 0 {
        assert forall|i: int| 0 <= i < line.drop_first().len() implies #[trigger] line.drop_first()[i]
            != 59 by {
            assert(line.drop_first()[i] == line[i + 1]);
        }
        lemma_no_semicolon(line.drop_first());
        assert(seq![line[0]] + line.drop_first() =~= line);
    } else {
        assert(before_semicolon(line) =~= line);
    }
}

/// A body sent in chunks is read back, whatever follows the last chunk.
pub proof fn law_chunks_are_read_back(chunks: Seq<Seq<u8>>, tail: Seq<u8>)
    requires
        forall|i: int| 0 <= i < chunks.len() ==> 0 < #[trigger] chunks[i].len() <= usize::MAX,
    ensures
        dechunked(in_chunks(chunks) + tail) == chunks.flatten(),
    decreases chunks.len(),
{
    let data = in_chunks(chunks) + tail;
    if chunks.len() == 0 {
        let line = vstd::utf8::encode_utf8(hexadecimal(0));
        lemma_chunk_line(0, crlf() + tail);
        assert(data =~= line + crlf() + (crlf() + tail));
        assert(dechunked(data) =~= chunks.flatten());
    } else {
        let c = chunks[0];
        let others = chunks.drop_first();
        let line = vstd::utf8::encode_utf8(hexadecimal(c.len()));
        let rest = c + crlf() + in_chunks(others) + tail;
        lemma_chunk_line(c.len(), rest);
        assert(data =~= line + crlf() + rest);
        assert(rest.take(c.len() as int) =~= c);
        let after = rest.skip(c.len() as int);
        assert(after.subrange(0, 2) =~= crlf());
        assert(after.skip(2) =~= in_chunks(others) + tail);
        assert forall|i: int| 0 <= i < others.len() implies 0 < #[trigger] others[i].len()
            <= usize::MAX by {
            assert(others[i] == chunks[i + 1]);
        }
        law_chunks_are_read_back(others, tail);
        assert(chunks.flatten() == c + others.flatten());
    }
}

/// A response is read back: the status of its head, and its body as text,
/// whether the body follows as it is or in chunks.
pub proof fn law_response_is_read_back(
    head: Seq<u8>,
    status: nat,
    body: Seq<char>,
    chunks: Seq<Seq<u8>>,
)
    requires
        head_end(head + blank_line()) == head.len(),
        status_of(lines(utf8_text(head))) == Some(status),
        forall|i: int| 0 <= i < chunks.len() ==> 0 < #[trigger] chunks[i].len() <= usize::MAX,
        chunks.flatten() == vstd::utf8::encode_utf8(body),
    ensures
        says_chunked(lines(utf8_text(head))) ==> response(head + blank_line() + in_chunks(chunks))
            == Ok::<(nat, Seq<char>), ResponseError>((status, body)),
        !says_chunked(lines(utf8_text(head))) ==> response(
            head + blank_line() + vstd::utf8::encode_utf8(body),
        ) == Ok::<(nat, Seq<char>), ResponseError>((status, body)),
{
    let start = head + blank_line();
    let bytes = vstd::utf8::encode_utf8(body);
    lemma_utf8_text(body);
    lemma_framing_extends(start, in_chunks(chunks));
    lemma_framing_extends(start, bytes);
    assert(start.take(head.len() as int) =~= head);
    assert((start + in_chunks(chunks)).skip(head.len() as int + 4) =~= in_chunks(chunks));
    assert((start + bytes).skip(head.len() as int + 4) =~= bytes);
    law_chunks_are_read_back(chunks, Seq::empty());
    assert(in_chunks(chunks) + Seq::<u8>::empty() =~= in_chunks(chunks));
}

// ---------------------------------------------------------------------------
// A request says where it ends
// ---------------------------------------------------------------------------

/// A text that can stand in a line of a head: ASCII, without line ends.
pub open spec fn fits_a_line(t: Seq<char>) -> bool {
    &&& vstd::utf8::is_ascii_chars(t)
    &&& forall|i: int| 0 <= i < t.len() ==> #[trigger] t[i] != '\r' && t[i] != '\n'
}

/// A line of a head.
spec fn is_line(t: Seq<char>) -> bool {
    t.len() > 0 && fits_a_line(t)
}

proof fn lemma_fits_concat(a: Seq<char>, b: Seq<char>)
    requires
        fits_a_line(a),
        fits_a_line(b),
    ensures
        fits_a_line(a + b),
{
    vstd::utf8::is_ascii_chars_concat(a + b, a, b);
    assert forall|i: int| 0 <= i < (a + b).len() implies #[trigger] (a + b)[i] != '\r' && (a + b)[i]
        != '\n' by {
        if i < a.len() {
            assert((a + b)[i] == a[i]);
        } else {
            assert((a + b)[i] == b[i - a.len()]);
        }
    }
}

/// Lines that are joined from the back are joined from the front.
proof fn lemma_joined_front(ls: Seq<Seq<char>>, sep: Seq<char>)
    requires
        ls.len() > 1,
    ensures
        joined(ls, sep) == ls[0] + sep + joined(ls.drop_first(), sep),
    decreases ls.len(),
{
    if ls.len() == 2 {
        assert(joined(ls.drop_last(), sep) == ls[0]);
        assert(joined(ls.drop_first(), sep) == ls.last());
    } else {
        let inner = ls.drop_first();
        lemma_joined_front(ls.drop_last(), sep);
        assert(ls.drop_last().drop_first() =~= inner.drop_last());
        assert(inner.last() == ls.last());
        assert(joined(inner, sep) == joined(inner.drop_last(), sep) + sep + inner.last());
        assert(joined(ls, sep) =~= ls[0] + sep + (joined(inner.drop_last(), sep) + sep
            + inner.last()));
    }
}

/// A head is read as the lines that it was made of.
proof fn lemma_lines_of_head(pre: Seq<char>, ls: Seq<Seq<char>>)
    requires
        ls.len() > 0,
        forall|i: int| 0 <= i < ls.len() ==> is_line(#[trigger] ls[i]),
    ensures
        lines_from(pre + joined(ls, "\r\n"@), pre.len() as int) == ls,
    decreases ls.len(),
{
    reveal_strlit("\r\n");
    let sep = "\r\n"@;
    let j = joined(ls, sep);
    let s = pre + j;
    let i = pre.len() as int;
    let first = ls[0];
    assert(is_line(ls[0]));
    if ls.len() == 1 {
        assert(j == first);
        assert forall|k: int| i <= k < s.len() implies s[k] != '\n' by {
            assert(s[k] == first[k - i]);
        }
        lemma_find_from_is(s, '\n', i, s.len() as int);
        assert(s.skip(i) =~= first);
        assert(lines_from(s, i) =~= ls);
    } else {
        let rest = ls.drop_first();
        lemma_joined_front(ls, sep);
        let e = i + first.len() + 1;
        let next = pre + (first + sep);
        assert(s =~= next + joined(rest, sep));
        assert(sep.len() == 2 && sep[0] == '\r' && sep[1] == '\n');
        assert forall|k: int| i <= k < e implies s[k] != '\n' by {
            if k < e - 1 {
                assert(s[k] == first[k - i]);
            } else {
                assert(s[k] == sep[0]);
            }
        }
        assert(s[e] == sep[1]);
        lemma_find_from_is(s, '\n', i, e);
        assert(s.subrange(i, e) =~= first.push('\r'));
        assert(strip_cr(s.subrange(i, e)) =~= first);
        assert forall|k: int| 0 <= k < rest.len() implies is_line(#[trigger] rest[k]) by {
            assert(rest[k] == ls[k + 1]);
        }
        lemma_lines_of_head(next, rest);
        assert(next.len() == e + 1);
        assert(lines_from(s, i) =~= seq![first] + rest);
        assert(seq![first] + rest =~= ls);
    }
}

/// No empty line stands before the end of a head.
proof fn lemma_no_empty_line(ls: Seq<Seq<char>>, k: int)
    requires
        ls.len() > 0,
        forall|i: int| 0 <= i < ls.len() ==> is_line(#[trigger] ls[i]),
        0 <= k < joined(ls, "\r\n"@).len(),
    ensures
        ({
            let t = joined(ls, "\r\n"@) + "\r\n\r\n"@;
            !(t[k] == '\r' && t[k + 1] == '\n' && t[k + 2] == '\r' && t[k + 3] == '\n')
        }),
    decreases ls.len(),
{
    reveal_strlit("\r\n");
    reveal_strlit("\r\n\r\n");
    let sep = "\r\n"@;
    let end = "\r\n\r\n"@;
    let j = joined(ls, sep);
    let t = j + end;
    let last = ls[ls.len() - 1];
    assert(is_line(last));
    assert(end.len() == 4 && sep.len() == 2 && sep[0] == '\r' && sep[1] == '\n');
    if ls.len() == 1 {
        assert(t[k] == last[k]);
    } else {
        let front = ls.drop_last();
        assert forall|i: int| 0 <= i < front.len() implies is_line(#[trigger] front[i]) by {
            assert(front[i] == ls[i]);
        }
        let f = joined(front, sep);
        let n = f.len() as int;
        assert(j == f + sep + last);
        if k < n {
            lemma_no_empty_line(front, k);
            let u = f + end;
            assert forall|x: int| 0 <= x < n + 2 implies t[x] == u[x] by {
                if x >= n {
                    assert(t[x] == sep[x - n] && u[x] == end[x - n]);
                }
            }
            assert(t[n + 2] == last[0]);
        } else if k == n {
            assert(t[n + 2] == last[0]);
        } else if k == n + 1 {
            assert(t[k] == sep[1]);
        } else {
            assert(t[k] == last[k - n - 2]);
        }
    }
}

proof fn lemma_encode_concat(a: Seq<char>, b: Seq<char>)
    ensures
        vstd::utf8::encode_utf8(a + b) == vstd::utf8::encode_utf8(a) + vstd::utf8::encode_utf8(b),
    decreases a.len(),
{
    if a.len() == 0 {
        assert(a + b =~= b);
        assert(vstd::utf8::encode_utf8(a) =~= Seq::<u8>::empty());
        assert(vstd::utf8::encode_utf8(a) + vstd::utf8::encode_utf8(b) =~= vstd::utf8::encode_utf8(
            b,
        ));
    } else {
        lemma_encode_concat(a.drop_first(), b);
        assert((a + b).drop_first() =~= a.drop_first() + b);
        assert(vstd::utf8::encode_utf8(a + b) =~= vstd::utf8::encode_utf8(a)
            + vstd::utf8::encode_utf8(b));
    }
}

/// Bytes that begin with a head of lines are cut behind it, and it is read as
/// its lines.
proof fn lemma_head_is_found(ls: Seq<Seq<char>>, body: Seq<char>)
    requires
        ls.len() > 0,
        forall|i: int| 0 <= i < ls.len() ==> is_line(#[trigger] ls[i]),
    ensures
        ({
            let head = joined(ls, "\r\n"@);
            let bytes = vstd::utf8::encode_utf8(head + "\r\n\r\n"@ + body);
            &&& head_end(bytes) == head.len()
            &&& head_lines(bytes) == ls
            &&& bytes.len() == head.len() + 4 + vstd::utf8::encode_utf8(body).len()
        }),
{
    reveal_strlit("\r\n");
    reveal_strlit("\r\n\r\n");
    let sep = "\r\n"@;
    let end = "\r\n\r\n"@;
    let head = joined(ls, sep);
    let start = head + end;
    let bytes = vstd::utf8::encode_utf8(start + body);
    lemma_joined_is_ascii(ls);
    vstd::utf8::is_ascii_chars_concat(start, head, end);
    vstd::utf8::is_ascii_chars_encode_utf8(start);
    lemma_encode_concat(start, body);
    let front = vstd::utf8::encode_utf8(start);
    assert(front.len() == start.len());
    let n = head.len() as int;
    assert forall|i: int| 0 <= i < start.len() implies #[trigger] bytes[i] == start[i] as u8 by {
        assert(bytes[i] == front[i]);
    }
    assert(start[n] == end[0] && start[n + 1] == end[1] && start[n + 2] == end[2] && start[n + 3]
        == end[3]);
    assert(bytes.subrange(n, n + 4) =~= blank_line());
    assert forall|k: int| 0 <= k < n implies !occurs_at(bytes, blank_line(), k) by {
        if occurs_at(bytes, blank_line(), k) {
            let w = bytes.subrange(k, k + 4);
            assert(w[0] == 13 && w[1] == 10 && w[2] == 13 && w[3] == 10);
            assert(bytes[k] == 13 && bytes[k + 1] == 10 && bytes[k + 2] == 13 && bytes[k + 3]
                == 10);
            lemma_ascii_bytes(start[k]);
            lemma_ascii_bytes(start[k + 1]);
            lemma_ascii_bytes(start[k + 2]);
            lemma_ascii_bytes(start[k + 3]);
            lemma_no_empty_line(ls, k);
        }
    }
    lemma_find_text_from_is(bytes, blank_line(), 0, n);
    lemma_encode_concat(head, end);
    assert(bytes.take(n) =~= vstd::utf8::encode_utf8(head)) by {
        lemma_joined_is_ascii(ls);
        vstd::utf8::is_ascii_chars_encode_utf8(head);
        assert(front =~= vstd::utf8::encode_utf8(head) + vstd::utf8::encode_utf8(end));
    }
    lemma_utf8_text(head);
    lemma_lines_of_head(Seq::empty(), ls);
    assert(Seq::<char>::empty() + head =~= head);
}

proof fn lemma_ascii_bytes(c: char)
    ensures
        c <= '\u{7f}' && c as u8 == 13 ==> c == '\r',
        c <= '\u{7f}' && c as u8 == 10 ==> c == '\n',
{
}

proof fn lemma_joined_is_ascii(ls: Seq<Seq<char>>)
    requires
        forall|i: int| 0 <= i < ls.len() ==> is_line(#[trigger] ls[i]),
    ensures
        vstd::utf8::is_ascii_chars(joined(ls, "\r\n"@)),
    decreases ls.len(),
{
    reveal_strlit("\r\n");
    let sep = "\r\n"@;
    if ls.len() == 1 {
        assert(is_line(ls[0]));
    } else if ls.len() > 1 {
        let front = ls.drop_last();
        assert forall|i: int| 0 <= i < front.len() implies is_line(#[trigger] front[i]) by {
            assert(front[i] == ls[i]);
        }
        lemma_joined_is_ascii(front);
        let f = joined(front, sep);
        let last = ls[ls.len() - 1];
        assert(is_line(last));
        vstd::utf8::is_ascii_chars_concat(f + sep, f, sep);
        vstd::utf8::is_ascii_chars_concat(f + sep + last, f + sep, last);
    }
}

/// The lines of a request's head.
pub open spec fn request_lines(
    host: Seq<char>,
    port: u16,
    path: Seq<char>,
    bearer: Option<Seq<char>>,
    length: nat,
) -> Seq<Seq<char>> {
    let first = seq!["POST "@ + path + " HTTP/1.1"@, "Host: "@ + host + ":"@ + decimal(port as nat)];
    let auth: Seq<Seq<char>> = match bearer {
        Some(b) => seq!["Authorization: Bearer "@ + b],
        None => Seq::empty(),
    };
    first + auth + seq![
        "Content-Type: application/json"@,
        "Content-Length: "@ + decimal(length),
        "Connection: close"@,
    ]
}

proof fn lemma_decimal_fits(n: nat)
    ensures
        fits_a_line(decimal(n)),
        decimal(n).len() > 0,
        forall|i: int| 0 <= i < decimal(n).len() ==> !is_space(#[trigger] decimal(n)[i]),
        unsigned(decimal(n)) == decimal(n),
        lowered(decimal(n)) == decimal(n),
{
    lemma_decimal_digits(n);
    let d = decimal(n);
    assert forall|i: int| 0 <= i < d.len() implies '\0' <= #[trigger] d[i] <= '\u{7f}' by {
        assert('0' <= d[i] <= '9');
    }
    assert forall|i: int| 0 <= i < d.len() implies #[trigger] d[i] != '\r' && d[i] != '\n' by {
        assert('0' <= d[i] <= '9');
    }
    assert('0' <= d[0] <= '9');
    assert(lowered(d) =~= d) by {
        assert forall|i: int| 0 <= i < d.len() implies lowered(d)[i] == d[i] by {
            assert('0' <= d[i] <= '9');
        }
    }
}

/// The head's lines can stand in a head.
proof fn lemma_request_lines(
    host: Seq<char>,
    port: u16,
    path: Seq<char>,
    bearer: Option<Seq<char>>,
    length: nat,
)
    requires
        fits_a_line(host),
        fits_a_line(path),
        bearer matches Some(b) ==> fits_a_line(b),
    ensures
        forall|i: int|
            0 <= i < request_lines(host, port, path, bearer, length).len() ==> is_line(
                #[trigger] request_lines(host, port, path, bearer, length)[i],
            ),
{
    reveal_strlit("POST ");
    reveal_strlit(" HTTP/1.1");
    reveal_strlit("Host: ");
    reveal_strlit(":");
    reveal_strlit("Authorization: Bearer ");
    reveal_strlit("Content-Type: application/json");
    reveal_strlit("Content-Length: ");
    reveal_strlit("Connection: close");
    lemma_decimal_fits(port as nat);
    lemma_decimal_fits(length);
    assert(fits_a_line("POST "@));
    assert(fits_a_line(" HTTP/1.1"@));
    assert(fits_a_line("Host: "@));
    assert(fits_a_line(":"@));
    assert(fits_a_line("Authorization: Bearer "@));
    assert(fits_a_line("Content-Type: application/json"@));
    assert(fits_a_line("Content-Length: "@));
    assert(fits_a_line("Connection: close"@));
    lemma_fits_concat("POST "@, path);
    lemma_fits_concat("POST "@ + path, " HTTP/1.1"@);
    lemma_fits_concat("Host: "@, host);
    lemma_fits_concat("Host: "@ + host, ":"@);
    lemma_fits_concat("Host: "@ + host + ":"@, decimal(port as nat));
    lemma_fits_concat("Content-Length: "@, decimal(length));
    if bearer is Some {
        lemma_fits_concat("Authorization: Bearer "@, bearer->0);
    }
}

/// The last lines of a head give the body's length, and none says that it comes
/// in chunks.
proof fn lemma_request_head(
    host: Seq<char>,
    port: u16,
    path: Seq<char>,
    bearer: Option<Seq<char>>,
    length: nat,
)
    requires
        length <= usize::MAX,
    ensures
        declared_length(request_lines(host, port, path, bearer, length)) == Some(length),
        !says_chunked(request_lines(host, port, path, bearer, length)),
{
    reveal_strlit("POST ");
    reveal_strlit("Host: ");
    reveal_strlit("Authorization: Bearer ");
    reveal_strlit("Content-Type: application/json");
    reveal_strlit("Content-Length: ");
    reveal_strlit("Connection: close");
    reveal_strlit("content-length:");
    reveal_strlit("transfer-encoding:");
    let ls = request_lines(host, port, path, bearer, length);
    let n = ls.len() as int;
    let close = "Connection: close"@;
    let given = "Content-Length: "@ + decimal(length);
    assert(ls[n - 1] == close && ls[n - 2] == given);
    // The last line is another.
    let lc = lowered(close);
    assert(lc[3] == 'n');
    assert("content-length:"@[3] == 't');
    assert(!has_prefix(lc, "content-length:"@)) by {
        if has_prefix(lc, "content-length:"@) {
            assert(lc.take(15)[3] == "content-length:"@[3]);
        }
    }
    // The one before it gives the length.
    lemma_decimal_fits(length);
    lemma_decimal_number(length);
    let d = decimal(length);
    let lg = lowered(given);
    assert(lg.take(15) =~= "content-length:"@);
    assert forall|i: int| 16 <= i < lg.len() implies #[trigger] lg[i] == d[i - 16] by {
        assert(lg[i] == lowered(d)[i - 16]);
    }
    assert(lg[15] == ' ');
    let v = lg.skip(15);
    assert(v =~= seq![' '] + d);
    assert(v.drop_first() =~= d);
    lemma_trim_none(d);
    assert(trim(v) == d) by {
        assert(trim_start(v) == trim_start(d));
    }
    assert(ls.drop_last().last() == given);
    assert(declared_length(ls) == declared_length(ls.drop_last()));
    assert(declared_length(ls.drop_last()) == parsed(d, 10, usize::MAX as nat));
    // No line begins like the one that would say so.
    assert forall|i: int| 0 <= i < n implies !is_chunked_line(#[trigger] ls[i]) by {
        let l = lowered(ls[i]);
        assert(ls[i].len() > 0);
        assert(ls[i][0] == 'P' || ls[i][0] == 'H' || ls[i][0] == 'A' || ls[i][0] == 'C');
        assert(l[0] != 't');
        if has_prefix(l, "transfer-encoding:"@) {
            assert(l.take(18)[0] == "transfer-encoding:"@[0]);
        }
    }
}

/// The request is its lines, an empty line, and the body.
proof fn lemma_request_is_its_lines(
    host: Seq<char>,
    port: u16,
    path: Seq<char>,
    bearer: Option<Seq<char>>,
    body: Seq<char>,
)
    ensures
        request_text(host, port, path, bearer, body) == joined(
            request_lines(host, port, path, bearer, vstd::utf8::encode_utf8(body).len()),
            "\r\n"@,
        ) + "\r\n\r\n"@ + body,
{
    let length = vstd::utf8::encode_utf8(body).len();
    let ls = request_lines(host, port, path, bearer, length);
    let sep = "\r\n"@;
    lemma_literals();
    let l0 = "POST "@ + path + " HTTP/1.1"@;
    let l1 = "Host: "@ + host + ":"@ + decimal(port as nat);
    let ct = "Content-Type: application/json"@;
    let cl = "Content-Length: "@ + decimal(length);
    let cc = "Connection: close"@;
    let n = ls.len() as int;
    let a = ls.drop_last();
    let b = a.drop_last();
    let c = b.drop_last();
    assert(ls.last() == cc && a.last() == cl && b.last() == ct);
    assert(joined(ls, sep) == joined(a, sep) + sep + cc);
    assert(joined(a, sep) == joined(b, sep) + sep + cl);
    assert(joined(b, sep) == joined(c, sep) + sep + ct);
    let start = if bearer is Some {
        let auth = "Authorization: Bearer "@ + bearer->0;
        assert(c =~= seq![l0, l1, auth]);
        assert(c.drop_last() =~= seq![l0, l1]);
        assert(joined(c, sep) == joined(c.drop_last(), sep) + sep + auth);
        lemma_joined_two(l0, l1, sep);
        l0 + sep + l1 + sep + auth
    } else {
        assert(c =~= seq![l0, l1]);
        lemma_joined_two(l0, l1, sep);
        l0 + sep + l1
    };
    assert(joined(c, sep) == start);
    lemma_request_parts(host, port, path, bearer, body);
}

/// The literals of a request cut at their line ends.
proof fn lemma_literals()
    ensures
        " HTTP/1.1\r\nHost: "@ == " HTTP/1.1"@ + "\r\n"@ + "Host: "@,
        "Content-Type: application/json\r\nContent-Length: "@
            == "Content-Type: application/json"@ + "\r\n"@ + "Content-Length: "@,
        "\r\nConnection: close\r\n\r\n"@ == "\r\n"@ + "Connection: close"@ + "\r\n\r\n"@,
{
    reveal_strlit("\r\n");
    reveal_strlit("\r\n\r\n");
    reveal_strlit(" HTTP/1.1");
    reveal_strlit("Host: ");
    reveal_strlit(" HTTP/1.1\r\nHost: ");
    reveal_strlit("Content-Type: application/json");
    reveal_strlit("Content-Length: ");
    reveal_strlit("Content-Type: application/json\r\nContent-Length: ");
    reveal_strlit("Connection: close");
    reveal_strlit("\r\nConnection: close\r\n\r\n");
    assert(" HTTP/1.1\r\nHost: "@ =~= " HTTP/1.1"@ + "\r\n"@ + "Host: "@);
    assert("Content-Type: application/json\r\nContent-Length: "@
        =~= "Content-Type: application/json"@ + "\r\n"@ + "Content-Length: "@);
    assert("\r\nConnection: close\r\n\r\n"@ =~= "\r\n"@ + "Connection: close"@ + "\r\n\r\n"@);
}

/// The request cut at its line ends.
proof fn lemma_request_parts(
    host: Seq<char>,
    port: u16,
    path: Seq<char>,
    bearer: Option<Seq<char>>,
    body: Seq<char>,
)
    ensures
        ({
            let sep = "\r\n"@;
            let length = vstd::utf8::encode_utf8(body).len();
            let first = "POST "@ + path + " HTTP/1.1"@ + sep + ("Host: "@ + host + ":"@ + decimal(
                port as nat,
            ));
            let start = match bearer {
                Some(b) => first + sep + ("Authorization: Bearer "@ + b),
                None => first,
            };
            request_text(host, port, path, bearer, body) == start + sep
                + "Content-Type: application/json"@ + sep + ("Content-Length: "@ + decimal(length))
                + sep + "Connection: close"@ + "\r\n\r\n"@ + body
        }),
{
    lemma_literals();
    let sep = "\r\n"@;
    let length = vstd::utf8::encode_utf8(body).len();
    let host_line = "Host: "@ + host + ":"@ + decimal(port as nat);
    let first = "POST "@ + path + " HTTP/1.1"@ + sep + host_line;
    let top = "POST "@ + path + " HTTP/1.1\r\nHost: "@ + host + ":"@ + decimal(port as nat);
    assert(top =~= first);
    let start = match bearer {
        Some(b) => first + sep + ("Authorization: Bearer "@ + b),
        None => first,
    };
    assert(top + sep + bearer_line(bearer) =~= start + sep);
    let types = "Content-Type: application/json"@ + sep + "Content-Length: "@;
    let close = sep + "Connection: close"@ + "\r\n\r\n"@;
    assert(request_text(host, port, path, bearer, body) == start + sep + types + decimal(length)
        + close + body);
    assert(start + sep + types + decimal(length) + close + body =~= start + sep
        + "Content-Type: application/json"@ + sep + ("Content-Length: "@ + decimal(length)) + sep
        + "Connection: close"@ + "\r\n\r\n"@ + body);
}

proof fn lemma_joined_two(a: Seq<char>, b: Seq<char>, sep: Seq<char>)
    ensures
        joined(seq![a, b], sep) == a + sep + b,
{
    let v = seq![a, b];
    assert(v.drop_last() =~= seq![a]);
    assert(joined(v.drop_last(), sep) == a);
}

/// A request says truly where it ends: a reader of its head finds that it ends
/// exactly behind its body. The host, the path and the token must be such as can
/// stand in a line of a head.
pub proof fn law_request_is_framed(
    host: Seq<char>,
    port: u16,
    path: Seq<char>,
    bearer: Option<Seq<char>>,
    body: Seq<char>,
)
    requires
        fits_a_line(host),
        fits_a_line(path),
        bearer matches Some(b) ==> fits_a_line(b),
        vstd::utf8::encode_utf8(body).len() <= usize::MAX,
    ensures
        ({
            let bytes = vstd::utf8::encode_utf8(request_text(host, port, path, bearer, body));
            framed_end(bytes) == Some(bytes.len() as int)
        }),
{
    let length = vstd::utf8::encode_utf8(body).len();
    let ls = request_lines(host, port, path, bearer, length);
    lemma_request_lines(host, port, path, bearer, length);
    lemma_request_head(host, port, path, bearer, length);
    lemma_request_is_its_lines(host, port, path, bearer, body);
    lemma_head_is_found(ls, body);
}

} // verus!
