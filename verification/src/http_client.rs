//! The HTTP/1.1 that a client speaks to an upstream: one POST of a JSON body,
//! and one response, whose length is given by `Content-Length`, by chunks, or
//! by the end of the connection.

use vstd::prelude::*;

use crate::text::{
    contains, decimal, decimal_text, find_text_from, has_infix, has_prefix, lemma_find_text_extends,
    lemma_find_text_from, lines, lines_of, lower_text, lowered, occurs_at, opt_str_view,
    parse_number, parsed, read_utf8, starts_with, strip_prefix, trim, trimmed, utf8_text, views,
    words, words_of,
};

verus! {

// ---------------------------------------------------------------------------
// The request
// ---------------------------------------------------------------------------

/// The header line that carries a bearer token.
pub open spec fn bearer_line(bearer: Option<Seq<char>>) -> Seq<char> {
    match bearer {
        Some(b) => "Authorization: Bearer "@ + b + "\r\n"@,
        None => Seq::empty(),
    }
}

/// The request: its `Content-Length` is the number of bytes of the body.
pub open spec fn request_text(
    host: Seq<char>,
    port: u16,
    path: Seq<char>,
    bearer: Option<Seq<char>>,
    body: Seq<char>,
) -> Seq<char> {
    "POST "@ + path + " HTTP/1.1\r\nHost: "@ + host + ":"@ + decimal(port as nat) + "\r\n"@
        + bearer_line(bearer) + "Content-Type: application/json\r\nContent-Length: "@ + decimal(
        vstd::utf8::encode_utf8(body).len(),
    ) + "\r\nConnection: close\r\n\r\n"@ + body
}

/// Writes the request that posts a JSON body.
pub fn request_bytes(
    host: &str,
    port: u16,
    path: &str,
    bearer: Option<&str>,
    body: &str,
) -> (r: String)
    ensures
        r@ == request_text(host@, port, path@, opt_str_view(bearer), body@),
{
    let auth = match bearer {
        Some(b) => "Authorization: Bearer ".to_owned().concat(b).concat("\r\n"),
        None => String::new(),
    };
    let len: usize = body.as_bytes().len();
    "POST ".to_owned().concat(path).concat(" HTTP/1.1\r\nHost: ").concat(host).concat(":").concat(
        decimal_text(port as u128).as_str(),
    ).concat("\r\n").concat(auth.as_str()).concat(
        "Content-Type: application/json\r\nContent-Length: ",
    ).concat(decimal_text(len as u128).as_str()).concat("\r\nConnection: close\r\n\r\n").concat(
        body,
    )
}

/// How long connecting may take, and how long one read or write may take
/// (`None`: without bound), both in nanoseconds.
pub fn socket_timeouts(timeout_nanos: u128) -> (r: (u128, Option<u128>))
    ensures
        r.0 == (if timeout_nanos < 1_000_000_000 {
            1_000_000_000
        } else if timeout_nanos > 15_000_000_000 {
            15_000_000_000
        } else {
            timeout_nanos as int
        }),
        r.1 == (if timeout_nanos == 0 {
            None
        } else {
            Some(timeout_nanos)
        }),
{
    let connect: u128 = if timeout_nanos < 1_000_000_000 {
        1_000_000_000
    } else if timeout_nanos > 15_000_000_000 {
        15_000_000_000
    } else {
        timeout_nanos
    };
    let each: Option<u128> = if timeout_nanos == 0 {
        None
    } else {
        Some(timeout_nanos)
    };
    (connect, each)
}

// ---------------------------------------------------------------------------
// Bytes
// ---------------------------------------------------------------------------

/// A line end.
pub open spec fn crlf() -> Seq<u8> {
    seq![13u8, 10u8]
}

/// The end of a head: a line end and an empty line.
pub open spec fn blank_line() -> Seq<u8> {
    seq![13u8, 10u8, 13u8, 10u8]
}

/// The first position at which `p` occurs in `s`.
fn find_bytes(s: &[u8], p: &[u8]) -> (r: Option<usize>)
    ensures
        match r {
            Some(f) => f == find_text_from(s@, p@, 0) && occurs_at(s@, p@, f as int),
            None => find_text_from(s@, p@, 0) == -1,
        },
{
    let n: usize = s.len();
    let mut f: usize = 0;
    while f <= n && p.len() <= n - f
        invariant
            n == s@.len(),
            f <= n + 1,
            n < usize::MAX || f <= n,
            find_text_from(s@, p@, 0) == find_text_from(s@, p@, f as int),
        decreases n + 1 - f,
    {
        let mut k: usize = 0;
        while k < p.len() && s[f + k] == p[k]
            invariant
                n == s@.len(),
                f + p@.len() <= n,
                k <= p@.len(),
                forall|j: int| 0 <= j < k ==> s@[f + j] == p@[j],
            decreases p@.len() - k,
        {
            k = k + 1;
        }
        if k == p.len() {
            proof {
                assert(s@.subrange(f as int, f + p@.len()) =~= p@);
            }
            return Some(f);
        }
        proof {
            assert(s@.subrange(f as int, f + p@.len())[k as int] == s@[f + k]);
        }
        if f == n {
            proof {
                assert(find_text_from(s@, p@, n + 1) == -1);
            }
            return None;
        }
        f = f + 1;
    }
    proof {
        lemma_find_text_from(s@, p@, f as int);
    }
    None
}

/// The position at which the head of a response ends, or -1.
pub open spec fn head_end(raw: Seq<u8>) -> int {
    find_text_from(raw, blank_line(), 0)
}

/// Finds the end of the head.
fn find_head_end(raw: &[u8]) -> (r: Option<usize>)
    ensures
        match r {
            Some(f) => f == head_end(raw@) && f + 4 <= raw@.len(),
            None => head_end(raw@) == -1,
        },
{
    let p: [u8; 4] = [13, 10, 13, 10];
    proof {
        assert(p@ =~= blank_line());
    }
    find_bytes(raw, &p)
}

// ---------------------------------------------------------------------------
// The head
// ---------------------------------------------------------------------------

/// A line that says that the body comes in chunks.
pub open spec fn is_chunked_line(line: Seq<char>) -> bool {
    has_prefix(lowered(line), "transfer-encoding:"@) && has_infix(lowered(line), "chunked"@)
}

/// Some line says that the body comes in chunks.
pub open spec fn says_chunked(head: Seq<Seq<char>>) -> bool {
    exists|i: int| 0 <= i < head.len() && is_chunked_line(#[trigger] head[i])
}

/// The body's length as the last `Content-Length` line gives it.
pub open spec fn declared_length(head: Seq<Seq<char>>) -> Option<nat>
    decreases head.len(),
{
    if head.len() == 0 {
        None
    } else {
        let l = lowered(head.last());
        if has_prefix(l, "content-length:"@) {
            parsed(trim(l.skip("content-length:"@.len() as int)), 10, usize::MAX as nat)
        } else {
            declared_length(head.drop_last())
        }
    }
}

/// The status that the first line gives as its second word.
pub open spec fn status_of(head: Seq<Seq<char>>) -> Option<nat> {
    if head.len() > 0 && words(head[0]).len() > 1 {
        parsed(words(head[0])[1], 10, 65535)
    } else {
        None
    }
}

/// Reads from the head whether the body comes in chunks.
pub fn head_is_chunked(head: &str) -> (r: bool)
    ensures
        r == says_chunked(lines(head@)),
{
    let ls = lines_of(head);
    let ghost texts = views(ls@);
    let mut i: usize = 0;
    while i < ls.len()
        invariant
            i <= ls@.len(),
            texts == views(ls@),
            texts == lines(head@),
            forall|j: int| 0 <= j < i ==> !is_chunked_line(#[trigger] texts[j]),
        decreases ls@.len() - i,
    {
        let l = lower_text(ls[i].as_str());
        proof {
            assert(texts[i as int] == ls@[i as int]@);
        }
        if starts_with(l.as_str(), "transfer-encoding:") && contains(l.as_str(), "chunked") {
            return true;
        }
        i = i + 1;
    }
    false
}

/// Reads the body's length from the head.
pub fn head_content_length(head: &str) -> (r: Option<usize>)
    ensures
        match r {
            Some(n) => declared_length(lines(head@)) == Some(n as nat),
            None => declared_length(lines(head@)) is None,
        },
{
    let ls = lines_of(head);
    let ghost texts = views(ls@);
    let mut n: usize = ls.len();
    proof {
        assert(texts.take(n as int) =~= texts);
    }
    while n > 0
        invariant
            n <= ls@.len(),
            texts == views(ls@),
            texts == lines(head@),
            declared_length(texts) == declared_length(texts.take(n as int)),
        decreases n,
    {
        let l = lower_text(ls[n - 1].as_str());
        proof {
            assert(texts.take(n as int).last() == ls@[n - 1]@);
            assert(texts.take(n as int).drop_last() =~= texts.take(n - 1));
        }
        if let Some(v) = strip_prefix(l.as_str(), "content-length:") {
            return parse_number(trimmed(v.as_str()).as_str(), 10, usize::MAX);
        }
        n = n - 1;
    }
    None
}

/// Reads the status from the head.
pub fn head_status(head: &str) -> (r: Option<u16>)
    ensures
        match r {
            Some(n) => status_of(lines(head@)) == Some(n as nat),
            None => status_of(lines(head@)) is None,
        },
{
    let ls = lines_of(head);
    if ls.len() == 0 {
        return None;
    }
    proof {
        assert(views(ls@)[0] == ls@[0]@);
    }
    let ws = words_of(ls[0].as_str());
    if ws.len() < 2 {
        return None;
    }
    proof {
        assert(views(ws@)[1] == ws@[1]@);
    }
    match parse_number(ws[1].as_str(), 10, 65535) {
        Some(n) => Some(n as u16),
        None => None,
    }
}

// ---------------------------------------------------------------------------
// Reading a response
// ---------------------------------------------------------------------------

/// The lines of a response's head.
pub open spec fn head_lines(raw: Seq<u8>) -> Seq<Seq<char>> {
    lines(utf8_text(raw.take(head_end(raw))))
}

/// Where a response ends that has a complete head with a `Content-Length` and
/// no chunks.
pub open spec fn framed_end(raw: Seq<u8>) -> Option<int> {
    if head_end(raw) < 0 || says_chunked(head_lines(raw)) {
        None
    } else {
        match declared_length(head_lines(raw)) {
            Some(n) => Some(head_end(raw) + 4 + n),
            None => None,
        }
    }
}

/// All of a response with a known end is there.
pub open spec fn complete(raw: Seq<u8>) -> bool {
    framed_end(raw) is Some && framed_end(raw)->0 <= raw.len()
}

/// What more bytes do not change: the head and the end that it gives.
pub proof fn lemma_framing_extends(raw: Seq<u8>, more: Seq<u8>)
    requires
        head_end(raw) >= 0,
    ensures
        head_end(raw + more) == head_end(raw),
        head_lines(raw + more) == head_lines(raw),
        framed_end(raw + more) == framed_end(raw),
{
    lemma_find_text_extends(raw, more, blank_line());
    lemma_find_text_from(raw, blank_line(), 0);
    assert((raw + more).take(head_end(raw)) =~= raw.take(head_end(raw)));
}

/// Why a response could not be read.
pub enum ReadError {
    /// It is longer than the limit, which is given.
    TooLarge(usize),
    /// The connection failed.
    Failed(String),
}

/// A read error as a value of the model.
pub ghost enum ReadErrorView {
    TooLarge(usize),
    Failed(Seq<char>),
}

impl View for ReadError {
    type V = ReadErrorView;

    open spec fn view(&self) -> ReadErrorView {
        match self {
            ReadError::TooLarge(n) => ReadErrorView::TooLarge(*n),
            ReadError::Failed(s) => ReadErrorView::Failed(s@),
        }
    }
}

/// What is said of a read error.
pub open spec fn read_error_text(e: ReadErrorView) -> Seq<char> {
    match e {
        ReadErrorView::TooLarge(n) => "response exceeds max_response_bytes cap ("@ + decimal(
            n as nat,
        ) + " bytes)"@,
        ReadErrorView::Failed(s) => s,
    }
}

impl ReadError {
    /// What is said of the error.
    pub fn message(&self) -> (r: String)
        ensures
            r@ == read_error_text(self@),
    {
        match self {
            ReadError::TooLarge(n) => "response exceeds max_response_bytes cap (".to_owned().concat(
                decimal_text(*n as u128).as_str(),
            ).concat(" bytes)"),
            ReadError::Failed(s) => s.clone(),
        }
    }
}

/// What a read from the connection brought.
pub enum ReadEvent {
    /// Bytes.
    Data(Vec<u8>),
    /// The end: the peer closed the connection, cleanly or not.
    End,
    /// A failure other than an end, a timeout among them.
    Failed(String),
}

/// What to do after a read.
pub enum ReadAction {
    /// Read on.
    More,
    /// The response is there.
    Done,
    /// Give up.
    Fail(ReadError),
}

/// A response while it is being read.
pub struct BodyReader {
    pub buf: Vec<u8>,
    pub header_end: Option<usize>,
    pub content_length: Option<usize>,
    pub chunked: bool,
    pub max_bytes: usize,
}

impl BodyReader {
    /// What is noted of the head is what the bytes say.
    pub open spec fn wf(&self) -> bool {
        match self.header_end {
            Some(h) => {
                &&& h == head_end(self.buf@)
                &&& h + 4 <= self.buf@.len()
                &&& self.chunked == says_chunked(head_lines(self.buf@))
                &&& match self.content_length {
                    Some(n) => declared_length(head_lines(self.buf@)) == Some(n as nat),
                    None => declared_length(head_lines(self.buf@)) is None,
                }
            },
            None => head_end(self.buf@) == -1,
        }
    }

    /// A reader before the first byte. No limit where `max_bytes` is 0.
    pub fn new(max_bytes: usize) -> (r: BodyReader)
        ensures
            r.wf(),
            r.buf@ == Seq::<u8>::empty(),
            r.max_bytes == max_bytes,
    {
        proof {
            lemma_find_text_from(Seq::<u8>::empty(), blank_line(), 0);
        }
        BodyReader {
            buf: Vec::new(),
            header_end: None,
            content_length: None,
            chunked: false,
            max_bytes,
        }
    }

    /// Notes what the head says, once it is complete.
    fn note_head(&mut self)
        requires
            old(self).header_end is None,
        ensures
            final(self).wf(),
            final(self).buf@ == old(self).buf@,
            final(self).max_bytes == old(self).max_bytes,
    {
        if let Some(h) = find_head_end(self.buf.as_slice()) {
            let head = read_utf8(vstd::slice::slice_subrange(self.buf.as_slice(), 0, h));
            proof {
                assert(self.buf@.subrange(0, h as int) =~= self.buf@.take(h as int));
            }
            self.content_length = head_content_length(head.as_str());
            self.chunked = head_is_chunked(head.as_str());
            self.header_end = Some(h);
        }
    }

    /// Where the response ends, where that is known and reachable.
    fn end(&self) -> (r: Option<usize>)
        requires
            self.wf(),
        ensures
            match r {
                Some(e) => framed_end(self.buf@) == Some(e as int),
                None => framed_end(self.buf@) is None || framed_end(self.buf@)->0 > usize::MAX,
            },
    {
        let len: usize = self.buf.len();
        match (self.header_end, self.content_length) {
            (Some(h), Some(n)) => {
                assert(h + 4 <= len);
                if self.chunked {
                    None
                } else {
                    (h + 4).checked_add(n)
                }
            },
            _ => None,
        }
    }
}

/// What the bytes are after a read, and what is done.
pub open spec fn read_outcome(
    buf: Seq<u8>,
    max_bytes: usize,
    data: Seq<u8>,
) -> (Seq<u8>, Option<Result<(), ReadErrorView>>) {
    let all = buf + data;
    if max_bytes != 0 && all.len() > max_bytes {
        (all, Some(Err(ReadErrorView::TooLarge(max_bytes))))
    } else if complete(all) {
        (all.take(framed_end(all)->0), Some(Ok(())))
    } else {
        (all, None)
    }
}

/// An action as a value of the model: none while there is more to read.
pub open spec fn action_view(a: ReadAction) -> Option<Result<(), ReadErrorView>> {
    match a {
        ReadAction::More => None,
        ReadAction::Done => Some(Ok(())),
        ReadAction::Fail(e) => Some(Err(e@)),
    }
}

/// Takes in what a read brought. With a `Content-Length` the response is done
/// once that many bytes of body are there, though the peer may hold the
/// connection open; without one, or with chunks, it ends with the connection.
/// A response longer than the limit is given up.
pub fn read_body(reader: &mut BodyReader, event: ReadEvent) -> (r: ReadAction)
    requires
        old(reader).wf(),
    ensures
        final(reader).max_bytes == old(reader).max_bytes,
        match event {
            ReadEvent::Data(data) => {
                &&& (final(reader).buf@, action_view(r)) == read_outcome(
                    old(reader).buf@,
                    old(reader).max_bytes,
                    data@,
                )
                &&& r is More ==> final(reader).wf()
            },
            ReadEvent::End => action_view(r) == Some(Ok::<(), ReadErrorView>(()))
                && *final(reader) == *old(reader),
            ReadEvent::Failed(e) => action_view(r) == Some(
                Err::<(), ReadErrorView>(ReadErrorView::Failed(e@)),
            ) && *final(reader) == *old(reader),
        },
{
    match event {
        ReadEvent::End => ReadAction::Done,
        ReadEvent::Failed(e) => ReadAction::Fail(ReadError::Failed(e)),
        ReadEvent::Data(data) => {
            let ghost before = reader.buf@;
            reader.buf.extend_from_slice(data.as_slice());
            proof {
                assert(reader.buf@ =~= before + data@);
            }
            if reader.max_bytes != 0 && reader.buf.len() > reader.max_bytes {
                return ReadAction::Fail(ReadError::TooLarge(reader.max_bytes));
            }
            if reader.header_end.is_none() {
                reader.note_head();
            } else {
                proof {
                    lemma_framing_extends(before, data@);
                }
            }
            let len: usize = reader.buf.len();
            match reader.end() {
                Some(e) => {
                    if e <= len {
                        reader.buf.truncate(e);
                        proof {
                            assert(reader.buf@ =~= (before + data@).take(e as int));
                        }
                        return ReadAction::Done;
                    }
                },
                None => {},
            }
            ReadAction::More
        },
    }
}

/// What is read of a connection that brings `chunks` and then ends, where there
/// is no limit.
pub open spec fn read_all(buf: Seq<u8>, chunks: Seq<Seq<u8>>) -> Seq<u8>
    decreases chunks.len(),
{
    if chunks.len() == 0 {
        buf
    } else {
        match read_outcome(buf, 0, chunks[0]) {
            (next, None) => read_all(next, chunks.drop_first()),
            (last, Some(_)) => last,
        }
    }
}

/// How the network cuts a response into pieces makes no difference: what is
/// read is everything up to the end that the head gives, or everything there
/// is where it gives none.
pub proof fn law_pieces_make_no_difference(buf: Seq<u8>, chunks: Seq<Seq<u8>>)
    requires
        !complete(buf),
    ensures
        ({
            let all = buf + chunks.flatten();
            read_all(buf, chunks) == if complete(all) {
                all.take(framed_end(all)->0)
            } else {
                all
            }
        }),
    decreases chunks.len(),
{
    let all = buf + chunks.flatten();
    if chunks.len() == 0 {
        assert(all =~= buf);
    } else {
        let rest = chunks.drop_first();
        let next = buf + chunks[0];
        assert(all =~= next + rest.flatten());
        if complete(next) {
            lemma_framing_extends(next, rest.flatten());
            let e = framed_end(next)->0;
            assert(all.take(e) =~= next.take(e));
        } else {
            law_pieces_make_no_difference(next, rest);
        }
    }
}

/// With a limit, no response longer than it is ever taken for complete, and no
/// read goes on with more than it.
pub proof fn law_limit_is_kept(buf: Seq<u8>, max_bytes: usize, data: Seq<u8>)
    requires
        max_bytes > 0,
    ensures
        ({
            let (bytes, action) = read_outcome(buf, max_bytes, data);
            action != Some(
                Err::<(), ReadErrorView>(ReadErrorView::TooLarge(max_bytes)),
            ) ==> bytes.len() <= max_bytes
        }),
{
}

// ---------------------------------------------------------------------------
// Taking a response apart
// ---------------------------------------------------------------------------

/// Why bytes are no HTTP response.
#[derive(Clone, Copy, PartialEq, Eq, Structural, Debug)]
pub enum ResponseError {
    /// The head does not end.
    NoHeaderTerminator,
    /// The first line gives no status.
    BadStatusLine,
}

/// What is said of a response that cannot be read.
pub open spec fn response_error_text(e: ResponseError) -> Seq<char> {
    match e {
        ResponseError::NoHeaderTerminator => "no header terminator"@,
        ResponseError::BadStatusLine => "bad status line"@,
    }
}

impl ResponseError {
    /// What is said of the error.
    pub fn message(&self) -> (r: String)
        ensures
            r@ == response_error_text(*self),
    {
        match self {
            ResponseError::NoHeaderTerminator => "no header terminator".to_owned(),
            ResponseError::BadStatusLine => "bad status line".to_owned(),
        }
    }
}

/// The bytes before the first semicolon.
pub open spec fn before_semicolon(line: Seq<u8>) -> Seq<u8>
    decreases line.len(),
{
    if line.len() == 0 || line[0] == 59 {
        Seq::empty()
    } else {
        seq![line[0]] + before_semicolon(line.drop_first())
    }
}

/// The size that a chunk's first line gives in hexadecimal, before any
/// extension; 0 where it gives none.
pub open spec fn chunk_size(line: Seq<u8>) -> nat {
    match parsed(trim(utf8_text(before_semicolon(line))), 16, usize::MAX as nat) {
        Some(n) => n,
        None => 0,
    }
}

/// The rest after a chunk's line end, where it has one.
pub open spec fn after_crlf(data: Seq<u8>) -> Seq<u8> {
    if occurs_at(data, crlf(), 0) {
        data.skip(2)
    } else {
        data
    }
}

/// The body that chunks carry, up to the chunk of size 0 or to where the data
/// ends.
pub open spec fn dechunked(data: Seq<u8>) -> Seq<u8>
    decreases data.len(),
    via dechunked_decreases
{
    let nl = find_text_from(data, crlf(), 0);
    if nl < 0 {
        Seq::empty()
    } else {
        let size = chunk_size(data.take(nl));
        let rest = data.skip(nl + 2);
        if size == 0 {
            Seq::empty()
        } else if size >= rest.len() {
            rest
        } else {
            rest.take(size as int) + dechunked(after_crlf(rest.skip(size as int)))
        }
    }
}

#[via_fn]
proof fn dechunked_decreases(data: Seq<u8>) {
    lemma_find_text_from(data, crlf(), 0);
}

/// Reads a chunk's first line.
fn read_chunk_size(line: &[u8]) -> (r: usize)
    ensures
        r == chunk_size(line@),
{
    let n: usize = line.len();
    let mut e: usize = 0;
    proof {
        assert(line@.skip(0) =~= line@);
    }
    while e < n && line[e] != 59
        invariant
            n == line@.len(),
            e <= n,
            before_semicolon(line@) =~= line@.take(e as int) + before_semicolon(
                line@.skip(e as int),
            ),
        decreases n - e,
    {
        proof {
            assert(line@.skip(e as int).drop_first() =~= line@.skip(e + 1));
            assert(line@.take(e + 1) =~= line@.take(e as int).push(line@[e as int]));
        }
        e = e + 1;
    }
    proof {
        assert(before_semicolon(line@) =~= line@.take(e as int));
        assert(line@.subrange(0, e as int) =~= line@.take(e as int));
    }
    let size = read_utf8(vstd::slice::slice_subrange(line, 0, e));
    match parse_number(trimmed(size.as_str()).as_str(), 16, usize::MAX) {
        Some(k) => k,
        None => 0,
    }
}

/// Joins the chunks of a chunked body. It is lenient: it stops at the chunk of
/// size 0, at a size that it cannot read, or where the data ends.
pub fn dechunk(data: &[u8]) -> (r: Vec<u8>)
    ensures
        r@ == dechunked(data@),
{
    let n: usize = data.len();
    let line_end: [u8; 2] = [13, 10];
    let mut out: Vec<u8> = Vec::new();
    let mut i: usize = 0;
    proof {
        assert(line_end@ =~= crlf());
        assert(data@.skip(0) =~= data@);
        assert(out@ + dechunked(data@) =~= dechunked(data@));
    }
    loop
        invariant
            n == data@.len(),
            i <= n,
            line_end@ == crlf(),
            out@ + dechunked(data@.skip(i as int)) == dechunked(data@),
        decreases n - i,
    {
        let rest = vstd::slice::slice_subrange(data, i, n);
        let ghost tail = data@.skip(i as int);
        proof {
            assert(rest@ =~= tail);
            lemma_find_text_from(tail, crlf(), 0);
        }
        match find_bytes(rest, &line_end) {
            None => {
                proof {
                    assert(out@ + dechunked(tail) =~= out@);
                }
                return out;
            },
            Some(nl) => {
                let line = vstd::slice::slice_subrange(rest, 0, nl);
                proof {
                    assert(line@ =~= tail.take(nl as int));
                }
                let size: usize = read_chunk_size(line);
                let start: usize = i + nl + 2;
                let ghost body = tail.skip(nl + 2);
                proof {
                    assert(body =~= data@.skip(start as int));
                }
                if size == 0 {
                    proof {
                        assert(out@ + dechunked(tail) =~= out@);
                    }
                    return out;
                }
                let ghost before = out@;
                if size >= n - start {
                    out.extend_from_slice(vstd::slice::slice_subrange(data, start, n));
                    proof {
                        assert(out@ =~= before + body);
                    }
                    return out;
                }
                let end: usize = start + size;
                out.extend_from_slice(vstd::slice::slice_subrange(data, start, end));
                let ghost after = body.skip(size as int);
                proof {
                    assert(out@ =~= before + body.take(size as int));
                    assert(after =~= data@.skip(end as int));
                }
                i = end;
                if n - end >= 2 && data[end] == 13 && data[end + 1] == 10 {
                    i = end + 2;
                    proof {
                        assert(after.subrange(0, 2) =~= crlf());
                        assert(after.skip(2) =~= data@.skip(end + 2));
                    }
                } else {
                    proof {
                        if occurs_at(after, crlf(), 0) {
                            assert(after.subrange(0, 2)[0] == 13 && after.subrange(0, 2)[1] == 10);
                        }
                    }
                }
                proof {
                    assert(data@.skip(i as int) =~= after_crlf(after));
                    assert(before + (body.take(size as int) + dechunked(after_crlf(after))) =~= out@
                        + dechunked(after_crlf(after)));
                }
            },
        }
    }
}

/// The body of a response: what follows the head, with its chunks joined.
pub open spec fn body_of(raw: Seq<u8>) -> Seq<u8> {
    let rest = raw.skip(head_end(raw) + 4);
    if says_chunked(head_lines(raw)) {
        dechunked(rest)
    } else {
        rest
    }
}

/// The status and body of a response.
pub open spec fn response(raw: Seq<u8>) -> Result<(nat, Seq<char>), ResponseError> {
    if head_end(raw) < 0 {
        Err(ResponseError::NoHeaderTerminator)
    } else {
        match status_of(head_lines(raw)) {
            Some(status) => Ok((status, utf8_text(body_of(raw)))),
            None => Err(ResponseError::BadStatusLine),
        }
    }
}

/// Takes a response apart into its status and its body.
pub fn parse_response(raw: &[u8]) -> (r: Result<(u16, String), ResponseError>)
    ensures
        match r {
            Ok((status, body)) => response(raw@) == Ok::<(nat, Seq<char>), ResponseError>(
                (status as nat, body@),
            ),
            Err(e) => response(raw@) == Err::<(nat, Seq<char>), ResponseError>(e),
        },
{
    let sep: usize = match find_head_end(raw) {
        Some(f) => f,
        None => {
            return Err(ResponseError::NoHeaderTerminator);
        },
    };
    let len: usize = raw.len();
    let head = read_utf8(vstd::slice::slice_subrange(raw, 0, sep));
    proof {
        assert(raw@.subrange(0, sep as int) =~= raw@.take(sep as int));
    }
    let status: u16 = match head_status(head.as_str()) {
        Some(s) => s,
        None => {
            return Err(ResponseError::BadStatusLine);
        },
    };
    let rest = vstd::slice::slice_subrange(raw, sep + 4, len);
    proof {
        assert(rest@ =~= raw@.skip(sep + 4));
    }
    let body = if head_is_chunked(head.as_str()) {
        read_utf8(dechunk(rest).as_slice())
    } else {
        read_utf8(rest)
    };
    Ok((status, body))
}

} // verus!
