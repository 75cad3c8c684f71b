//! What a program printed to a terminal, without the terminal's control
//! sequences.

use vstd::prelude::*;

use crate::text::{lemma_utf8_text, read_utf8, utf8_text};

verus! {

/// Where in the output the reader stands.
#[derive(Clone, Copy, PartialEq, Eq, Structural, Debug)]
pub enum Place {
    /// In plain text.
    Normal,
    /// Behind an escape character.
    Esc,
    /// In a control sequence (`ESC [`).
    Csi,
    /// In an operating system command (`ESC ]`).
    Osc,
}

/// Where the reader stands after the byte `b`.
pub open spec fn next_place(p: Place, b: u8) -> Place {
    match p {
        Place::Normal => if b == 0x1b {
            Place::Esc
        } else {
            Place::Normal
        },
        Place::Esc => if b == 0x5b {
            Place::Csi
        } else if b == 0x5d {
            Place::Osc
        } else {
            Place::Normal
        },
        Place::Csi => if 0x40 <= b <= 0x7e {
            Place::Normal
        } else {
            Place::Csi
        },
        Place::Osc => if b == 0x07 {
            Place::Normal
        } else if b == 0x1b {
            Place::Esc
        } else {
            Place::Osc
        },
    }
}

/// Line feeds, tabs, printable ASCII and everything beyond ASCII.
pub open spec fn is_plain(b: u8) -> bool {
    b == 0x0a || b == 0x09 || 0x20 <= b <= 0x7e || b >= 0x80
}

/// Where the reader stands after all of `raw`.
pub open spec fn place_after(raw: Seq<u8>) -> Place
    decreases raw.len(),
{
    if raw.len() == 0 {
        Place::Normal
    } else {
        next_place(place_after(raw.drop_last()), raw.last())
    }
}

/// The bytes of `raw` that are plain text: plain bytes outside any sequence.
pub open spec fn cleaned(raw: Seq<u8>) -> Seq<u8>
    decreases raw.len(),
{
    if raw.len() == 0 {
        Seq::empty()
    } else {
        let before = cleaned(raw.drop_last());
        if place_after(raw.drop_last()) == Place::Normal && is_plain(raw.last()) {
            before.push(raw.last())
        } else {
            before
        }
    }
}

/// The plain bytes of terminal output.
pub fn clean_bytes(raw: &[u8]) -> (r: Vec<u8>)
    ensures
        r@ == cleaned(raw@),
{
    let mut place = Place::Normal;
    let mut out: Vec<u8> = Vec::new();
    let mut i: usize = 0;
    while i < raw.len()
        invariant
            i <= raw@.len(),
            place == place_after(raw@.take(i as int)),
            out@ == cleaned(raw@.take(i as int)),
        decreases raw@.len() - i,
    {
        let b: u8 = raw[i];
        proof {
            assert(raw@.take(i + 1).drop_last() =~= raw@.take(i as int));
        }
        match place {
            Place::Normal => {
                if b == 0x1b {
                    place = Place::Esc;
                } else if b == 0x0a || b == 0x09 || (b >= 0x20 && b <= 0x7e) || b >= 0x80 {
                    out.push(b);
                }
            },
            Place::Esc => {
                place = if b == 0x5b {
                    Place::Csi
                } else if b == 0x5d {
                    Place::Osc
                } else {
                    Place::Normal
                };
            },
            Place::Csi => {
                if b >= 0x40 && b <= 0x7e {
                    place = Place::Normal;
                }
            },
            Place::Osc => {
                if b == 0x07 {
                    place = Place::Normal;
                } else if b == 0x1b {
                    place = Place::Esc;
                }
            },
        }
        i = i + 1;
    }
    proof {
        assert(raw@.take(i as int) =~= raw@);
    }
    out
}

/// Line feeds, tabs, and every other character but the control characters below
/// U+0020 and U+007F.
pub open spec fn is_plain_char(c: char) -> bool {
    c == '\n' || c == '\t' || (c >= ' ' && c != '\u{7f}')
}

/// A text of plain characters.
pub open spec fn is_plain_text(t: Seq<char>) -> bool {
    forall|i: int| 0 <= i < t.len() ==> is_plain_char(#[trigger] t[i])
}

/// Terminal output as text: without escape sequences, carriage returns and
/// control characters other than line feed and tab, whatever the bytes were.
/// Cleaning the text once more leaves it as it is.
pub fn clean_output(raw: &[u8]) -> (r: String)
    ensures
        r@ == utf8_text(cleaned(raw@)),
        is_plain_text(r@),
        utf8_text(cleaned(vstd::utf8::encode_utf8(r@))) == r@,
{
    let bytes = clean_bytes(raw);
    let r = read_utf8(bytes.as_slice());
    proof {
        law_cleaned_is_plain(raw@);
        assert forall|i: int| 0 <= i < r@.len() implies is_plain_char(#[trigger] r@[i]) by {
            if r@[i] <= '\u{7f}' {
                let k = choose|k: int| 0 <= k < bytes@.len() && bytes@[k] == r@[i] as u8;
                assert(is_plain(cleaned(raw@)[k]));
                lemma_plain_ascii(r@[i]);
            }
        }
        law_plain_characters_are_kept(r@);
    }
    r
}

/// An ASCII character is plain where its byte is.
proof fn lemma_plain_ascii(c: char)
    requires
        c <= '\u{7f}',
    ensures
        is_plain(c as u8) <==> is_plain_char(c),
{
}

/// A character is plain where the bytes that encode it are.
proof fn lemma_plain_scalar(c: char)
    ensures
        is_plain_char(c) <==> forall|i: int|
            0 <= i < vstd::utf8::encode_scalar(c as u32).len() ==> is_plain(
                #[trigger] vstd::utf8::encode_scalar(c as u32)[i],
            ),
{
    let v = c as u32;
    let e = vstd::utf8::encode_scalar(v);
    assert(v <= 0x7f ==> (v & 0x7F) as u8 == v) by (bit_vector);
    assert(0xC0u8 | ((v >> 6) & 0x1F) as u8 >= 0x80) by (bit_vector);
    assert(0xE0u8 | ((v >> 12) & 0x0F) as u8 >= 0x80) by (bit_vector);
    assert(0xF0u8 | ((v >> 18) & 0x7) as u8 >= 0x80) by (bit_vector);
    assert(0x80u8 | (v & 0x3F) as u8 >= 0x80) by (bit_vector);
    assert(0x80u8 | ((v >> 6) & 0x3F) as u8 >= 0x80) by (bit_vector);
    assert(0x80u8 | ((v >> 12) & 0x3F) as u8 >= 0x80) by (bit_vector);
    if v <= 0x7f {
        assert(e[0] == c as u8);
        lemma_plain_ascii(c);
    } else {
        assert forall|i: int| 0 <= i < e.len() implies is_plain(#[trigger] e[i]) by {}
    }
}

/// A text is plain where the bytes that encode it are.
proof fn lemma_plain_encoding(t: Seq<char>)
    ensures
        is_plain_text(t) <==> forall|i: int|
            0 <= i < vstd::utf8::encode_utf8(t).len() ==> is_plain(
                #[trigger] vstd::utf8::encode_utf8(t)[i],
            ),
    decreases t.len(),
{
    if t.len() > 0 {
        let e = vstd::utf8::encode_scalar(t[0] as u32);
        let rest = t.drop_first();
        let b = vstd::utf8::encode_utf8(rest);
        let all = vstd::utf8::encode_utf8(t);
        assert(all == e + b);
        lemma_plain_scalar(t[0]);
        lemma_plain_encoding(rest);
        if is_plain_text(t) {
            assert(is_plain_char(t[0]));
            assert(is_plain_text(rest)) by {
                assert forall|i: int| 0 <= i < rest.len() implies is_plain_char(
                    #[trigger] rest[i],
                ) by {
                    assert(rest[i] == t[i + 1]);
                }
            }
            assert forall|i: int| 0 <= i < all.len() implies is_plain(#[trigger] all[i]) by {
                if i < e.len() {
                    assert(all[i] == e[i]);
                } else {
                    assert(all[i] == b[i - e.len()]);
                }
            }
        }
        if forall|i: int| 0 <= i < all.len() ==> is_plain(#[trigger] all[i]) {
            assert forall|i: int| 0 <= i < e.len() implies is_plain(#[trigger] e[i]) by {
                assert(all[i] == e[i]);
            }
            assert forall|i: int| 0 <= i < b.len() implies is_plain(#[trigger] b[i]) by {
                assert(all[e.len() + i] == b[i]);
            }
            assert forall|i: int| 0 <= i < t.len() implies is_plain_char(#[trigger] t[i]) by {
                if i > 0 {
                    assert(t[i] == rest[i - 1]);
                }
            }
        }
    }
}

/// The text of cleaned output has no control character below U+0020 but line
/// feed and tab, and no U+007F.
pub proof fn law_cleaned_text_is_plain(raw: Seq<u8>)
    requires
        vstd::utf8::valid_utf8(cleaned(raw)),
    ensures
        is_plain_text(utf8_text(cleaned(raw))),
{
    let bytes = cleaned(raw);
    law_cleaned_is_plain(raw);
    vstd::utf8::decode_utf8_encode_utf8(bytes);
    lemma_plain_encoding(utf8_text(bytes));
}

/// A plain text comes through unchanged: what a program prints without control
/// characters is the text that is read, and a text that was cleaned is not
/// changed by cleaning it again.
pub proof fn law_plain_characters_are_kept(t: Seq<char>)
    requires
        is_plain_text(t),
    ensures
        cleaned(vstd::utf8::encode_utf8(t)) == vstd::utf8::encode_utf8(t),
        utf8_text(cleaned(vstd::utf8::encode_utf8(t))) == t,
{
    lemma_plain_encoding(t);
    law_plain_text_is_kept(vstd::utf8::encode_utf8(t));
    lemma_utf8_text(t);
}

/// No control byte but line feed and tab is left.
pub proof fn law_cleaned_is_plain(raw: Seq<u8>)
    ensures
        forall|i: int| 0 <= i < cleaned(raw).len() ==> is_plain(#[trigger] cleaned(raw)[i]),
    decreases raw.len(),
{
    if raw.len() > 0 {
        law_cleaned_is_plain(raw.drop_last());
        let before = cleaned(raw.drop_last());
        assert forall|i: int| 0 <= i < cleaned(raw).len() implies is_plain(
            #[trigger] cleaned(raw)[i],
        ) by {
            if i < before.len() {
                assert(cleaned(raw)[i] == before[i]);
            }
        }
    }
}

/// Plain text comes through unchanged, so that cleaning twice is cleaning once.
pub proof fn law_plain_text_is_kept(raw: Seq<u8>)
    requires
        forall|i: int| 0 <= i < raw.len() ==> is_plain(#[trigger] raw[i]),
    ensures
        cleaned(raw) == raw,
        place_after(raw) == Place::Normal,
    decreases raw.len(),
{
    if raw.len() > 0 {
        let front = raw.drop_last();
        assert forall|i: int| 0 <= i < front.len() implies is_plain(#[trigger] front[i]) by {
            assert(front[i] == raw[i]);
        }
        law_plain_text_is_kept(front);
        assert(is_plain(raw[raw.len() - 1]));
        assert(front.push(raw.last()) =~= raw);
    } else {
        assert(cleaned(raw) =~= raw);
    }
}

/// A control sequence (`ESC [`, parameters, a final byte) leaves nothing
/// behind: what stands before and after it is read as if it were not there.
pub proof fn law_control_sequence_vanishes(before: Seq<u8>, params: Seq<u8>, last: u8)
    requires
        place_after(before) == Place::Normal,
        forall|i: int| 0 <= i < params.len() ==> !(0x40 <= #[trigger] params[i] <= 0x7e),
        0x40 <= last <= 0x7e,
    ensures
        cleaned(before + seq![0x1bu8, 0x5bu8] + params + seq![last]) == cleaned(before),
        place_after(before + seq![0x1bu8, 0x5bu8] + params + seq![last]) == Place::Normal,
{
    let head = before + seq![0x1bu8, 0x5bu8];
    assert(head.drop_last().drop_last() =~= before);
    assert(head.drop_last().last() == 0x1bu8 && head.last() == 0x5bu8);
    assert(place_after(head.drop_last()) == Place::Esc);
    assert(place_after(head) == Place::Csi);
    assert(cleaned(head.drop_last()) == cleaned(before));
    assert(cleaned(head) == cleaned(head.drop_last()));
    lemma_in_csi(head, params);
    let all = head + params + seq![last];
    assert(all.drop_last() =~= head + params);
    assert(all.last() == last);
}

/// An operating system command (`ESC ]`, a text, a bell) leaves nothing behind.
pub proof fn law_system_command_vanishes(before: Seq<u8>, text: Seq<u8>)
    requires
        place_after(before) == Place::Normal,
        forall|i: int| 0 <= i < text.len() ==> #[trigger] text[i] != 0x07 && text[i] != 0x1b,
    ensures
        cleaned(before + seq![0x1bu8, 0x5du8] + text + seq![0x07u8]) == cleaned(before),
        place_after(before + seq![0x1bu8, 0x5du8] + text + seq![0x07u8]) == Place::Normal,
{
    let head = before + seq![0x1bu8, 0x5du8];
    assert(head.drop_last().drop_last() =~= before);
    assert(head.drop_last().last() == 0x1bu8 && head.last() == 0x5du8);
    assert(place_after(head.drop_last()) == Place::Esc);
    assert(place_after(head) == Place::Osc);
    assert(cleaned(head.drop_last()) == cleaned(before));
    assert(cleaned(head) == cleaned(head.drop_last()));
    lemma_in_osc(head, text);
    let all = head + text + seq![0x07u8];
    assert(all.drop_last() =~= head + text);
    assert(all.last() == 0x07u8);
}

proof fn lemma_in_osc(head: Seq<u8>, text: Seq<u8>)
    requires
        place_after(head) == Place::Osc,
        forall|i: int| 0 <= i < text.len() ==> #[trigger] text[i] != 0x07 && text[i] != 0x1b,
    ensures
        place_after(head + text) == Place::Osc,
        cleaned(head + text) == cleaned(head),
    decreases text.len(),
{
    if text.len() == 0 {
        assert(head + text =~= head);
    } else {
        let front = text.drop_last();
        assert forall|i: int| 0 <= i < front.len() implies #[trigger] front[i] != 0x07 && front[i]
            != 0x1b by {
            assert(front[i] == text[i]);
        }
        lemma_in_osc(head, front);
        assert((head + text).drop_last() =~= head + front);
        assert((head + text).last() == text[text.len() - 1]);
    }
}

proof fn lemma_in_csi(head: Seq<u8>, params: Seq<u8>)
    requires
        place_after(head) == Place::Csi,
        forall|i: int| 0 <= i < params.len() ==> !(0x40 <= #[trigger] params[i] <= 0x7e),
    ensures
        place_after(head + params) == Place::Csi,
        cleaned(head + params) == cleaned(head),
    decreases params.len(),
{
    if params.len() == 0 {
        assert(head + params =~= head);
    } else {
        let front = params.drop_last();
        assert forall|i: int| 0 <= i < front.len() implies !(0x40 <= #[trigger] front[i] <= 0x7e) by {
            assert(front[i] == params[i]);
        }
        lemma_in_csi(head, front);
        assert((head + params).drop_last() =~= head + front);
        assert((head + params).last() == params[params.len() - 1]);
    }
}

} // verus!
