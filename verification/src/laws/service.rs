//! Laws on tokens, the log, the output of terminals, and models.

use vstd::prelude::*;

use crate::auth::{
    bearer_token, check_bearer, ct_eq, hex_of, repaired_mode, resolved_view, token_source, Token,
    TokenView,
};
use crate::config::Config;
use crate::laws::text::law_trim_takes_the_space_around;
use crate::log::{enabled, level_of, reqid_text, sanitized, written, Log};
use crate::pty::{cleaned, place_after, Place};
use crate::router::{legs_for, legs_of, no_default_text};
use crate::text::{decimal, has_prefix, hexadecimal, is_space, lowered, trim, views};

verus! {

// ---------------------------------------------------------------------------
// Tokens
// ---------------------------------------------------------------------------

/// A header is taken for the expected token exactly where it is `Bearer `, the
/// token, and nothing but white space around that.
pub proof fn law_headers_carry_tokens(
    header: Seq<char>,
    before: Seq<char>,
    token: Seq<char>,
    after: Seq<char>,
)
    requires
        token.len() > 0 ==> !is_space(token[0]) && !is_space(token.last()),
        forall|i: int| 0 <= i < before.len() ==> is_space(#[trigger] before[i]),
        forall|i: int| 0 <= i < after.len() ==> is_space(#[trigger] after[i]),
    ensures
        bearer_token(Some("Bearer "@ + (before + token + after))) == Some(token),
        !has_prefix(header, "Bearer "@) ==> bearer_token(Some(header)) is None,
        bearer_token(None) is None,
{
    let rest = before + token + after;
    let h = "Bearer "@ + rest;
    assert(h.take("Bearer "@.len() as int) =~= "Bearer "@);
    assert(h.skip("Bearer "@.len() as int) =~= rest);
    law_trim_takes_the_space_around(before, token, after);
}

/// A header is accepted exactly where it carries the expected token, and two
/// runs of bytes are the same exactly where they have the same bytes.
pub proof fn law_only_the_token_is_accepted(
    header: Option<&str>,
    expected: &str,
    accepted: bool,
    a: &[u8],
    b: &[u8],
    equal: bool,
)
    requires
        call_ensures(check_bearer, (header, expected), accepted),
        call_ensures(ct_eq, (a, b), equal),
    ensures
        header is None ==> !accepted,
        header matches Some(h) ==> (accepted <==> bearer_token(Some(h@)) == Some(expected@)),
        equal <==> a@.len() == b@.len() && forall|i: int|
            0 <= i < a@.len() ==> #[trigger] a@[i] == b@[i],
{
    if a@.len() == b@.len() && forall|i: int| 0 <= i < a@.len() ==> #[trigger] a@[i] == b@[i] {
        assert(a@ =~= b@);
    }
}

/// A token in hexadecimal has two digits for each byte, in order, that add up to
/// it.
pub proof fn law_bytes_are_two_digits(bytes: Seq<u8>, i: int)
    ensures
        hex_of(bytes).len() == 2 * bytes.len(),
        0 <= i < bytes.len() ==> ({
            let high = hex_of(bytes)[2 * i];
            let low = hex_of(bytes)[2 * i + 1];
            &&& '0' <= high <= '9' || 'a' <= high <= 'f'
            &&& '0' <= low <= '9' || 'a' <= low <= 'f'
            &&& (if high <= '9' {
                high as int - 48
            } else {
                high as int - 87
            }) * 16 + (if low <= '9' {
                low as int - 48
            } else {
                low as int - 87
            }) == bytes[i]
        }),
{
    if 0 <= i < bytes.len() {
        let b: u8 = bytes[i];
        assert((2 * i) / 2 == i && (2 * i + 1) / 2 == i);
        assert((2 * i) % 2 == 0 && (2 * i + 1) % 2 == 1);
        assert(b / 16 < 16 && b % 16 < 16);
        assert((b / 16) * 16 + b % 16 == b);
    }
}

/// Where a token comes from: nowhere where authentication is off; from its
/// variable where one is named, which must hold more than white space; else
/// from its file where that does; else a new one is made.
pub proof fn law_tokens_come_from_somewhere(
    name: Seq<char>,
    env: Map<Seq<char>, Seq<char>>,
    file: Seq<char>,
    existing: Option<Seq<char>>,
    text: Seq<char>,
    any: Option<Seq<char>>,
)
    ensures
        token_source(false, any, env, file, existing) == Ok::<Option<TokenView>, Seq<char>>(None),
        env.dom().contains(name) && trim(env[name]).len() > 0 ==> token_source(
            true,
            Some(name),
            env,
            file,
            existing,
        ) == Ok::<Option<TokenView>, Seq<char>>(Some(TokenView::Given(trim(env[name])))),
        !env.dom().contains(name) || trim(env[name]).len() == 0 ==> token_source(
            true,
            Some(name),
            env,
            file,
            existing,
        ) == Err::<Option<TokenView>, Seq<char>>(
            "auth is on and auth_token_env = \""@ + name + "\", but $"@ + name
                + " is empty or unset — export it before starting, or remove auth_token_env to use the "@
                + file + " file"@,
        ),
        trim(text).len() > 0 ==> token_source(true, None, env, file, Some(text)) == Ok::<
            Option<TokenView>,
            Seq<char>,
        >(Some(TokenView::Stored(trim(text)))),
        trim(text).len() == 0 ==> token_source(true, None, env, file, Some(text)) == Ok::<
            Option<TokenView>,
            Seq<char>,
        >(Some(TokenView::Generate)),
        token_source(true, None, env, file, None) == Ok::<Option<TokenView>, Seq<char>>(
            Some(TokenView::Generate),
        ),
{
}

/// Tokens of the model are those of the library.
pub proof fn law_tokens_are_taken_as_they_are(s: String, t: Token)
    ensures
        Token::Given(s)@ == TokenView::Given(s@),
        Token::Stored(s)@ == TokenView::Stored(s@),
        Token::Generate@ == TokenView::Generate,
        resolved_view(Ok(Some(t))) == Ok::<Option<TokenView>, Seq<char>>(Some(t@)),
        resolved_view(Ok(None)) == Ok::<Option<TokenView>, Seq<char>>(None),
        resolved_view(Err(s)) == Err::<Option<TokenView>, Seq<char>>(s@),
{
}

/// A token file is left alone exactly where its mode has none of the last six
/// bits; else it is its owner's to read and write.
pub proof fn law_token_files_are_private(mode: u32, r: Option<u32>)
    requires
        call_ensures(repaired_mode, (mode,), r),
    ensures
        r is None <==> mode % 64 == 0,
        r matches Some(m) ==> m == 0o600,
{
    assert(mode & 0o077 == mode % 64) by (bit_vector);
}

// ---------------------------------------------------------------------------
// The log
// ---------------------------------------------------------------------------

/// Levels are known by their names, in capitals or not; another name means info.
pub proof fn law_levels_have_names(name: Seq<char>)
    ensures
        lowered(name) == "error"@ <==> level_of(name) == 0,
        lowered(name) == "warn"@ <==> level_of(name) == 1,
        lowered(name) == "debug"@ <==> level_of(name) == 3,
        lowered(name) != "error"@ && lowered(name) != "warn"@ && lowered(name) != "debug"@
            ==> level_of(name) == 2,
{
    reveal_strlit("error");
    reveal_strlit("warn");
    reveal_strlit("debug");
    assert("error"@.len() == 5 && "warn"@.len() == 4 && "debug"@.len() == 5);
    assert("error"@[0] == 'e' && "debug"@[0] == 'd');
}

/// A message is written exactly where its level is not above the log's, and
/// then as its time, its tag and its text with blanks for control characters.
pub proof fn law_messages_are_written(
    log: Log,
    level: u8,
    tag: Seq<char>,
    ts: u64,
    msg: Seq<char>,
    i: int,
    on: bool,
)
    requires
        call_ensures(enabled, (&log, level), on),
    ensures
        on <==> level <= log.level,
        level > log.level ==> written(log, level, tag, ts, msg) is None,
        level <= log.level ==> written(log, level, tag, ts, msg) == Some(
            decimal(ts as nat) + " "@ + tag + " "@ + sanitized(msg),
        ),
        sanitized(msg).len() == msg.len(),
        0 <= i < msg.len() && (msg[i] <= '\u{1f}' || '\u{7f}' <= msg[i] <= '\u{9f}') ==> sanitized(
            msg,
        )[i] == ' ',
        0 <= i < msg.len() && !(msg[i] <= '\u{1f}' || '\u{7f}' <= msg[i] <= '\u{9f}') ==> sanitized(
            msg,
        )[i] == msg[i],
{
}

/// The id of a request is its number in hexadecimal, with zeros before it up to
/// six digits.
pub proof fn law_request_ids_have_six_digits(n: nat, i: int)
    ensures
        ({
            let h = hexadecimal(n);
            &&& h.len() >= 6 ==> reqid_text(n) == h
            &&& h.len() < 6 ==> reqid_text(n).len() == 6 && reqid_text(n).skip(6 - h.len()) == h
            &&& 0 <= i < 6 - h.len() ==> reqid_text(n)[i] == '0'
        }),
{
    let h = hexadecimal(n);
    if h.len() < 6 {
        assert(reqid_text(n).skip(6 - h.len()) =~= h);
    }
}

// ---------------------------------------------------------------------------
// The output of terminals
// ---------------------------------------------------------------------------

/// Outside of a sequence a byte is kept exactly where it is a line feed, a tab,
/// a printable character or part of a longer one; other control bytes go, and
/// only the escape byte begins a sequence.
pub proof fn law_bytes_are_kept_or_dropped(raw: Seq<u8>, b: u8)
    requires
        place_after(raw) == Place::Normal,
    ensures
        b == 0x0a || b == 0x09 || 0x20 <= b <= 0x7e || b >= 0x80 ==> cleaned(raw.push(b))
            == cleaned(raw).push(b) && place_after(raw.push(b)) == Place::Normal,
        !(b == 0x0a || b == 0x09 || 0x20 <= b <= 0x7e || b >= 0x80) ==> cleaned(raw.push(b))
            == cleaned(raw),
        b != 0x1b ==> place_after(raw.push(b)) == Place::Normal,
        b == 0x1b ==> place_after(raw.push(b)) == Place::Esc,
        cleaned(Seq::empty()) == Seq::<u8>::empty(),
        place_after(Seq::empty()) == Place::Normal,
{
    assert(raw.push(b).drop_last() =~= raw);
}

/// An escape with any other byte behind it goes with that byte.
pub proof fn law_short_escapes_vanish(raw: Seq<u8>, b: u8)
    requires
        place_after(raw) == Place::Normal,
        b != 0x5b,
        b != 0x5d,
    ensures
        cleaned(raw.push(0x1b).push(b)) == cleaned(raw),
        place_after(raw.push(0x1b).push(b)) == Place::Normal,
{
    assert(raw.push(0x1b).drop_last() =~= raw);
    assert(raw.push(0x1b).push(b).drop_last() =~= raw.push(0x1b));
    assert(place_after(raw.push(0x1b)) == Place::Esc);
    assert(cleaned(raw.push(0x1b)) == cleaned(raw));
}

/// What follows a complete run of output is cleaned as if it came first.
pub proof fn law_cleaning_goes_on(a: Seq<u8>, b: Seq<u8>)
    requires
        place_after(a) == Place::Normal,
    ensures
        cleaned(a + b) == cleaned(a) + cleaned(b),
        place_after(a + b) == place_after(b),
    decreases b.len(),
{
    if b.len() == 0 {
        assert(a + b =~= a);
        assert(cleaned(a) + cleaned(b) =~= cleaned(a));
    } else {
        law_cleaning_goes_on(a, b.drop_last());
        assert((a + b).drop_last() =~= a + b.drop_last());
        assert(cleaned(a + b) =~= cleaned(a) + cleaned(b));
    }
}

/// Inside a sequence nothing is kept.
pub proof fn law_sequences_are_dropped(raw: Seq<u8>, b: u8)
    requires
        place_after(raw) != Place::Normal,
    ensures
        cleaned(raw.push(b)) == cleaned(raw),
        place_after(raw) == Place::Csi ==> (place_after(raw.push(b)) == Place::Normal <==> 0x40 <= b
            <= 0x7e),
        place_after(raw) == Place::Csi ==> (place_after(raw.push(b)) == Place::Csi <==> !(0x40 <= b
            <= 0x7e)),
        place_after(raw) == Place::Osc ==> (place_after(raw.push(b)) == Place::Normal <==> b
            == 0x07),
        place_after(raw) == Place::Osc ==> (place_after(raw.push(b)) == Place::Esc <==> b == 0x1b),
        place_after(raw) == Place::Esc ==> (place_after(raw.push(b)) == Place::Csi <==> b == 0x5b),
        place_after(raw) == Place::Esc ==> (place_after(raw.push(b)) == Place::Osc <==> b == 0x5d),
{
    assert(raw.push(b).drop_last() =~= raw);
}

// ---------------------------------------------------------------------------
// Models
// ---------------------------------------------------------------------------

/// A chain's name stands for its backends in order, a backend's for itself, and
/// a chain counts before a backend of the same name; every other name stands
/// for what the default chain's name does.
pub proof fn law_models_stand_for_backends(cfg: Config, model: Seq<char>)
    ensures
        cfg.chains@.dom().contains(model) ==> legs_for(cfg, model) == Some(
            views(cfg.chains@[model].order@),
        ) && legs_of(cfg, model) == legs_for(cfg, model),
        !cfg.chains@.dom().contains(model) && cfg.backends@.dom().contains(model) ==> legs_for(
            cfg,
            model,
        ) == Some(seq![model]) && legs_of(cfg, model) == legs_for(cfg, model),
        !cfg.chains@.dom().contains(model) && !cfg.backends@.dom().contains(model) ==> legs_of(
            cfg,
            model,
        ) is None && legs_for(cfg, model) == legs_for(cfg, cfg.server.default_chain@),
        no_default_text(cfg) == "default_chain '"@ + cfg.server.default_chain@
            + "' resolves to nothing"@,
        legs_for(cfg, cfg.server.default_chain@) is None ==> !cfg.chains@.dom().contains(
            cfg.server.default_chain@,
        ) && !cfg.backends@.dom().contains(cfg.server.default_chain@),
        !cfg.chains@.dom().contains(cfg.server.default_chain@) && !cfg.backends@.dom().contains(
            cfg.server.default_chain@,
        ) ==> legs_for(cfg, cfg.server.default_chain@) is None,
{
}

} // verus!
