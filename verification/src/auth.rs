//! Bearer-token authentication. The token is either the value of an
//! environment variable or kept in a token file, where it is generated once.

use vstd::prelude::*;

use crate::env::Env;
use crate::text::{
    has_prefix, hex_char, hex_digit, same, strip_prefix, trim, trimmed,
};

verus! {

/// Comparison that looks at every byte whatever it finds, so that how long it
/// takes says nothing of where two tokens differ.
pub fn ct_eq(a: &[u8], b: &[u8]) -> (r: bool)
    ensures
        r == (a@ == b@),
{
    if a.len() != b.len() {
        return false;
    }
    let mut diff: u8 = 0;
    let mut i: usize = 0;
    while i < a.len()
        invariant
            i <= a@.len(),
            a@.len() == b@.len(),
            diff == 0 <==> (forall|k: int| 0 <= k < i ==> a@[k] == b@[k]),
        decreases a@.len() - i,
    {
        let x: u8 = a[i];
        let y: u8 = b[i];
        proof {
            assert((diff | (x ^ y)) == 0 <==> (diff == 0 && x == y)) by (bit_vector);
        }
        diff = diff | (x ^ y);
        i = i + 1;
    }
    proof {
        if diff == 0 {
            assert(a@ =~= b@);
        }
    }
    diff == 0
}

/// The token that an `Authorization` header carries: what follows `Bearer `,
/// without white space around it.
pub open spec fn bearer_token(header: Option<Seq<char>>) -> Option<Seq<char>> {
    match header {
        Some(h) => if has_prefix(h, "Bearer "@) {
            Some(trim(h.skip("Bearer "@.len() as int)))
        } else {
            None
        },
        None => None,
    }
}

/// Whether an `Authorization` header carries the expected token.
pub fn check_bearer(header: Option<&str>, expected: &str) -> (r: bool)
    ensures
        r == (bearer_token(crate::text::opt_str_view(header)) == Some(expected@)),
{
    match header {
        Some(h) => match strip_prefix(h, "Bearer ") {
            Some(rest) => {
                let token = trimmed(rest.as_str());
                proof {
                    vstd::utf8::encode_utf8_decode_utf8(token@);
                    vstd::utf8::encode_utf8_decode_utf8(expected@);
                }
                ct_eq(token.as_str().as_bytes(), expected.as_bytes())
            },
            None => false,
        },
        None => false,
    }
}

/// The hexadecimal form of some bytes: two digits for each.
pub open spec fn hex_of(bytes: Seq<u8>) -> Seq<char> {
    Seq::new(
        2 * bytes.len(),
        |i: int|
            if i % 2 == 0 {
                hex_digit((bytes[i / 2] / 16) as nat)
            } else {
                hex_digit((bytes[i / 2] % 16) as nat)
            },
    )
}

/// The token that random bytes make.
pub fn token_hex(bytes: &[u8]) -> (r: String)
    ensures
        r@ == hex_of(bytes@),
{
    let mut out = String::new();
    let mut i: usize = 0;
    while i < bytes.len()
        invariant
            i <= bytes@.len(),
            out@ =~= hex_of(bytes@).take(2 * i),
        decreases bytes@.len() - i,
    {
        let b: u8 = bytes[i];
        out.push(hex_char(b / 16));
        out.push(hex_char(b % 16));
        i = i + 1;
    }
    proof {
        assert(hex_of(bytes@).take(2 * i) =~= hex_of(bytes@));
    }
    out
}

/// Different random bytes make different tokens, of two digits a byte.
pub proof fn law_token_hex_is_faithful(a: Seq<u8>, b: Seq<u8>)
    ensures
        hex_of(a).len() == 2 * a.len(),
        hex_of(a) == hex_of(b) ==> a == b,
{
    if hex_of(a) == hex_of(b) {
        assert(a.len() == b.len());
        assert forall|i: int| 0 <= i < a.len() implies a[i] == b[i] by {
            let x = hex_of(a);
            let y = hex_of(b);
            assert(x[2 * i] == y[2 * i] && x[2 * i + 1] == y[2 * i + 1]);
            assert((2 * i) / 2 == i && (2 * i + 1) / 2 == i);
            assert(hex_digit((a[i] / 16) as nat) == hex_digit((b[i] / 16) as nat));
            assert(hex_digit((a[i] % 16) as nat) == hex_digit((b[i] % 16) as nat));
        }
        assert(a =~= b);
    }
}

/// Where the token comes from when authentication is on.
pub enum Token {
    /// The value of the configured environment variable.
    Given(String),
    /// What the token file holds; the file is to be made private again.
    Stored(String),
    /// There is none yet: generate one and write it to the token file.
    Generate,
}

/// A token's source as a value of the model.
pub ghost enum TokenView {
    Given(Seq<char>),
    Stored(Seq<char>),
    Generate,
}

impl View for Token {
    type V = TokenView;

    open spec fn view(&self) -> TokenView {
        match self {
            Token::Given(s) => TokenView::Given(s@),
            Token::Stored(s) => TokenView::Stored(s@),
            Token::Generate => TokenView::Generate,
        }
    }
}

/// The complaint about an environment variable that is to hold the token and
/// does not.
pub open spec fn missing_token_text(name: Seq<char>, token_file: Seq<char>) -> Seq<char> {
    "auth is on and auth_token_env = \""@ + name + "\", but $"@ + name
        + " is empty or unset — export it before starting, or remove auth_token_env to use the "@
        + token_file + " file"@
}

/// The token's source: none with authentication off; the environment variable
/// where one is configured, whatever the file holds; else the token file where
/// it holds more than white space; else a new token.
pub open spec fn token_source(
    auth: bool,
    token_env: Option<Seq<char>>,
    env: Map<Seq<char>, Seq<char>>,
    token_file: Seq<char>,
    existing: Option<Seq<char>>,
) -> Result<Option<TokenView>, Seq<char>> {
    if !auth {
        Ok(None)
    } else if token_env is Some {
        let name = token_env->0;
        if env.dom().contains(name) && trim(env[name]).len() > 0 {
            Ok(Some(TokenView::Given(trim(env[name]))))
        } else {
            Err(missing_token_text(name, token_file))
        }
    } else if existing is Some && trim(existing->0).len() > 0 {
        Ok(Some(TokenView::Stored(trim(existing->0))))
    } else {
        Ok(Some(TokenView::Generate))
    }
}

/// A decision on the token as a value of the model.
pub open spec fn resolved_view(
    r: Result<Option<Token>, String>,
) -> Result<Option<TokenView>, Seq<char>> {
    match r {
        Ok(Some(t)) => Ok(Some(t@)),
        Ok(None) => Ok(None),
        Err(e) => Err(e@),
    }
}

/// Decides where the token comes from. `existing` is what the token file
/// holds, where it can be read. `Ok(None)` means that authentication is off.
pub fn resolve(
    auth: bool,
    token_env: Option<&str>,
    env: &Env,
    token_file: &str,
    existing: Option<&str>,
) -> (r: Result<Option<Token>, String>)
    ensures
        resolved_view(r) == token_source(
            auth,
            crate::text::opt_str_view(token_env),
            env@,
            token_file@,
            crate::text::opt_str_view(existing),
        ),
{
    if !auth {
        return Ok(None);
    }
    if let Some(name) = token_env {
        if let Some(v) = env.get(name) {
            let t = trimmed(v);
            if !same(t.as_str(), "") {
                proof {
                    reveal_strlit("");
                    assert(t@ != Seq::<char>::empty() ==> t@.len() > 0) by {
                        if t@.len() == 0 {
                            assert(t@ =~= Seq::<char>::empty());
                        }
                    }
                    assert(""@ =~= Seq::<char>::empty());
                }
                return Ok(Some(Token::Given(t)));
            }
            proof {
                reveal_strlit("");
            }
        }
        let msg = "auth is on and auth_token_env = \"".to_owned().concat(name).concat(
            "\", but $",
        ).concat(name).concat(
            " is empty or unset — export it before starting, or remove auth_token_env to use the ",
        ).concat(token_file).concat(" file");
        return Err(msg);
    }
    if let Some(text) = existing {
        let t = trimmed(text);
        proof {
            reveal_strlit("");
            if t@.len() == 0 {
                assert(t@ =~= ""@);
            }
        }
        if !same(t.as_str(), "") {
            return Ok(Some(Token::Stored(t)));
        }
    }
    Ok(Some(Token::Generate))
}

/// The mode that a token file is given, where others than its owner can do
/// anything with it; `None` where its mode is private already.
pub fn repaired_mode(mode: u32) -> (r: Option<u32>)
    ensures
        r == if mode & 0o077 != 0 {
            Some(0o600u32)
        } else {
            None
        },
{
    if mode & 0o077 != 0 {
        Some(0o600)
    } else {
        None
    }
}

/// What is said once a token has been generated.
pub fn generated_message(token_file: &str) -> (r: String)
    ensures
        r@ == "auth enabled: generated token at "@ + token_file@
            + " (mode 0600) — clients send `Authorization: Bearer $(cat "@ + token_file@ + ")`"@,
{
    "auth enabled: generated token at ".to_owned().concat(token_file).concat(
        " (mode 0600) — clients send `Authorization: Bearer $(cat ",
    ).concat(token_file).concat(")`")
}

/// A token that came from a file or a variable, sent back as `Bearer` token,
/// is accepted.
pub proof fn law_resolved_token_is_accepted(
    token_env: Option<Seq<char>>,
    env: Map<Seq<char>, Seq<char>>,
    token_file: Seq<char>,
    existing: Option<Seq<char>>,
    token: Seq<char>,
)
    requires
        ({
            let source = token_source(true, token_env, env, token_file, existing);
            source == Ok::<_, Seq<char>>(Some(TokenView::Given(token))) || source == Ok::<
                _,
                Seq<char>,
            >(Some(TokenView::Stored(token)))
        }),
    ensures
        bearer_token(Some("Bearer "@ + token)) == Some(token),
{
    let h = "Bearer "@ + token;
    assert(h.take("Bearer "@.len() as int) =~= "Bearer "@);
    assert(h.skip("Bearer "@.len() as int) =~= token);
    let raw = if token_env is Some {
        env[token_env->0]
    } else {
        existing->0
    };
    crate::text::lemma_trim_idempotent(raw);
}

} // verus!
