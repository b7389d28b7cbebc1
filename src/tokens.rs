//! The values that the macro front end hands over: the tokens of a macro
//! call, read as literal text or as something else.
use vstd::prelude::*;
use vstd::slice::{slice_to_vec, slice_subrange};
use crate::codec::{cipher_of, encrypt_string};
use crate::session::{KeySource, KeyError, acquired};

verus! {

/// The byte of `"`.
pub const QUOTE: u8 = 34;

/// The text `<unknown>`, which stands for a token that is not a literal.
pub const UNKNOWN_TOKEN: [u8; 9] = [60, 117, 110, 107, 110, 111, 119, 110, 62];

/// The text `unknown`, which stands for an environment value that is not set.
pub const UNKNOWN_VALUE: [u8; 7] = [117, 110, 107, 110, 111, 119, 110];

/// One token of a macro call.
pub enum Token {
    /// A literal, as the text it is written with (quotes, prefix and
    /// suffix included).
    Literal(Vec<u8>),
    /// Anything else.
    Other,
}

/// Why a macro call could not be turned into cipher bytes.
#[derive(Clone, Copy, Debug, PartialEq, Eq, Structural)]
pub enum MacroError {
    /// No secret key could be had.
    Key(KeyError),
    /// A literal token has no text between quotes to take.
    MalformedLiteral,
}

/// Index of the first `"` of `s` at or after `i`, or `s.len()` if none.
pub open spec fn first_quote_from(s: Seq<u8>, i: int) -> int
    decreases s.len() - i,
{
    if i >= s.len() {
        s.len() as int
    } else if s[i] == QUOTE {
        i
    } else {
        first_quote_from(s, i + 1)
    }
}

/// Index of the last `"` of `s` before `j`, or -1 if none.
pub open spec fn last_quote_before(s: Seq<u8>, j: int) -> int
    decreases j,
{
    if j <= 0 {
        -1
    } else if s[j - 1] == QUOTE {
        j - 1
    } else {
        last_quote_before(s, j - 1)
    }
}

/// The text of a literal: what stands between its first and its last `"`;
/// without any `"`, all but its first and last bytes. `None` when a single
/// `"` is all there is, or when a literal without quotes is shorter than
/// two bytes.
pub open spec fn literal_body_of(s: Seq<u8>) -> Option<Seq<u8>> {
    let f = first_quote_from(s, 0);
    let l = last_quote_before(s, s.len() as int);
    if f < s.len() {
        if f < l {
            Some(s.subrange(f + 1, l))
        } else {
            None
        }
    } else if s.len() >= 2 {
        Some(s.subrange(1, s.len() - 1))
    } else {
        None
    }
}

/// The text that one token stands for.
pub open spec fn token_text(t: Token) -> Option<Seq<u8>> {
    match t {
        Token::Literal(b) => literal_body_of(b@),
        Token::Other => Some(UNKNOWN_TOKEN@),
    }
}

/// The text of a macro call: that of its last token, empty without tokens;
/// `None` as soon as one literal token is malformed.
pub open spec fn tokens_text(ts: Seq<Token>) -> Option<Seq<u8>>
    decreases ts.len(),
{
    if ts.len() == 0 {
        Some(Seq::empty())
    } else {
        match tokens_text(ts.drop_last()) {
            None => None,
            Some(_) => token_text(ts.last()),
        }
    }
}

/// The raw text of the last token (`<unknown>` for one that is not a
/// literal), empty without tokens.
pub open spec fn last_token_raw(ts: Seq<Token>) -> Seq<u8> {
    if ts.len() == 0 {
        Seq::empty()
    } else {
        match ts.last() {
            Token::Literal(b) => b@,
            Token::Other => UNKNOWN_TOKEN@,
        }
    }
}

/// The name of the environment value that a macro call asks for: the raw
/// text of its last token without its first and last bytes; `None` when
/// that text is shorter than two bytes.
pub open spec fn env_name_of(ts: Seq<Token>) -> Option<Seq<u8>> {
    let raw = last_token_raw(ts);
    if raw.len() >= 2 {
        Some(raw.subrange(1, raw.len() - 1))
    } else {
        None
    }
}

/// `value` if there is one, else `default`.
pub open spec fn text_or(value: Option<Vec<u8>>, default: Seq<u8>) -> Seq<u8> {
    match value {
        Some(v) => v@,
        None => default,
    }
}

fn first_quote(s: &[u8]) -> (r: usize)
    ensures
        r == first_quote_from(s@, 0),
{
    let mut i: usize = 0;
    while i < s.len()
        invariant
            i <= s@.len(),
            first_quote_from(s@, i as int) == first_quote_from(s@, 0),
        decreases s@.len() - i,
    {
        if s[i] == QUOTE {
            return i;
        }
        i += 1;
    }
    s.len()
}

fn last_quote(s: &[u8]) -> (r: Option<usize>)
    ensures
        match r {
            Some(p) => p == last_quote_before(s@, s@.len() as int),
            None => last_quote_before(s@, s@.len() as int) == -1,
        },
        r matches Some(p) ==> p < s@.len(),
{
    let mut j: usize = s.len();
    while j > 0
        invariant
            j <= s@.len(),
            last_quote_before(s@, j as int) == last_quote_before(s@, s@.len() as int),
        decreases j,
    {
        if s[j - 1] == QUOTE {
            return Some(j - 1);
        }
        j -= 1;
    }
    None
}

/// The text of one literal token; `None` when it is malformed.
pub fn literal_body(lit: &[u8]) -> (r: Option<Vec<u8>>)
    ensures
        match r {
            Some(b) => literal_body_of(lit@) == Some(b@),
            None => literal_body_of(lit@) is None,
        },
{
    let f = first_quote(lit);
    let l = last_quote(lit);
    if f < lit.len() {
        match l {
            Some(l) => {
                if f < l {
                    Some(slice_to_vec(slice_subrange(lit, f + 1, l)))
                } else {
                    None
                }
            },
            None => None,
        }
    } else if lit.len() >= 2 {
        Some(slice_to_vec(slice_subrange(lit, 1, lit.len() - 1)))
    } else {
        None
    }
}

proof fn lemma_malformed_stays(ts: Seq<Token>, k: int)
    requires
        0 <= k <= ts.len(),
        tokens_text(ts.subrange(0, k)) is None,
    ensures
        tokens_text(ts) is None,
    decreases ts.len() - k,
{
    if k < ts.len() {
        assert(ts.subrange(0, k + 1).drop_last() =~= ts.subrange(0, k));
        lemma_malformed_stays(ts, k + 1);
    } else {
        assert(ts.subrange(0, k) =~= ts);
    }
}

/// The text of a macro call's tokens: that of the last one; `None` when a
/// literal token is malformed.
pub fn call_text(tokens: &Vec<Token>) -> (r: Option<Vec<u8>>)
    ensures
        match r {
            Some(t) => tokens_text(tokens@) == Some(t@),
            None => tokens_text(tokens@) is None,
        },
{
    let mut text: Vec<u8> = Vec::new();
    let mut i: usize = 0;
    proof {
        assert(tokens@.subrange(0, 0) =~= Seq::<Token>::empty());
    }
    while i < tokens.len()
        invariant
            i <= tokens@.len(),
            tokens_text(tokens@.subrange(0, i as int)) == Some(text@),
        decreases tokens@.len() - i,
    {
        assert(tokens@.subrange(0, i + 1).drop_last() =~= tokens@.subrange(0, i as int));
        match &tokens[i] {
            Token::Literal(b) => {
                match literal_body(b.as_slice()) {
                    Some(t) => {
                        text = t;
                    },
                    None => {
                        proof {
                            lemma_malformed_stays(tokens@, i + 1);
                        }
                        return None;
                    },
                }
            },
            Token::Other => {
                text = slice_to_vec(&UNKNOWN_TOKEN);
            },
        }
        i += 1;
    }
    assert(tokens@.subrange(0, i as int) =~= tokens@);
    Some(text)
}

/// The cipher bytes of the literal of a macro call, under the session's
/// key. A malformed literal is reported before any key is drawn.
pub fn lc(session: &mut KeySource, tokens: &Vec<Token>) -> (r: Result<Vec<u8>, MacroError>)
    ensures
        match tokens_text(tokens@) {
            None => r == Err::<Vec<u8>, MacroError>(MacroError::MalformedLiteral) && final(session)@
                == old(session)@,
            Some(t) => {
                &&& acquired(old(session)@, final(session)@)
                &&& (r is Ok <==> final(session)@.key() is Some)
                &&& (r matches Ok(c) ==> c@ == cipher_of(t, final(session)@.key().unwrap()))
                &&& (r is Err ==> r == Err::<Vec<u8>, MacroError>(
                    MacroError::Key(KeyError::RandomUnavailable),
                ))
            },
        },
{
    match call_text(tokens) {
        None => Err(MacroError::MalformedLiteral),
        Some(text) => match encrypt_string(session, text.as_slice()) {
            Ok(c) => Ok(c),
            Err(e) => Err(MacroError::Key(e)),
        },
    }
}

/// The name of the environment value that a macro call's tokens ask for;
/// `None` when the last token's text is too short to hold one.
pub fn env_var_name(tokens: &Vec<Token>) -> (r: Option<Vec<u8>>)
    ensures
        match r {
            Some(n) => env_name_of(tokens@) == Some(n@),
            None => env_name_of(tokens@) is None,
        },
{
    let raw: Vec<u8> = if tokens.len() == 0 {
        Vec::new()
    } else {
        match &tokens[tokens.len() - 1] {
            Token::Literal(b) => slice_to_vec(b.as_slice()),
            Token::Other => slice_to_vec(&UNKNOWN_TOKEN),
        }
    };
    if raw.len() >= 2 {
        Some(slice_to_vec(slice_subrange(raw.as_slice(), 1, raw.len() - 1)))
    } else {
        None
    }
}

/// The cipher bytes of an environment value read at build time, or of
/// `unknown` when it is not set.
pub fn lc_env(session: &mut KeySource, value: Option<Vec<u8>>) -> (r: Result<Vec<u8>, KeyError>)
    ensures
        acquired(old(session)@, final(session)@),
        r is Ok <==> final(session)@.key() is Some,
        r matches Ok(c) ==> c@ == cipher_of(
            text_or(value, UNKNOWN_VALUE@),
            final(session)@.key().unwrap(),
        ),
{
    let text = match value {
        Some(v) => v,
        None => slice_to_vec(&UNKNOWN_VALUE),
    };
    encrypt_string(session, text.as_slice())
}

/// The cipher bytes of a string value computed at build time, or of
/// `<unknown>` when the expression is not a string literal.
pub fn lc_dynamic(session: &mut KeySource, value: Option<Vec<u8>>) -> (r: Result<Vec<u8>, KeyError>)
    ensures
        acquired(old(session)@, final(session)@),
        r is Ok <==> final(session)@.key() is Some,
        r matches Ok(c) ==> c@ == cipher_of(
            text_or(value, UNKNOWN_TOKEN@),
            final(session)@.key().unwrap(),
        ),
{
    let text = match value {
        Some(v) => v,
        None => slice_to_vec(&UNKNOWN_TOKEN),
    };
    encrypt_string(session, text.as_slice())
}

} // verus!
