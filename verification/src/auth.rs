//! Token authentication: the random token a server is started with, how a
//! request carries it (an `Authorization: Bearer` header or a `token` query
//! parameter), and which requests pass.
use vstd::prelude::*;
use base64::Engine;
use crate::text::{chars_of, has_prefix, push_char, str_eq, string_from_range};

verus! {

// ---------------------------------------------------------------------------
// Base64 and the token
// ---------------------------------------------------------------------------

/// The character for the 6-bit value `k` in the standard base64 alphabet.
pub open spec fn b64_char(k: int) -> char {
    if k < 26 {
        (65 + k) as char
    } else if k < 52 {
        (97 + (k - 26)) as char
    } else if k < 62 {
        (48 + (k - 52)) as char
    } else if k == 62 {
        '+'
    } else {
        '/'
    }
}

/// Standard base64 with `=` padding (RFC 4648, section 4).
pub open spec fn base64(s: Seq<u8>) -> Seq<char>
    decreases s.len(),
{
    if s.len() >= 3 {
        let a = s[0] as int;
        let b = s[1] as int;
        let c = s[2] as int;
        seq![
            b64_char(a / 4),
            b64_char((a % 4) * 16 + b / 16),
            b64_char((b % 16) * 4 + c / 64),
            b64_char(c % 64),
        ] + base64(s.skip(3))
    } else if s.len() == 2 {
        let a = s[0] as int;
        let b = s[1] as int;
        seq![b64_char(a / 4), b64_char((a % 4) * 16 + b / 16), b64_char((b % 16) * 4), '=']
    } else if s.len() == 1 {
        let a = s[0] as int;
        seq![b64_char(a / 4), b64_char((a % 4) * 16), '=', '=']
    } else {
        Seq::empty()
    }
}

/// `base64::engine::general_purpose::STANDARD.encode`: standard alphabet,
/// padded. The contract states the encoding as RFC 4648 defines it, which is
/// what the crate documents for this engine; `requires` leaves out inputs so
/// long that the encoded length would overflow (the crate panics there).
#[verifier::external_body]
fn base64_encode(bytes: &[u8]) -> (s: String)
    requires
        bytes@.len() <= usize::MAX / 2,
    ensures
        s@ == base64(bytes@),
{
    base64::engine::general_purpose::STANDARD.encode(bytes)
}

/// `rand::random::<u8>()`: a byte from the thread-local generator. Nothing
/// is stated of which byte.
#[verifier::external_body]
fn random_byte() -> u8 {
    rand::random::<u8>()
}

/// `s` with `+`, `/` and `=` each replaced by `_`.
pub open spec fn url_safe(s: Seq<char>) -> Seq<char> {
    Seq::new(s.len(), |i: int| if s[i] == '+' || s[i] == '/' || s[i] == '=' { '_' } else { s[i] })
}

/// A character that may appear in a token: ASCII letters, digits and `_`.
pub open spec fn is_token_char(c: char) -> bool {
    ('A' <= c && c <= 'Z') || ('a' <= c && c <= 'z') || ('0' <= c && c <= '9') || c == '_'
}

/// Number of random bytes in a token.
pub const TOKEN_BYTES: usize = 16;

/// The token made from random bytes `b`.
pub open spec fn token_from(b: Seq<u8>) -> Seq<char> {
    url_safe(base64(b))
}

proof fn lemma_base64_shape(s: Seq<u8>)
    ensures
        base64(s).len() == 4 * ((s.len() + 2) / 3),
        forall|i: int|
            0 <= i < base64(s).len() ==> (#[trigger] base64(s)[i] == '=' || exists|k: int|
                0 <= k < 64 && base64(s)[i] == b64_char(k)),
    decreases s.len(),
{
    if s.len() >= 3 {
        lemma_base64_shape(s.skip(3));
        let a = s[0] as int;
        let b = s[1] as int;
        let c = s[2] as int;
        let head = seq![
            b64_char(a / 4),
            b64_char((a % 4) * 16 + b / 16),
            b64_char((b % 16) * 4 + c / 64),
            b64_char(c % 64),
        ];
        assert forall|i: int| 0 <= i < base64(s).len() implies (#[trigger] base64(s)[i] == '='
            || exists|k: int| 0 <= k < 64 && base64(s)[i] == b64_char(k)) by {
            if i < 4 {
                if i == 0 {
                    assert(base64(s)[i] == b64_char(a / 4));
                } else if i == 1 {
                    assert(base64(s)[i] == b64_char((a % 4) * 16 + b / 16));
                } else if i == 2 {
                    assert(base64(s)[i] == b64_char((b % 16) * 4 + c / 64));
                } else {
                    assert(base64(s)[i] == b64_char(c % 64));
                }
            } else {
                assert(base64(s)[i] == base64(s.skip(3))[i - 4]);
            }
        }
    } else if s.len() == 2 {
        let a = s[0] as int;
        let b = s[1] as int;
        assert(base64(s)[0] == b64_char(a / 4));
        assert(base64(s)[1] == b64_char((a % 4) * 16 + b / 16));
        assert(base64(s)[2] == b64_char((b % 16) * 4));
    } else if s.len() == 1 {
        let a = s[0] as int;
        assert(base64(s)[0] == b64_char(a / 4));
        assert(base64(s)[1] == b64_char((a % 4) * 16));
    }
}

proof fn lemma_b64_char_token(k: int)
    requires
        0 <= k < 64,
    ensures
        is_token_char(b64_char(k)) || b64_char(k) == '+' || b64_char(k) == '/',
{
    if k < 26 {
        assert(((65 + k) as char) as u32 == 65 + k);
    } else if k < 52 {
        assert(((97 + (k - 26)) as char) as u32 == 97 + (k - 26));
    } else if k < 62 {
        assert(((48 + (k - 52)) as char) as u32 == 48 + (k - 52));
    }
}

/// Every token is 24 characters long and made of ASCII letters, digits and
/// `_` only, so it can stand in a URL unescaped.
pub proof fn lemma_token_is_url_safe(b: Seq<u8>)
    requires
        b.len() == TOKEN_BYTES,
    ensures
        token_from(b).len() == 24,
        forall|i: int| 0 <= i < 24 ==> is_token_char(#[trigger] token_from(b)[i]),
{
    lemma_base64_shape(b);
    assert forall|i: int| 0 <= i < 24 implies is_token_char(#[trigger] token_from(b)[i]) by {
        let c = base64(b)[i];
        if c != '=' {
            let k = choose|k: int| 0 <= k < 64 && c == b64_char(k);
            lemma_b64_char_token(k);
        }
    }
}

/// The server's authentication state: the token that requests must carry.
pub struct AuthState {
    token: String,
}

impl View for AuthState {
    type V = Seq<char>;

    closed spec fn view(&self) -> Seq<char> {
        self.token@
    }
}

/// `+`, `/` and `=` replaced by `_` in a string.
fn make_url_safe(s: &str) -> (r: String)
    ensures
        r@ == url_safe(s@),
{
    let v = chars_of(s);
    let mut r = String::new();
    for i in 0..v.len()
        invariant
            v@ == s@,
            r@ == url_safe(s@).take(i as int),
    {
        let c = v[i];
        let d = if c == '+' || c == '/' || c == '=' {
            '_'
        } else {
            c
        };
        push_char(&mut r, d);
        assert(r@ =~= url_safe(s@).take(i + 1));
    }
    assert(r@ =~= url_safe(s@));
    r
}

impl AuthState {
    /// A fresh state: 16 random bytes, base64-encoded, with `+`, `/` and `=`
    /// made `_` so that the token can stand in a URL.
    pub fn new() -> (a: Self)
        ensures
            exists|b: Seq<u8>| b.len() == TOKEN_BYTES && a@ == token_from(b),
    {
        let mut bytes: Vec<u8> = Vec::new();
        for _i in 0..TOKEN_BYTES
            invariant
                bytes@.len() == _i,
        {
            bytes.push(random_byte());
        }
        Self::from_bytes(bytes.as_slice())
    }

    /// The state whose token is made from `bytes`: base64-encoded, with `+`,
    /// `/` and `=` made `_`.
    pub fn from_bytes(bytes: &[u8]) -> (a: Self)
        requires
            bytes@.len() == TOKEN_BYTES,
        ensures
            a@ == token_from(bytes@),
    {
        let encoded = base64_encode(bytes);
        let token = make_url_safe(encoded.as_str());
        AuthState { token }
    }

    /// The token.
    pub fn token(&self) -> (t: &str)
        ensures
            t@ == self@,
    {
        self.token.as_str()
    }

    /// Whether `token` is the server's token.
    pub fn validate(&self, token: &str) -> (r: bool)
        ensures
            r == (token@ == self@),
    {
        str_eq(self.token.as_str(), token)
    }

    /// Whether a request passes authentication: the health check always
    /// does; any other request must carry the server's token.
    pub fn admits(&self, path: &str, auth_header: Option<&str>, query: Option<&str>) -> (r: bool)
        ensures
            r == request_admitted(
                self@,
                path@,
                match auth_header {
                    Some(h) => Some(h@),
                    None => None,
                },
                match query {
                    Some(q) => Some(q@),
                    None => None,
                },
            ),
    {
        if str_eq(path, "/api/health") {
            return true;
        }
        match extract_token(auth_header, query) {
            None => false,
            Some(t) => self.validate(t.as_str()),
        }
    }
}

// ---------------------------------------------------------------------------
// Finding the token in a request
// ---------------------------------------------------------------------------

/// Position of the first `c` in `s`, or `s.len()` when there is none.
pub open spec fn char_pos(s: Seq<char>, c: char) -> nat
    decreases s.len(),
{
    if s.len() == 0 {
        0
    } else if s[0] == c {
        0
    } else {
        1 + char_pos(s.drop_first(), c)
    }
}

/// The value of the first `token=` pair of a query string: the query is
/// split at `&`, each part at its first `=`.
pub open spec fn query_token(q: Seq<char>) -> Option<Seq<char>>
    decreases q.len(),
{
    let amp = char_pos(q, '&') as int;
    let seg = q.take(amp);
    let eq = char_pos(seg, '=') as int;
    if eq < seg.len() && seg.take(eq) == "token"@ {
        Some(seg.skip(eq + 1))
    } else if amp < q.len() {
        query_token(q.skip(amp + 1))
    } else {
        None
    }
}

/// The token a request carries: an `Authorization` header of the form
/// `Bearer <token>` is taken first; otherwise the query's `token` parameter.
pub open spec fn carried_token(header: Option<Seq<char>>, query: Option<Seq<char>>) -> Option<Seq<char>> {
    match header {
        Some(h) if has_prefix(h, "Bearer "@) => Some(h.skip("Bearer "@.len() as int)),
        _ => match query {
            Some(q) => query_token(q),
            None => None,
        },
    }
}

/// A request for `path` passes: the health check, or a request that carries
/// the server's token.
pub open spec fn request_admitted(
    token: Seq<char>,
    path: Seq<char>,
    header: Option<Seq<char>>,
    query: Option<Seq<char>>,
) -> bool {
    path == "/api/health"@ || carried_token(header, query) == Some(token)
}

proof fn lemma_char_pos(s: Seq<char>, c: char)
    ensures
        char_pos(s, c) <= s.len(),
        char_pos(s, c) < s.len() ==> s[char_pos(s, c) as int] == c,
        forall|i: int| 0 <= i < char_pos(s, c) ==> s[i] != c,
    decreases s.len(),
{
    if s.len() > 0 && s[0] != c {
        lemma_char_pos(s.drop_first(), c);
        assert forall|i: int| 0 <= i < char_pos(s, c) implies s[i] != c by {
            if i > 0 {
                assert(s[i] == s.drop_first()[i - 1]);
            }
        }
    }
}

/// The first position `>= from` and `< to` of `c` in `v`, or `to`.
fn find_char(v: &Vec<char>, from: usize, to: usize, c: char) -> (r: usize)
    requires
        from <= to <= v@.len(),
    ensures
        r == from + char_pos(v@.subrange(from as int, to as int), c),
{
    let mut j = from;
    while j < to && v[j] != c
        invariant
            from <= j <= to <= v@.len(),
            char_pos(v@.subrange(from as int, to as int), c) == (j - from) + char_pos(
                v@.subrange(j as int, to as int),
                c,
            ),
        decreases to - j,
    {
        assert(v@.subrange(j as int, to as int).drop_first() =~= v@.subrange(j + 1, to as int));
        j = j + 1;
    }
    j
}

/// The value of the query's first `token` parameter.
pub fn query_token_of(q: &str) -> (r: Option<String>)
    ensures
        match r {
            Some(t) => query_token(q@) == Some(t@),
            None => query_token(q@) == None::<Seq<char>>,
        },
{
    let v = chars_of(q);
    let n = v.len();
    let mut pos: usize = 0;
    assert(v@.skip(0) =~= v@);
    while pos <= n
        invariant
            v@ == q@,
            n == v@.len(),
            pos <= n,
            query_token(q@) == query_token(v@.skip(pos as int)),
        decreases n - pos,
    {
        let ghost rest = v@.skip(pos as int);
        let amp = find_char(&v, pos, n, '&');
        assert(v@.subrange(pos as int, n as int) =~= rest);
        proof {
            lemma_char_pos(rest, '&');
        }
        let eq = find_char(&v, pos, amp, '=');
        let ghost seg = rest.take(amp - pos);
        assert(v@.subrange(pos as int, amp as int) =~= seg);
        proof {
            lemma_char_pos(seg, '=');
        }
        if eq < amp {
            let key = string_from_range(v.as_slice(), pos, eq);
            assert(key@ =~= seg.take(eq - pos));
            if str_eq(key.as_str(), "token") {
                let value = string_from_range(v.as_slice(), eq + 1, amp);
                assert(value@ =~= seg.skip(eq - pos + 1));
                return Some(value);
            }
        }
        if amp >= n {
            return None;
        }
        assert(rest.skip(amp - pos + 1) =~= v@.skip(amp + 1));
        pos = amp + 1;
    }
    None
}

/// What the server hands out is what it lets in: a request that carries an
/// issued token, as `Bearer <token>` or as the query `token=<token>`, is
/// admitted, whatever its path.
pub proof fn lemma_issued_token_admitted(b: Seq<u8>, path: Seq<char>)
    requires
        b.len() == TOKEN_BYTES,
    ensures
        request_admitted(token_from(b), path, Some("Bearer "@ + token_from(b)), None),
        request_admitted(token_from(b), path, None, Some("token="@ + token_from(b))),
{
    let t = token_from(b);
    lemma_token_is_url_safe(b);
    reveal_strlit("Bearer ");
    reveal_strlit("token=");
    reveal_strlit("token");
    let h = "Bearer "@ + t;
    assert(h.take(7) =~= "Bearer "@);
    assert(h.skip(7) =~= t);
    let q = "token="@ + t;
    lemma_char_pos(q, '&');
    assert forall|i: int| 0 <= i < q.len() implies q[i] != '&' by {
        if i >= 6 {
            assert(q[i] == t[i - 6]);
            assert(is_token_char(t[i - 6]));
        }
    }
    assert(char_pos(q, '&') == q.len());
    assert(q.take(q.len() as int) =~= q);
    lemma_char_pos(q, '=');
    assert(q[5] == '=');
    assert(char_pos(q, '=') == 5);
    assert(q.take(5) =~= "token"@);
    assert(q.skip(6) =~= t);
}

/// Every request but the health check needs the server's token: one that
/// carries no token, or another token, is refused.
pub proof fn lemma_only_token_admits(
    token: Seq<char>,
    path: Seq<char>,
    header: Option<Seq<char>>,
    query: Option<Seq<char>>,
)
    requires
        path != "/api/health"@,
        carried_token(header, query) != Some(token),
    ensures
        !request_admitted(token, path, header, query),
{
}

/// Without a `Bearer` header, a query that begins with the pair
/// `token=<v>` carries `v`, whatever parameters follow it (`v` ends at the
/// first `&`).
pub proof fn lemma_leading_token_pair(v: Seq<char>, rest: Seq<char>, header: Option<Seq<char>>)
    requires
        forall|i: int| 0 <= i < v.len() ==> v[i] != '&',
        !(header matches Some(h) && has_prefix(h, "Bearer "@)),
    ensures
        carried_token(header, Some("token="@ + v + "&"@ + rest)) == Some(v),
        carried_token(header, Some("token="@ + v)) == Some(v),
{
    reveal_strlit("token=");
    reveal_strlit("token");
    reveal_strlit("&");
    let q1 = "token="@ + v + "&"@ + rest;
    let q2 = "token="@ + v;
    let n: int = 6 + v.len() as int;
    lemma_char_pos(q1, '&');
    assert forall|i: int| 0 <= i < n implies q1[i] != '&' by {
        if i >= 6 {
            assert(q1[i] == v[i - 6]);
        }
    }
    assert(q1[n] == '&');
    assert(char_pos(q1, '&') == n);
    assert(q1.take(n) =~= q2);
    lemma_char_pos(q2, '&');
    assert forall|i: int| 0 <= i < q2.len() implies q2[i] != '&' by {
        if i >= 6 {
            assert(q2[i] == v[i - 6]);
        }
    }
    assert(char_pos(q2, '&') == q2.len());
    assert(q2.take(q2.len() as int) =~= q2);
    lemma_char_pos(q2, '=');
    assert(q2[5] == '=');
    assert(char_pos(q2, '=') == 5);
    assert(q2.take(5) =~= "token"@);
    assert(q2.skip(6) =~= v);
}

/// Without a `Bearer` header, a first pair whose key is not `token` is
/// passed over: the query carries what the rest of it carries, so the token
/// pair counts wherever it stands.
pub proof fn lemma_other_pairs_passed_over(p: Seq<char>, rest: Seq<char>, header: Option<Seq<char>>)
    requires
        forall|i: int| 0 <= i < p.len() ==> p[i] != '&',
        !(char_pos(p, '=') < p.len() && p.take(char_pos(p, '=') as int) == "token"@),
        !(header matches Some(h) && has_prefix(h, "Bearer "@)),
    ensures
        carried_token(header, Some(p + "&"@ + rest)) == carried_token(header, Some(rest)),
{
    reveal_strlit("&");
    let q = p + "&"@ + rest;
    lemma_char_pos(q, '&');
    assert forall|i: int| 0 <= i < p.len() implies q[i] != '&' by {
        assert(q[i] == p[i]);
    }
    assert(q[p.len() as int] == '&');
    assert(char_pos(q, '&') == p.len());
    assert(q.take(p.len() as int) =~= p);
    assert(q.skip(p.len() as int + 1) =~= rest);
}

/// The token a request carries (see `carried_token`).
pub fn extract_token(auth_header: Option<&str>, query: Option<&str>) -> (r: Option<String>)
    ensures
        match r {
            Some(t) => carried_token(
                match auth_header {
                    Some(h) => Some(h@),
                    None => None,
                },
                match query {
                    Some(q) => Some(q@),
                    None => None,
                },
            ) == Some(t@),
            None => carried_token(
                match auth_header {
                    Some(h) => Some(h@),
                    None => None,
                },
                match query {
                    Some(q) => Some(q@),
                    None => None,
                },
            ) == None::<Seq<char>>,
        },
{
    match auth_header {
        Some(h) => {
            if crate::text::starts_with(h, "Bearer ") {
                let v = chars_of(h);
                let p = chars_of("Bearer ");
                return Some(string_from_range(v.as_slice(), p.len(), v.len()));
            }
        },
        None => {},
    }
    match query {
        Some(q) => query_token_of(q),
        None => None,
    }
}

} // verus!
