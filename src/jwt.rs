//! The payload of a compact JWT, decoded without checking its signature: the token is
//! only read for display, never trusted for a decision.

use vstd::prelude::*;
use crate::json::{json_accepts, json_int, json_int_at, json_is_document, json_text, json_text_at};
use crate::model::CodexAuthFile;
use crate::text::{chars_of, string_of};

verus! {

/// Why a token could not be read.
#[derive(PartialEq, Eq, Structural, Clone, Copy, Debug)]
pub enum TokenError {
    /// The token is not three dot-separated segments, or its payload has an impossible length.
    MalformedToken,
}

/// The positions of the dots in `t`, in order.
pub open spec fn dot_positions(t: Seq<char>) -> Seq<int>
    decreases t.len(),
{
    if t.len() == 0 {
        Seq::empty()
    } else if t.last() == '.' {
        dot_positions(t.drop_last()).push(t.len() - 1)
    } else {
        dot_positions(t.drop_last())
    }
}

/// The middle of the three segments of `t`, when it has exactly two dots.
pub open spec fn middle_segment(t: Seq<char>) -> Option<Seq<char>> {
    let d = dot_positions(t);
    if d.len() == 2 {
        Some(t.subrange(d[0] + 1, d[1]))
    } else {
        None
    }
}

/// One character of the URL-safe base64 alphabet in the standard one.
pub open spec fn standard_char(c: char) -> char {
    if c == '-' {
        '+'
    } else if c == '_' {
        '/'
    } else {
        c
    }
}

/// The number of `=` a base64 text of length `n` needs, if `n` is a possible length.
pub open spec fn padding_for(n: nat) -> Option<nat> {
    if n % 4 == 0 {
        Some(0)
    } else if n % 4 == 2 {
        Some(2)
    } else if n % 4 == 3 {
        Some(1)
    } else {
        None
    }
}

/// A URL-safe unpadded base64 segment in the standard alphabet, padded.
pub open spec fn standard_padded(seg: Seq<char>) -> Option<Seq<char>> {
    match padding_for(seg.len()) {
        Some(p) => Some(seg.map_values(|c: char| standard_char(c)) + Seq::new(p, |i: int| '=')),
        None => None,
    }
}

/// The payload of `t` as standard padded base64, or `MalformedToken`.
pub open spec fn payload_text(t: Seq<char>) -> Result<Seq<char>, TokenError> {
    match middle_segment(t) {
        Some(seg) => match standard_padded(seg) {
            Some(s) => Ok(s),
            None => Err(TokenError::MalformedToken),
        },
        None => Err(TokenError::MalformedToken),
    }
}

/// What base64's standard engine decodes `s` to, if it accepts it.
pub uninterp spec fn base64_decoded(s: Seq<char>) -> Option<Seq<u8>>;

/// Relies on base64's `STANDARD` engine (`Engine::decode`): the result depends on the text alone.
#[verifier::external_body]
fn base64_decode(s: &str) -> (r: Option<Vec<u8>>)
    ensures
        match r {
            Some(b) => base64_decoded(s@) == Some(b@),
            None => base64_decoded(s@) is None,
        },
{
    base64::Engine::decode(&base64::engine::general_purpose::STANDARD, s).ok()
}

/// The bytes that the payload of `t` decodes to.
pub open spec fn payload_bytes(t: Seq<char>) -> Option<Seq<u8>> {
    match payload_text(t) {
        Ok(s) => base64_decoded(s),
        Err(_) => None,
    }
}

/// Whether the payload of `t` decodes to a JSON document.
pub open spec fn payload_decodes(t: Seq<char>) -> bool {
    match payload_bytes(t) {
        Some(b) => json_accepts(b),
        None => false,
    }
}

/// The payload segment of a compact token, in the standard base64 alphabet and padded: the
/// token must have exactly three dot-separated segments, and the middle one a length that
/// base64 allows.
pub fn payload_segment(token: &str) -> (r: Result<String, TokenError>)
    ensures
        match r {
            Ok(s) => payload_text(token@) == Ok::<Seq<char>, TokenError>(s@),
            Err(e) => payload_text(token@) == Err::<Seq<char>, TokenError>(e),
        },
        dot_positions(token@).len() != 2 ==> r == Err::<String, TokenError>(TokenError::MalformedToken),
{
    let t = chars_of(token);
    let mut dots: Vec<usize> = Vec::new();
    let mut i: usize = 0;
    while i < t.len()
        invariant
            i <= t@.len(),
            dots@.map_values(|d: usize| d as int) == dot_positions(t@.take(i as int)),
        decreases t@.len() - i,
    {
        let ghost before = dots@;
        proof {
            assert(t@.take(i + 1).drop_last() =~= t@.take(i as int));
        }
        if t[i] == '.' {
            dots.push(i);
            proof {
                assert(dots@.map_values(|d: usize| d as int) =~= before.map_values(|d: usize| d as int).push(
                    i as int,
                ));
            }
        }
        i = i + 1;
    }
    proof {
        assert(t@.take(i as int) =~= t@);
    }
    if dots.len() != 2 {
        return Err(TokenError::MalformedToken);
    }
    let (a, b) = (dots[0], dots[1]);
    proof {
        lemma_dots_ordered(t@);
        assert(dot_positions(t@)[0] == a as int);
        assert(dot_positions(t@)[1] == b as int);
    }
    let n = b - a - 1;
    let pad: usize = if n % 4 == 0 {
        0
    } else if n % 4 == 2 {
        2
    } else if n % 4 == 3 {
        1
    } else {
        return Err(TokenError::MalformedToken);
    };
    let mut out: Vec<char> = Vec::new();
    let mut j: usize = a + 1;
    let ghost seg = t@.subrange(a + 1, b as int);
    while j < b
        invariant
            a < b <= t@.len(),
            a + 1 <= j <= b,
            seg == t@.subrange(a + 1, b as int),
            out@ == seg.take(j - a - 1).map_values(|c: char| standard_char(c)),
        decreases b - j,
    {
        let c = t[j];
        let s = if c == '-' {
            '+'
        } else if c == '_' {
            '/'
        } else {
            c
        };
        out.push(s);
        j = j + 1;
        proof {
            assert(out@ =~= seg.take(j - a - 1).map_values(|c: char| standard_char(c)));
        }
    }
    let ghost mapped = out@;
    let mut k: usize = 0;
    while k < pad
        invariant
            k <= pad,
            out@ == mapped + Seq::new(k as nat, |i: int| '='),
        decreases pad - k,
    {
        out.push('=');
        k = k + 1;
        proof {
            assert(out@ =~= mapped + Seq::new(k as nat, |i: int| '='));
        }
    }
    proof {
        assert(seg.take(j - a - 1) =~= seg);
    }
    Ok(string_of(out.as_slice()))
}

proof fn lemma_dots_ordered(t: Seq<char>)
    ensures
        forall|i: int|
            0 <= i < dot_positions(t).len() ==> 0 <= #[trigger] dot_positions(t)[i] < t.len() && t[dot_positions(t)[i]] == '.',
        forall|i: int, j: int|
            0 <= i < j < dot_positions(t).len() ==> #[trigger] dot_positions(t)[i] < #[trigger] dot_positions(t)[j],
    decreases t.len(),
{
    if t.len() > 0 {
        lemma_dots_ordered(t.drop_last());
        let d = dot_positions(t.drop_last());
        assert forall|i: int| 0 <= i < d.len() implies t[d[i]] == '.' by {
            assert(t.drop_last()[d[i]] == t[d[i]]);
        }
    }
}

/// One character of the standard base64 alphabet in the URL-safe one.
pub open spec fn url_safe_char(c: char) -> char {
    if c == '+' {
        '-'
    } else if c == '/' {
        '_'
    } else {
        c
    }
}

/// `s` without the `=` at its end.
pub open spec fn strip_padding(s: Seq<char>) -> Seq<char>
    decreases s.len(),
{
    if s.len() > 0 && s.last() == '=' {
        strip_padding(s.drop_last())
    } else {
        s
    }
}

/// A standard padded base64 text as the URL-safe unpadded segment of a compact token.
pub open spec fn url_safe_unpadded(s: Seq<char>) -> Seq<char> {
    strip_padding(s).map_values(|c: char| url_safe_char(c))
}

/// A segment as compact tokens write it: no dot, and none of `+`, `/`, `=`.
pub open spec fn is_segment_text(s: Seq<char>) -> bool {
    forall|i: int| 0 <= i < s.len() ==> #[trigger] s[i] != '.' && s[i] != '+' && s[i] != '/' && s[i] != '='
}

proof fn lemma_dot_positions_concat(a: Seq<char>, b: Seq<char>)
    ensures
        dot_positions(a + b) == dot_positions(a) + dot_positions(b).map_values(|i: int| i + a.len()),
    decreases b.len(),
{
    if b.len() == 0 {
        assert(a + b =~= a);
        assert(dot_positions(b).map_values(|i: int| i + a.len()) =~= Seq::<int>::empty());
        assert(dot_positions(a) + Seq::<int>::empty() =~= dot_positions(a));
    } else {
        lemma_dot_positions_concat(a, b.drop_last());
        assert((a + b).drop_last() =~= a + b.drop_last());
        let m = dot_positions(b.drop_last()).map_values(|i: int| i + a.len());
        if b.last() == '.' {
            assert(dot_positions(b).map_values(|i: int| i + a.len()) =~= m.push(b.len() - 1 + a.len()));
            assert(dot_positions(a) + m.push(b.len() - 1 + a.len()) =~= (dot_positions(a) + m).push(
                (a + b).len() - 1,
            ));
        } else {
            assert(dot_positions(b).map_values(|i: int| i + a.len()) =~= m);
        }
    }
}

proof fn lemma_no_dots(s: Seq<char>)
    requires
        forall|i: int| 0 <= i < s.len() ==> #[trigger] s[i] != '.',
    ensures
        dot_positions(s) == Seq::<int>::empty(),
    decreases s.len(),
{
    if s.len() > 0 {
        assert forall|i: int| 0 <= i < s.drop_last().len() implies #[trigger] s.drop_last()[i] != '.' by {
            assert(s.drop_last()[i] == s[i]);
        }
        lemma_no_dots(s.drop_last());
    }
}

proof fn lemma_strip_padding(m: Seq<char>, k: nat)
    requires
        forall|i: int| 0 <= i < m.len() ==> #[trigger] m[i] != '=',
    ensures
        strip_padding(m + Seq::new(k, |i: int| '=')) == m,
    decreases k,
{
    if k == 0 {
        assert(m + Seq::new(k, |i: int| '=') =~= m);
        if m.len() > 0 {
            assert(m[m.len() - 1] != '=');
        }
    } else {
        let pk = m + Seq::new(k, |i: int| '=');
        assert(pk.drop_last() =~= m + Seq::new((k - 1) as nat, |i: int| '='));
        lemma_strip_padding(m, (k - 1) as nat);
    }
}

/// The payload of a well-formed compact token round-trips through the alphabet change and
/// padding: for a token `header.payload.signature` whose header and signature have no dot
/// and whose payload is written as compact tokens write it, in a length base64 allows, the decoder reads the
/// payload as a standard padded text that turns back into exactly the payload segment.
pub proof fn lemma_payload_text_round_trip(header: Seq<char>, payload: Seq<char>, signature: Seq<char>)
    requires
        forall|i: int| 0 <= i < header.len() ==> #[trigger] header[i] != '.',
        is_segment_text(payload),
        forall|i: int| 0 <= i < signature.len() ==> #[trigger] signature[i] != '.',
        payload.len() % 4 != 1,
    ensures
        payload_text(header + seq!['.'] + payload + seq!['.'] + signature) matches Ok(s) && url_safe_unpadded(s)
            == payload,
{
    let t = header + seq!['.'] + payload + seq!['.'] + signature;
    lemma_no_dots(header);
    lemma_no_dots(payload);
    lemma_no_dots(signature);
    lemma_dot_positions_concat(header, seq!['.']);
    lemma_dot_positions_concat(header + seq!['.'], payload);
    lemma_dot_positions_concat(header + seq!['.'] + payload, seq!['.']);
    lemma_dot_positions_concat(header + seq!['.'] + payload + seq!['.'], signature);
    assert(dot_positions(seq!['.']) =~= seq![0int]) by {
        assert(seq!['.'].drop_last() =~= Seq::<char>::empty());
        assert(dot_positions(Seq::<char>::empty()) =~= Seq::<int>::empty());
        assert(seq!['.'].last() == '.');
        assert(dot_positions(seq!['.']) == dot_positions(Seq::<char>::empty()).push(0));
    }
    let d = dot_positions(t);
    assert(d =~= seq![header.len() as int, (header.len() + 1 + payload.len()) as int]);
    assert(t.subrange(d[0] + 1, d[1]) =~= payload);
    let m = payload.map_values(|c: char| standard_char(c));
    let k = padding_for(payload.len())->0;
    assert forall|i: int| 0 <= i < m.len() implies #[trigger] m[i] != '=' by {
        assert(payload[i] != '=');
    }
    lemma_strip_padding(m, k);
    assert(m.map_values(|c: char| url_safe_char(c)) =~= payload) by {
        assert forall|i: int| 0 <= i < payload.len() implies url_safe_char(standard_char(payload[i])) == payload[i] by {
            assert(payload[i] != '+' && payload[i] != '/');
        }
    }
}

/// Decodes the payload of a compact token: the bytes of its JSON document. Nothing is
/// returned when the token is malformed, its payload is not base64, or the decoded bytes
/// are not JSON.
pub fn decode_jwt_payload(token: &str) -> (r: Option<Vec<u8>>)
    ensures
        match r {
            Some(b) => payload_bytes(token@) == Some(b@) && json_accepts(b@),
            None => !payload_decodes(token@),
        },
        dot_positions(token@).len() != 2 ==> r is None,
{
    match payload_segment(token) {
        Ok(s) => match base64_decode(s.as_str()) {
            Some(bytes) => if json_is_document(bytes.as_slice()) {
                Some(bytes)
            } else {
                None
            },
            None => None,
        },
        Err(_) => None,
    }
}

/// The claims of an identity token that the account list shows.
pub struct TokenClaims {
    pub email: Option<String>,
    pub expires_at: Option<i64>,
    pub plan_type: Option<String>,
    pub subscription_end: Option<String>,
}

/// What an account shows of itself: email, plan, end of subscription, expiry.
pub type Identity = (String, String, Option<String>, Option<i64>);

/// The email shown when the token says none.
pub open spec fn unknown_email() -> Seq<char> {
    "未知"@
}

/// The plan shown when the token says none.
pub open spec fn unknown_plan() -> Seq<char> {
    "unknown"@
}

/// The view of an optional text.
pub open spec fn opt_text(o: Option<String>) -> Option<Seq<char>> {
    match o {
        Some(s) => Some(s@),
        None => None,
    }
}

/// The claims as texts: email, plan, end of subscription, expiry.
pub type ClaimsView = (Option<Seq<char>>, Option<Seq<char>>, Option<Seq<char>>, Option<i64>);

/// The view of claims.
pub open spec fn claims_view(c: TokenClaims) -> ClaimsView {
    (opt_text(c.email), opt_text(c.plan_type), opt_text(c.subscription_end), c.expires_at)
}

/// The pointer of the provider's plan claim.
pub open spec fn plan_pointer() -> Seq<char> {
    "/https:~1~1api.openai.com~1auth/chatgpt_plan_type"@
}

/// The pointer of the provider's end-of-subscription claim.
pub open spec fn subscription_pointer() -> Seq<char> {
    "/https:~1~1api.openai.com~1auth/chatgpt_subscription_active_until"@
}

/// The claims that a decoded payload holds: the strings `email`, and under the provider's
/// auth claim `chatgpt_plan_type` and `chatgpt_subscription_active_until`, and the integer `exp`.
pub open spec fn payload_claims(b: Seq<u8>) -> ClaimsView {
    (json_text_at(b, "/email"@), json_text_at(b, plan_pointer()), json_text_at(b, subscription_pointer()), json_int_at(b, "/exp"@))
}

/// The identity that claims give: the email and plan where present, else the stand-ins.
pub open spec fn identity_of(c: ClaimsView, r: Identity) -> bool {
    &&& r.0@ == (match c.0 {
        Some(e) => e,
        None => unknown_email(),
    })
    &&& r.1@ == (match c.1 {
        Some(p) => p,
        None => unknown_plan(),
    })
    &&& opt_text(r.2) == c.2
    &&& r.3 == c.3
}

/// The identity of an account whose token could not be read.
pub open spec fn unknown_identity(r: Identity) -> bool {
    r.0@ == unknown_email() && r.1@ == unknown_plan() && r.2 is None && r.3 is None
}

/// The identity shown for an identity token: the one its claims give where it decodes,
/// else the stand-ins and no dates.
pub open spec fn token_identity(id_token: Seq<char>, r: Identity) -> bool {
    if payload_decodes(id_token) {
        identity_of(payload_claims(payload_bytes(id_token)->0), r)
    } else {
        unknown_identity(r)
    }
}

/// The identity that claims give.
pub fn identity_from_claims(c: TokenClaims) -> (r: Identity)
    ensures
        identity_of(claims_view(c), r),
{
    let email = match c.email {
        Some(e) => e,
        None => "未知".to_owned(),
    };
    let plan = match c.plan_type {
        Some(p) => p,
        None => "unknown".to_owned(),
    };
    (email, plan, c.subscription_end, c.expires_at)
}

/// The claims of a decoded payload.
pub fn read_claims(payload: &[u8]) -> (r: TokenClaims)
    ensures
        claims_view(r) == payload_claims(payload@),
{
    TokenClaims {
        email: json_text(payload, "/email"),
        plan_type: json_text(payload, "/https:~1~1api.openai.com~1auth/chatgpt_plan_type"),
        subscription_end: json_text(payload, "/https:~1~1api.openai.com~1auth/chatgpt_subscription_active_until"),
        expires_at: json_int(payload, "/exp"),
    }
}

/// The identity of a credential file, from the claims of its identity token; where the
/// token cannot be decoded, the stand-ins and no dates.
pub fn extract_info_from_auth(auth: &CodexAuthFile) -> (r: Identity)
    ensures
        token_identity(auth.tokens.id_token@, r),
{
    match decode_jwt_payload(auth.tokens.id_token.as_str()) {
        Some(p) => identity_from_claims(read_claims(p.as_slice())),
        None => ("未知".to_owned(), "unknown".to_owned(), None, None),
    }
}

} // verus!
