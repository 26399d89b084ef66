use vstd::prelude::*;

verus! {

/// What the base64 engine decodes a value to; a function of the input alone,
/// by the standard alphabet with padding.
pub uninterp spec fn base64_decoded(s: Seq<u8>) -> Option<Seq<u8>>;

/// Relies on base64's STANDARD engine decode: the result is a function of the
/// input bytes alone.
#[verifier::external_body]
fn base64_decode(v: &[u8]) -> (r: Option<Vec<u8>>)
    ensures
        match r {
            Option::Some(out) => base64_decoded(v@) == Option::Some(out@),
            Option::None => base64_decoded(v@) is None,
        },
{
    <base64::engine::GeneralPurpose as base64::Engine>::decode(&base64::prelude::BASE64_STANDARD, v).ok()
}

/// An authorization failure.
#[derive(Debug)]
pub enum Error {
    /// The token could not be verified.
    Verification { msg: String, source: String },
    /// The token grants none of the permissions asked for.
    Forbidden,
    /// No token came with the request.
    NoToken,
}

impl Error {
    /// A verification error from a message and the text of its cause.
    pub fn verification(msg: String, source: String) -> (r: Self)
        ensures
            r matches Error::Verification { msg: m, source: s } && m == msg && s == source,
    {
        Error::Verification { msg, source }
    }

    /// The error as one line of text.
    pub fn text(&self) -> (r: String)
        ensures
            r@ == self.spec_text(),
    {
        let mut s = String::new();
        match self {
            Error::Verification { msg, .. } => {
                s.append("token verification not possible: ");
                s.append(msg.as_str());
            },
            Error::Forbidden => {
                s.append("forbidden");
            },
            Error::NoToken => {
                s.append("no token");
            },
        }
        s
    }

    /// The error as one line of text.
    pub open spec fn spec_text(self) -> Seq<char> {
        match self {
            Error::Verification { msg, .. } => "token verification not possible: "@ + msg@,
            Error::Forbidden => "forbidden"@,
            Error::NoToken => "no token"@,
        }
    }
}

/// The position of the first byte value in the slice's view from position `i`.
pub open spec fn spec_find_byte(s: Seq<u8>, i: nat, b: u8) -> Option<int>
    decreases s.len() - i,
{
    if i >= s.len() {
        Option::None
    } else if s[i as int] == b {
        Option::Some(i as int)
    } else {
        spec_find_byte(s, i + 1, b)
    }
}

/// The position of the first byte value, if any.
#[verifier::loop_isolation(false)]
fn find_byte(s: &[u8], b: u8) -> (r: Option<usize>)
    ensures
        match r {
            Option::Some(p) => p < s@.len() && spec_find_byte(s@, 0, b) == Option::Some(p as int),
            Option::None => spec_find_byte(s@, 0, b) is None,
        },
{
    let mut i: usize = 0;
    while i < s.len()
        invariant
            i <= s@.len(),
            spec_find_byte(s@, 0, b) == spec_find_byte(s@, i as nat, b),
        decreases s@.len() - i,
    {
        if s[i] == b {
            return Some(i);
        }
        i = i + 1;
    }
    None
}

/// The scheme part of the header: the bytes before the first space, or the
/// whole value.
pub open spec fn spec_scheme(v: Seq<u8>) -> Seq<u8> {
    match spec_find_byte(v, 0, 32u8) {
        Option::Some(p) => v.take(p),
        Option::None => v,
    }
}

/// The remainder after the first space, if there is one.
pub open spec fn spec_after_space(v: Seq<u8>) -> Option<Seq<u8>> {
    match spec_find_byte(v, 0, 32u8) {
        Option::Some(p) => Option::Some(v.skip(p + 1)),
        Option::None => Option::None,
    }
}

/// The token the rules extract: for a `Token` or `Bearer` scheme the bytes
/// after the space; for `Basic` the part of the decoded credential after the
/// first colon; empty results count as no token.
pub open spec fn spec_extract_token(v: Seq<u8>) -> Option<Seq<u8>> {
    let scheme = spec_scheme(v);
    if scheme == "Token"@.map_values(|c: char| c as u8) || scheme == "Bearer"@.map_values(
        |c: char| c as u8,
    ) {
        match spec_after_space(v) {
            Option::Some(t) => if t.len() > 0 {
                Option::Some(t)
            } else {
                Option::None
            },
            Option::None => Option::None,
        }
    } else if scheme == "Basic"@.map_values(|c: char| c as u8) {
        match spec_after_space(v) {
            Option::Some(enc) => match base64_decoded(enc) {
                Option::Some(dec) => match spec_find_byte(dec, 0, 58u8) {
                    Option::Some(p) => if dec.skip(p + 1).len() > 0 {
                        Option::Some(dec.skip(p + 1))
                    } else {
                        Option::None
                    },
                    Option::None => Option::None,
                },
                Option::None => Option::None,
            },
            Option::None => Option::None,
        }
    } else {
        Option::None
    }
}

/// Whether two byte slices hold the same bytes.
#[verifier::loop_isolation(false)]
fn bytes_eq(a: &[u8], b: &[u8]) -> (r: bool)
    ensures
        r == (a@ == b@),
{
    if a.len() != b.len() {
        proof {
            assert(a@.len() != b@.len());
        }
        return false;
    }
    let mut i: usize = 0;
    while i < a.len()
        invariant
            i <= a@.len(),
            a@.len() == b@.len(),
            forall|j: int| 0 <= j < i ==> a@[j] == #[trigger] b@[j],
        decreases a@.len() - i,
    {
        if a[i] != b[i] {
            return false;
        }
        i = i + 1;
    }
    proof {
        assert(a@ =~= b@);
    }
    true
}

/// The bytes from a position on, as a fresh vector.
#[verifier::loop_isolation(false)]
fn tail_from(s: &[u8], p: usize) -> (r: Vec<u8>)
    requires
        p <= s@.len(),
    ensures
        r@ == s@.skip(p as int),
{
    let mut out: Vec<u8> = Vec::new();
    let mut i: usize = p;
    while i < s.len()
        invariant
            p <= i <= s@.len(),
            out@.len() == i - p,
            forall|j: int| 0 <= j < out@.len() ==> out@[j] == #[trigger] s@[p as int + j],
        decreases s@.len() - i,
    {
        out.push(s[i]);
        i = i + 1;
    }
    proof {
        assert forall|j: int| 0 <= j < out@.len() implies out@[j] == s@.skip(p as int)[j] by {
            assert(s@.skip(p as int)[j] == s@[p as int + j]);
        }
        assert(out@ =~= s@.skip(p as int));
    }
    out
}

/// Extracts an authorization token from a header or metadata value: the bytes
/// after `Token` or `Bearer`, or the password of a `Basic` credential; an
/// empty token counts as none.
pub fn extract_token(value: Option<&[u8]>) -> (r: Option<Vec<u8>>)
    ensures
        match value {
            Option::Some(v) => match r {
                Option::Some(tok) => spec_extract_token(v@) == Option::Some(tok@),
                Option::None => spec_extract_token(v@) is None,
            },
            Option::None => r is None,
        },
{
    let v = match value {
        Option::Some(v) => v,
        Option::None => {
            return None;
        },
    };
    let vlen = v.len();
    let space = find_byte(v, 32u8);
    let (scheme_end, rest_start): (usize, Option<usize>) = match space {
        Option::Some(p) => {
            proof {
                assert(p < vlen);
            }
            (p, Some(p + 1))
        },
        Option::None => (vlen, None),
    };
    let scheme = vstd::slice::slice_subrange(v, 0, scheme_end);
    proof {
        assert(scheme@ =~= spec_scheme(v@));
        reveal_strlit("Token");
        reveal_strlit("Bearer");
        reveal_strlit("Basic");
        assert("Token"@.map_values(|c: char| c as u8) =~= seq![84u8, 111u8, 107u8, 101u8, 110u8]);
        assert("Bearer"@.map_values(|c: char| c as u8) =~= seq![
            66u8,
            101u8,
            97u8,
            114u8,
            101u8,
            114u8,
        ]);
        assert("Basic"@.map_values(|c: char| c as u8) =~= seq![66u8, 97u8, 115u8, 105u8, 99u8]);
    }
    let tok = [84u8, 111u8, 107u8, 101u8, 110u8];
    let bearer = [66u8, 101u8, 97u8, 114u8, 101u8, 114u8];
    let basic = [66u8, 97u8, 115u8, 105u8, 99u8];
    let is_token = bytes_eq(scheme, tok.as_slice());
    let is_bearer = bytes_eq(scheme, bearer.as_slice());
    let is_basic = bytes_eq(scheme, basic.as_slice());
    if is_token || is_bearer {
        match rest_start {
            Option::Some(p) => {
                let t = tail_from(v, p);
                if t.len() == 0 {
                    None
                } else {
                    Some(t)
                }
            },
            Option::None => None,
        }
    } else if is_basic {
        match rest_start {
            Option::Some(p) => {
                let enc = tail_from(v, p);
                let dec = match base64_decode(enc.as_slice()) {
                    Option::Some(d) => d,
                    Option::None => {
                        return None;
                    },
                };
                match find_byte(dec.as_slice(), 58u8) {
                    Option::Some(cp) => {
                        let t = tail_from(dec.as_slice(), cp + 1);
                        if t.len() == 0 {
                            None
                        } else {
                            Some(t)
                        }
                    },
                    Option::None => None,
                }
            },
            Option::None => None,
        }
    } else {
        None
    }
}

/// The rule behind requiring a permission: a failed lookup keeps its error,
/// an empty grant is forbidden, and anything else passes.
pub fn require_any_permission<P>(outcome: Result<Vec<P>, Error>) -> (r: Result<(), Error>)
    ensures
        match outcome {
            Result::Ok(perms) => if perms@.len() == 0 {
                r matches Err(e) && e is Forbidden
            } else {
                r is Ok
            },
            Result::Err(e) => r matches Err(e2) && e2 == e,
        },
{
    match outcome {
        Result::Ok(perms) => {
            if perms.len() == 0 {
                Err(Error::Forbidden)
            } else {
                Ok(())
            }
        },
        Result::Err(e) => Err(e),
    }
}

} // verus!
