//! The request guards in front of the upload routes, and the bodies of the
//! error responses.
use vstd::prelude::*;
use crate::naming::{all_digits, digits_value, is_digit, lemma_prefix_value_le};

verus! {

/// The largest request body accepted, in bytes.
pub const SIZE_LIMIT: u64 = 15_000_000;

/// Why a guard refuses a request.
#[derive(Debug, Clone, Copy, PartialEq, Eq)]
pub enum GuardError {
    TokenMissing,
    NotAuthorized,
    SizeMissing,
    SizeInvalid,
    TooLarge,
}

impl GuardError {
    /// The HTTP status of the refusal.
    pub fn status(&self) -> (r: u16)
        ensures
            r == match self {
                GuardError::NotAuthorized => 401u16,
                GuardError::TooLarge => 413u16,
                _ => 400u16,
            },
    {
        match self {
            GuardError::NotAuthorized => 401,
            GuardError::TooLarge => 413,
            _ => 400,
        }
    }

    /// The text of the refusal.
    pub fn message(&self) -> (r: &'static str)
        ensures
            r@ == match self {
                GuardError::TokenMissing => "token was not found"@,
                GuardError::NotAuthorized => "failed, not authorized"@,
                GuardError::SizeMissing => "file size not found"@,
                GuardError::SizeInvalid => "file size is not a valid number"@,
                GuardError::TooLarge => "file too large"@,
            },
    {
        match self {
            GuardError::TokenMissing => "token was not found",
            GuardError::NotAuthorized => "failed, not authorized",
            GuardError::SizeMissing => "file size not found",
            GuardError::SizeInvalid => "file size is not a valid number",
            GuardError::TooLarge => "file too large",
        }
    }
}

/// The digits of an unsigned number's text, after an optional `+`.
pub open spec fn unsigned_digits(s: Seq<char>) -> Seq<char> {
    if s.len() > 0 && s[0] == '+' {
        s.drop_first()
    } else {
        s
    }
}

/// The `u64` that `s` writes in decimal, if any.
pub open spec fn u64_of(s: Seq<char>) -> Option<u64> {
    let d = unsigned_digits(s);
    if d.len() > 0 && all_digits(d) && digits_value(d) <= u64::MAX {
        Some(digits_value(d) as u64)
    } else {
        None
    }
}

/// Reads a decimal `u64`: an optional `+`, then one or more digits.
pub fn parse_u64(s: &str) -> (r: Option<u64>)
    ensures
        r == u64_of(s@),
{
    let len = s.unicode_len();
    let mut start: usize = 0;
    if len > 0 && s.get_char(0) == '+' {
        start = 1;
    }
    let ghost d = unsigned_digits(s@);
    proof {
        assert(d =~= s@.subrange(start as int, len as int));
    }
    if start == len {
        return None;
    }
    let mut v: u128 = 0;
    let mut i: usize = start;
    while i < len
        invariant
            start <= i <= len,
            len == s@.len(),
            d == s@.subrange(start as int, len as int),
            d == unsigned_digits(s@),
            v <= u64::MAX,
            v == digits_value(d.subrange(0, i - start)),
            all_digits(d.subrange(0, i - start)),
        decreases len - i,
    {
        let c = s.get_char(i);
        if !('0' <= c && c <= '9') {
            proof {
                assert(d[i - start] == c);
                assert(!is_digit(d[i - start]));
            }
            return None;
        }
        v = v * 10 + (c as u32 - '0' as u32) as u128;
        proof {
            assert(d.subrange(0, i + 1 - start).drop_last() =~= d.subrange(0, i - start));
        }
        if v > 0xffff_ffff_ffff_ffff {
            proof {
                lemma_prefix_value_le(d, i + 1 - start);
            }
            return None;
        }
        i = i + 1;
    }
    proof {
        assert(d.subrange(0, len - start) =~= d);
    }
    Some(v as u64)
}

/// Whether two texts are the same.
fn same_text(a: &str, b: &str) -> (r: bool)
    ensures
        r == (a@ == b@),
{
    let n = a.unicode_len();
    if n != b.unicode_len() {
        return false;
    }
    let mut i: usize = 0;
    while i < n
        invariant
            n == a@.len() && n == b@.len(),
            i <= n,
            forall|k: int| 0 <= k < i ==> a@[k] == b@[k],
        decreases n - i,
    {
        if a.get_char(i) != b.get_char(i) {
            return false;
        }
        i = i + 1;
    }
    proof {
        assert(a@ =~= b@);
    }
    true
}

/// Proof that a request presented the shared secret.
pub struct Authorized(());

impl Authorized {
    /// Checks the value of the request's `token` header, if it has one,
    /// against the shared secret `token`.
    pub fn from_request(header: Option<&str>, token: &str) -> (r: Result<Authorized, GuardError>)
        ensures
            match header {
                None => r == Err::<Authorized, GuardError>(GuardError::TokenMissing),
                Some(h) => if h@ == token@ {
                    r is Ok
                } else {
                    r == Err::<Authorized, GuardError>(GuardError::NotAuthorized)
                },
            },
    {
        match header {
            None => Err(GuardError::TokenMissing),
            Some(h) => if same_text(h, token) {
                Ok(Authorized(()))
            } else {
                Err(GuardError::NotAuthorized)
            },
        }
    }
}

/// Proof that a request declared a body no larger than the limit.
pub struct FormSizeLimit(());

impl FormSizeLimit {
    /// Checks the value of the request's `content-length` header, if it has
    /// one, against the limit.
    pub fn from_request(header: Option<&str>) -> (r: Result<FormSizeLimit, GuardError>)
        ensures
            match header {
                None => r == Err::<FormSizeLimit, GuardError>(GuardError::SizeMissing),
                Some(h) => match u64_of(h@) {
                    None => r == Err::<FormSizeLimit, GuardError>(GuardError::SizeInvalid),
                    Some(n) => if n > SIZE_LIMIT {
                        r == Err::<FormSizeLimit, GuardError>(GuardError::TooLarge)
                    } else {
                        r is Ok
                    },
                },
            },
    {
        match header {
            None => Err(GuardError::SizeMissing),
            Some(h) => match parse_u64(h) {
                None => Err(GuardError::SizeInvalid),
                Some(n) => if n > SIZE_LIMIT {
                    Err(GuardError::TooLarge)
                } else {
                    Ok(FormSizeLimit(()))
                },
            },
        }
    }
}

/// Body of the response to an unauthorized request.
pub fn not_auth() -> (r: &'static str)
    ensures
        r@ == "failed, not authorized"@,
{
    "failed, not authorized"
}

/// Body of the response to a request for an unknown route.
pub fn not_found() -> (r: &'static str)
    ensures
        r@ == "not found"@,
{
    "not found"
}

/// Body of the response to a malformed request.
pub fn bad_req() -> (r: &'static str)
    ensures
        r@ == "failed, bad request"@,
{
    "failed, bad request"
}

/// Body of the response to a request whose body is too large.
pub fn too_big() -> (r: &'static str)
    ensures
        r@ == "failed, file too large"@,
{
    "failed, file too large"
}

} // verus!
