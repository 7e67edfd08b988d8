//! Wire format for errors: a structured, machine-checkable tag in front of a
//! human-readable message, so callers can branch on cancellation without
//! string-matching free text.
//!
//! An encoded error has the shape `VID2AV1_ERROR|<code>|<message>`.

use vstd::prelude::*;
use vstd::string::StringExecFns;
use vstd::string::StrSliceExecFns;

verus! {

pub const ERROR_PREFIX: &'static str = "VID2AV1_ERROR";

pub const ERROR_CODE_CANCELED_BY_USER: &'static str = "CANCELED_BY_USER";

pub const ERROR_CODE_NO_ACTIVE_CONVERSION: &'static str = "NO_ACTIVE_CONVERSION";

pub const CANCELED_BY_USER_MESSAGE: &'static str = "Conversion canceled by user.";

pub const NO_ACTIVE_CONVERSION_MESSAGE: &'static str = "No conversion is currently running.";

/// The characters of the error prefix, as specifications speak of them.
pub open spec fn error_prefix() -> Seq<char> {
    "VID2AV1_ERROR"@
}

/// What an encoded error looks like: prefix, code and message joined by `|`.
pub open spec fn encoded_error(code: Seq<char>, message: Seq<char>) -> Seq<char> {
    error_prefix() + seq!['|'] + code + seq!['|'] + message
}

/// Holds when `error` carries `code` in the error wire format: the text up to
/// the first separator is the exact prefix, the text between the first and
/// second separator is the exact code, and a (possibly empty) message part
/// follows. A code that itself contains a separator can never match.
pub open spec fn carries_code(error: Seq<char>, code: Seq<char>) -> bool {
    let p = error_prefix().len() as int;
    let c = code.len() as int;
    &&& !code.contains('|')
    &&& error.len() >= p + c + 2
    &&& error.subrange(0, p) == error_prefix()
    &&& error[p] == '|'
    &&& error.subrange(p + 1, p + 1 + c) == code
    &&& error[p + 1 + c] == '|'
}

/// Builds the wire form `VID2AV1_ERROR|<code>|<message>`.
pub fn encode_error(code: &str, message: &str) -> (r: String)
    ensures
        r@ == encoded_error(code@, message@),
{
    proof {
        reveal_strlit("|");
    }
    let mut r = String::from_str(ERROR_PREFIX);
    r.append("|");
    r.append(code);
    r.append("|");
    r.append(message);
    proof {
        assert(r@ =~= encoded_error(code@, message@));
    }
    r
}

/// The canned error for a conversion the user canceled.
pub fn error_canceled_by_user() -> (r: String)
    ensures
        r@ == encoded_error("CANCELED_BY_USER"@, "Conversion canceled by user."@),
{
    encode_error(ERROR_CODE_CANCELED_BY_USER, CANCELED_BY_USER_MESSAGE)
}

/// The canned error for a cancellation request with nothing running.
pub fn error_no_active_conversion() -> (r: String)
    ensures
        r@ == encoded_error("NO_ACTIVE_CONVERSION"@, "No conversion is currently running."@),
{
    encode_error(ERROR_CODE_NO_ACTIVE_CONVERSION, NO_ACTIVE_CONVERSION_MESSAGE)
}

/// Decides whether `error` carries `code` in the error wire format.
pub fn is_error_code(error: &str, code: &str) -> (r: bool)
    ensures
        r == carries_code(error@, code@),
{
    proof {
        reveal_strlit("VID2AV1_ERROR");
        reveal_strlit("|");
    }
    let p = ERROR_PREFIX.unicode_len();
    let c = code.unicode_len();
    let e = error.unicode_len();
    if e < p || e - p < 2 || e - p - 2 < c {
        return false;
    }
    let mut i: usize = 0;
    while i < p
        invariant
            i <= p,
            p == error_prefix().len(),
            p + c + 2 <= e == error@.len(),
            c == code@.len(),
            forall|k: int| 0 <= k < i ==> error@[k] == error_prefix()[k],
        decreases p - i,
    {
        if error.get_char(i) != ERROR_PREFIX.get_char(i) {
            proof {
                assert(error@.subrange(0, p as int)[i as int] == error@[i as int]);
            }
            return false;
        }
        i = i + 1;
    }
    proof {
        assert(error@.subrange(0, p as int) =~= error_prefix());
    }
    if error.get_char(p) != '|' {
        return false;
    }
    let mut j: usize = 0;
    while j < c
        invariant
            j <= c,
            p == error_prefix().len(),
            p + c + 2 <= e == error@.len(),
            c == code@.len(),
            forall|k: int| 0 <= k < j ==> error@[p + 1 + k] == code@[k],
            forall|k: int| 0 <= k < j ==> code@[k] != '|',
        decreases c - j,
    {
        let ch = code.get_char(j);
        if ch == '|' {
            proof {
                assert(code@.contains('|')) by {
                    assert(code@[j as int] == '|');
                }
            }
            return false;
        }
        if error.get_char(p + 1 + j) != ch {
            proof {
                assert(error@.subrange(p + 1, p + 1 + c as int)[j as int] == error@[p + 1
                    + j]);
            }
            return false;
        }
        j = j + 1;
    }
    proof {
        assert(error@.subrange(p + 1, p + 1 + c as int) =~= code@);
    }
    if error.get_char(p + 1 + c) != '|' {
        return false;
    }
    proof {
        assert(!code@.contains('|'));
    }
    true
}

/// Decides whether `error` is the cancellation error of this protocol.
pub fn is_canceled_by_user_error(error: &str) -> (r: bool)
    ensures
        r == carries_code(error@, "CANCELED_BY_USER"@),
{
    is_error_code(error, ERROR_CODE_CANCELED_BY_USER)
}

} // verus!
