//! The checks a request passes before any transition work starts: the shape
//! of its signature, and the action, account and age its signed message
//! states.

use vstd::prelude::*;
use vstd::string::StringSliceAdditionalSpecFns;

verus! {

/// Why a request was not authorized.
#[derive(Debug, Clone, Copy, PartialEq, Eq, Structural)]
pub enum AuthError {
    SignatureTooShort,
    InvalidSignatureFormat,
    MissingAction,
    MissingAccount,
    InvalidTimestamp,
    TimestampTooOld,
    TimestampInFuture,
}

/// The sentence that explains an authorization error.
pub open spec fn auth_error_text(e: AuthError) -> Seq<char> {
    match e {
        AuthError::SignatureTooShort => "Signature too short"@,
        AuthError::InvalidSignatureFormat => "Invalid signature format"@,
        AuthError::MissingAction => "Message does not contain expected action"@,
        AuthError::MissingAccount => "Message does not contain expected account"@,
        AuthError::InvalidTimestamp => "Invalid timestamp format"@,
        AuthError::TimestampTooOld => "Message timestamp is too old"@,
        AuthError::TimestampInFuture => "Message timestamp is in the future"@,
    }
}

impl AuthError {
    /// A sentence on the cause, for the person who made the request.
    pub fn message(&self) -> (r: &'static str)
        ensures
            r@ == auth_error_text(*self),
    {
        match self {
            AuthError::SignatureTooShort => "Signature too short",
            AuthError::InvalidSignatureFormat => "Invalid signature format",
            AuthError::MissingAction => "Message does not contain expected action",
            AuthError::MissingAccount => "Message does not contain expected account",
            AuthError::InvalidTimestamp => "Invalid timestamp format",
            AuthError::TimestampTooOld => "Message timestamp is too old",
            AuthError::TimestampInFuture => "Message timestamp is in the future",
        }
    }
}

/// The shortest signature accepted, in bytes.
pub const MIN_SIGNATURE_LEN: usize = 10;

/// The outcome of the signature check on the bytes of a signature.
pub open spec fn signature_outcome(sig: Seq<u8>) -> Result<(), AuthError> {
    if sig.len() < MIN_SIGNATURE_LEN {
        Err(AuthError::SignatureTooShort)
    } else if sig[0] != 0x30u8 || sig[1] != 0x78u8 {
        Err(AuthError::InvalidSignatureFormat)
    } else {
        Ok(())
    }
}

/// Checks the shape of a signature: at least ten bytes, starting with `0x`.
/// The signature is not checked against the account or the message.
pub fn verify_signature(user_account: &str, message: &str, signature: &str) -> (r: Result<(), AuthError>)
    ensures
        r == signature_outcome(signature.spec_bytes()),
{
    let bytes = signature.as_bytes();
    if bytes.len() < MIN_SIGNATURE_LEN {
        return Err(AuthError::SignatureTooShort);
    }
    if bytes[0] != 0x30u8 || bytes[1] != 0x78u8 {
        return Err(AuthError::InvalidSignatureFormat);
    }
    Ok(())
}

/// Whether `needle` occurs in `hay`.
pub open spec fn contains_seq(hay: Seq<char>, needle: Seq<char>) -> bool {
    exists|i: int| 0 <= i && i + needle.len() <= hay.len() && #[trigger] hay.subrange(i, i + needle.len()) == needle
}

fn chars_of(s: &str, out: &mut Vec<char>)
    ensures
        final(out)@ == old(out)@ + s@,
{
    let n = s.unicode_len();
    let mut i: usize = 0;
    while i < n
        invariant
            n == s@.len(),
            i <= n,
            out@ == old(out)@ + s@.subrange(0, i as int),
        decreases n - i,
    {
        let c = s.get_char(i);
        out.push(c);
        proof {
            assert(s@.subrange(0, i + 1) =~= s@.subrange(0, i as int).push(c));
            assert(old(out)@ + s@.subrange(0, i + 1) =~= (old(out)@ + s@.subrange(0, i as int)).push(c));
        }
        i = i + 1;
    }
    proof {
        assert(s@.subrange(0, n as int) =~= s@);
    }
}

fn occurs_at(hay: &Vec<char>, needle: &Vec<char>, i: usize) -> (r: bool)
    requires
        i + needle@.len() <= hay@.len(),
    ensures
        r == (hay@.subrange(i as int, i + needle@.len()) == needle@),
{
    let n = hay.len();
    let mut j: usize = 0;
    while j < needle.len()
        invariant
            n == hay@.len(),
            j <= needle@.len(),
            i + needle@.len() <= hay@.len(),
            forall|k: int| 0 <= k < j ==> hay@[i + k] == needle@[k],
        decreases needle@.len() - j,
    {
        if hay[i + j] != needle[j] {
            proof {
                assert(hay@.subrange(i as int, i + needle@.len())[j as int] != needle@[j as int]);
            }
            return false;
        }
        j = j + 1;
    }
    proof {
        assert(hay@.subrange(i as int, i + needle@.len()) =~= needle@);
    }
    true
}

/// Whether `prefix` followed by `value` occurs in `hay`.
pub fn contains_text(hay: &str, prefix: &str, value: &str) -> (r: bool)
    ensures
        r == contains_seq(hay@, prefix@ + value@),
{
    let mut h: Vec<char> = Vec::new();
    chars_of(hay, &mut h);
    let mut needle: Vec<char> = Vec::new();
    chars_of(prefix, &mut needle);
    chars_of(value, &mut needle);
    proof {
        assert(h@ =~= hay@);
        assert(needle@ =~= prefix@ + value@);
    }
    if needle.len() > h.len() {
        proof {
            assert(!contains_seq(hay@, prefix@ + value@));
        }
        return false;
    }
    let last = h.len() - needle.len();
    let mut i: usize = 0;
    loop
        invariant
            last + needle@.len() == h@.len(),
            h@ == hay@,
            needle@ == prefix@ + value@,
            i <= last,
            forall|k: int| 0 <= k < i ==> #[trigger] h@.subrange(k, k + needle@.len()) != needle@,
        decreases last - i,
    {
        if occurs_at(&h, &needle, i) {
            proof {
                assert(hay@.subrange(i as int, i + needle@.len()) == needle@);
            }
            return true;
        }
        if i == last {
            proof {
                assert forall|k: int| 0 <= k && k + needle@.len() <= hay@.len() implies #[trigger] hay@.subrange(
                    k,
                    k + needle@.len(),
                ) != needle@ by {
                    assert(k <= i);
                }
            }
            return false;
        }
        i = i + 1;
    }
}

/// What the case conversion of the standard library makes of a text.
pub uninterp spec fn upper_of(s: Seq<char>) -> Seq<char>;

/// Relies on `str::to_uppercase`: the upper-case form of `s`, which depends
/// on the characters of `s` alone.
#[verifier::external_body]
fn uppercase(s: &str) -> (r: String)
    ensures
        r@ == upper_of(s@),
{
    s.to_uppercase()
}

/// The instant an RFC 3339 text names, as seconds since the Unix epoch and
/// nanoseconds into that second; none if the text is not RFC 3339.
pub uninterp spec fn rfc3339_instant(s: Seq<char>) -> Option<(i64, u32)>;

/// Relies on chrono's `DateTime::parse_from_rfc3339`, `timestamp` and
/// `timestamp_subsec_nanos`: the instant the text names, in UTC.
#[verifier::external_body]
fn parse_rfc3339(s: &str) -> (r: Option<(i64, u32)>)
    ensures
        r == rfc3339_instant(s@),
{
    match chrono::DateTime::parse_from_rfc3339(s) {
        Ok(t) => Some((t.timestamp(), t.timestamp_subsec_nanos())),
        Err(_) => None,
    }
}

pub const NANOS_PER_SECOND: i128 = 1_000_000_000;

/// The nanoseconds from `then` to `now`.
pub open spec fn nanos_between(now: (i64, u32), then: (i64, u32)) -> int {
    (now.0 - then.0) * 1_000_000_000 + (now.1 - then.1)
}

/// The whole minutes in `d` nanoseconds, rounded toward zero.
pub open spec fn whole_minutes(d: int) -> int {
    if d >= 0 {
        d / 60_000_000_000
    } else {
        -((-d) / 60_000_000_000)
    }
}

/// The outcome of the message check, given the upper-case action, the
/// instant the message is dated (none if its timestamp does not parse) and
/// the current time.
pub open spec fn content_outcome(
    message: Seq<char>,
    action_upper: Seq<char>,
    account: Seq<char>,
    sent: Option<(i64, u32)>,
    now: (i64, u32),
) -> Result<(), AuthError> {
    if !contains_seq(message, "Action: "@ + action_upper) {
        Err(AuthError::MissingAction)
    } else if !contains_seq(message, "Account: "@ + account) {
        Err(AuthError::MissingAccount)
    } else if sent is None {
        Err(AuthError::InvalidTimestamp)
    } else if whole_minutes(nanos_between(now, sent->Some_0)) > 5 {
        Err(AuthError::TimestampTooOld)
    } else if whole_minutes(nanos_between(now, sent->Some_0)) < -1 {
        Err(AuthError::TimestampInFuture)
    } else {
        Ok(())
    }
}

/// Checks that `message` names the action and the account, and that it was
/// dated `sent` no more than five whole minutes before `now` and no more
/// than one whole minute after.
pub fn check_message_content(message: &str, action_upper: &str, account: &str, sent: Option<(i64, u32)>, now: (i64, u32)) -> (r: Result<(), AuthError>)
    ensures
        r == content_outcome(message@, action_upper@, account@, sent, now),
{
    proof {
        reveal_strlit("Action: ");
        reveal_strlit("Account: ");
    }
    if !contains_text(message, "Action: ", action_upper) {
        return Err(AuthError::MissingAction);
    }
    if !contains_text(message, "Account: ", account) {
        return Err(AuthError::MissingAccount);
    }
    let t = match sent {
        Some(t) => t,
        None => return Err(AuthError::InvalidTimestamp),
    };
    let d: i128 = (now.0 as i128 - t.0 as i128) * NANOS_PER_SECOND + (now.1 as i128 - t.1 as i128);
    proof {
        let x = d as int;
        assert(x == nanos_between(now, t));
        assert(x >= 0 ==> (x / 60_000_000_000 > 5 <==> x >= 360_000_000_000)) by (nonlinear_arith);
        assert(x < 0 ==> (-((-x) / 60_000_000_000) < -1 <==> x <= -120_000_000_000)) by (nonlinear_arith);
        assert(x < 0 ==> -((-x) / 60_000_000_000) <= 0) by (nonlinear_arith);
        assert(x >= 0 ==> x / 60_000_000_000 >= 0) by (nonlinear_arith);
    }
    if d >= 360 * NANOS_PER_SECOND {
        return Err(AuthError::TimestampTooOld);
    }
    if d <= -120 * NANOS_PER_SECOND {
        return Err(AuthError::TimestampInFuture);
    }
    Ok(())
}

/// Checks a signed message against the expected action and account, and
/// its timestamp against `now` (seconds since the Unix epoch and nanoseconds
/// into that second): the outcome of `check_message_content` for the
/// upper-case form of the action and the instant the timestamp names.
pub fn verify_message_content(
    message: &str,
    expected_action: &str,
    expected_account: &str,
    timestamp: &str,
    now: (i64, u32),
) -> (r: Result<(), AuthError>)
    ensures
        r == content_outcome(message@, upper_of(expected_action@), expected_account@, rfc3339_instant(timestamp@), now),
{
    let action_upper = uppercase(expected_action);
    let sent = parse_rfc3339(timestamp);
    check_message_content(message, action_upper.as_str(), expected_account, sent, now)
}

/// The action every signed request message must name.
pub const REQUEST_ACTION: &'static str = "emit_transaction";

/// The checks in front of every request, in order: the signature's shape,
/// then the signed message's action, account and age at time `now`.
pub fn authorize(user_account: &str, signature: &str, signed_message: &str, timestamp: &str, now: (i64, u32)) -> (r: Result<(), AuthError>)
    ensures
        signature_outcome(signature.spec_bytes()) is Err ==> r == signature_outcome(signature.spec_bytes()),
        signature_outcome(signature.spec_bytes()) is Ok ==> r == content_outcome(
            signed_message@,
            upper_of(REQUEST_ACTION@),
            user_account@,
            rfc3339_instant(timestamp@),
            now,
        ),
{
    match verify_signature(user_account, signed_message, signature) {
        Ok(()) => {},
        Err(e) => return Err(e),
    }
    verify_message_content(signed_message, REQUEST_ACTION, user_account, timestamp, now)
}

/// The HTTP status that answers a request refused with this error.
pub fn auth_status(e: &AuthError) -> (r: u16)
    ensures
        r == (match *e {
            AuthError::SignatureTooShort | AuthError::InvalidSignatureFormat => 401u16,
            _ => 400u16,
        }),
{
    match e {
        AuthError::SignatureTooShort | AuthError::InvalidSignatureFormat => 401,
        _ => 400,
    }
}

} // verus!
