use vstd::prelude::*;

use crate::error::TotpError;
use crate::secret::decode_outcome;
use crate::secret::decode_secret;
use vstd::string::StrSliceExecFns;
use vstd::string::StringSliceAdditionalSpecFns;

verus! {

/// Length in seconds of one time-step.
pub const STEP_SECONDS: u64 = 30;

/// Number of decimal digits of a one-time code.
pub const CODE_DIGITS: u32 = 6;

/// What `totp_lite::totp_custom::<Sha1>(step, digits, secret, time)` gives.
pub uninterp spec fn totp_sha1_code(step: u64, digits: u32, secret: Seq<u8>, time: u64) -> Seq<char>;

/// Relies on `totp_lite::totp_custom` with SHA-1: the HMAC-based one-time code
/// of `digits` decimal digits for the time-step holding `time`. It divides by
/// `step` and raises ten to `digits`, so both are bounded here.
#[verifier::external_body]
fn totp_sha1(step: u64, digits: u32, secret: &[u8], time: u64) -> (r: String)
    requires
        step > 0,
        digits <= 19,
    ensures
        r@ == totp_sha1_code(step, digits, secret@, time),
{
    totp_lite::totp_custom::<totp_lite::Sha1>(step, digits, secret, time)
}

/// What `char::is_numeric` says of a character.
pub uninterp spec fn numeric_char(c: char) -> bool;

/// Relies on `char::is_numeric`: whether the character has a Unicode
/// numeric general category. Among ASCII characters only the decimal digits
/// have one.
#[verifier::external_body]
fn char_is_numeric(c: char) -> (r: bool)
    ensures
        r == numeric_char(c),
        (c as u32) < 128 ==> (r <==> ('0' <= c && c <= '9')),
{
    c.is_numeric()
}

/// Relies on `chrono::Utc::now` and `DateTime::timestamp`: the seconds since
/// the Unix epoch on the system clock. `Utc::now` panics on a clock set
/// before the epoch, so a value that comes back is not negative.
#[verifier::external_body]
fn unix_time_now() -> (r: i64)
    ensures
        r >= 0,
{
    chrono::Utc::now().timestamp()
}

/// The time-step that holds the instant `now` (seconds since the epoch).
pub open spec fn step_of(now: int) -> int {
    now / (STEP_SECONDS as int)
}

/// A time-step whose first second fits the generator's `u64` clock.
pub open spec fn step_has_code(t: int) -> bool {
    0 <= t <= u64::MAX / STEP_SECONDS
}

/// The one-time code of a secret for time-step `t`, generated at the
/// step's first second.
pub open spec fn code_for_step(secret: Seq<u8>, t: int) -> Seq<char> {
    totp_sha1_code(STEP_SECONDS, CODE_DIGITS, secret, (t * STEP_SECONDS) as u64)
}

/// Whether `code` is the code of time-step `t`.
pub open spec fn code_matches(secret: Seq<u8>, code: Seq<char>, t: int) -> bool {
    step_has_code(t) && code_for_step(secret, t) == code
}

/// The scan of the drift window from `offset` up to `drift` around `base`:
/// the first step that matches decides, accepted when it is newer than `last`.
pub open spec fn scan_outcome(
    secret: Seq<u8>,
    code: Seq<char>,
    last: int,
    base: int,
    offset: int,
    drift: int,
) -> Result<int, TotpError>
    decreases drift + 1 - offset,
{
    if offset > drift {
        Err(TotpError::InvalidCode)
    } else if code_matches(secret, code, base + offset) {
        if base + offset > last {
            Ok(base + offset)
        } else {
            Err(TotpError::ReplayedCode)
        }
    } else {
        scan_outcome(secret, code, last, base, offset + 1, drift)
    }
}

/// The verdict on `code` at time `now`: the newly consumed time-step, or why
/// the code is refused.
pub open spec fn verify_outcome(
    secret: Seq<u8>,
    code: Seq<char>,
    last: int,
    now: int,
    drift: int,
) -> Result<int, TotpError> {
    scan_outcome(secret, code, last, step_of(now), -drift, drift)
}

/// The verdict on `code` for a secret given as text.
pub open spec fn validate_outcome(
    secret_text: Seq<u8>,
    code: Seq<char>,
    last: int,
    now: int,
    drift: int,
) -> Result<int, TotpError> {
    match decode_outcome(secret_text) {
        Ok(secret) => verify_outcome(secret, code, last, now, drift),
        Err(e) => Err(e),
    }
}

/// Whether an executable verdict, with its step as `i64`, is the verdict `o`.
pub open spec fn agrees(r: Result<i64, TotpError>, o: Result<int, TotpError>) -> bool {
    match r {
        Ok(t) => o == Ok::<int, TotpError>(t as int),
        Err(e) => o == Err::<int, TotpError>(e),
    }
}

/// Whether every character of the code is numeric.
pub open spec fn all_numeric(code: Seq<char>) -> bool {
    forall|i: int| 0 <= i < code.len() ==> numeric_char(#[trigger] code[i])
}

/// Verifies a submitted code against a raw secret at time `now`, accepting the
/// steps within `drift_steps` of the current one. On success returns the
/// time-step consumed, which must be stored as the new last-used step.
pub fn verify_code(secret: &[u8], code: &str, last_used: i64, now: i64, drift_steps: u32) -> (r:
    Result<i64, TotpError>)
    ensures
        agrees(r, verify_outcome(secret@, code@, last_used as int, now as int, drift_steps as int)),
{
    let base: i64 = if now >= 0 {
        ((now as u64) / STEP_SECONDS) as i64
    } else {
        let m: u64 = (-(now + 1)) as u64;
        -((m / STEP_SECONDS) as i64) - 1
    };
    assert(base == step_of(now as int)) by (nonlinear_arith)
        requires
            now >= 0 ==> base == (now as u64) / 30,
            now < 0 ==> base == -((-(now + 1)) / 30) - 1,
    ;
    let d: i64 = drift_steps as i64;
    let submitted = code.to_owned();
    let mut offset: i64 = -d;
    while offset <= d
        invariant
            -d <= offset <= d + 1,
            d == drift_steps as int,
            base == step_of(now as int),
            submitted@ == code@,
            i64::MIN / 30 - 1 <= base <= i64::MAX / 30,
            scan_outcome(secret@, code@, last_used as int, base as int, -d as int, d as int)
                == scan_outcome(secret@, code@, last_used as int, base as int, offset as int, d as int),
        decreases d + 1 - offset,
    {
        let t: i64 = base + offset;
        if t >= 0 && (t as u64) <= u64::MAX / STEP_SECONDS {
            let time: u64 = (t as u64) * STEP_SECONDS;
            assert(time == (t * 30) as u64) by (nonlinear_arith)
                requires
                    time == (t as u64) * 30,
                    0 <= t,
                    t * 30 <= u64::MAX,
            ;
            let generated = totp_sha1(STEP_SECONDS, CODE_DIGITS, secret, time);
            if generated == submitted {
                if t > last_used {
                    return Ok(t);
                } else {
                    return Err(TotpError::ReplayedCode);
                }
            }
        }
        offset = offset + 1;
    }
    Err(TotpError::InvalidCode)
}

/// Verifies a code against a secret given as base32 text at time `now`. A
/// secret text that does not decode to a valid secret is refused before any
/// code is computed.
pub fn validate_totp_code_at(
    secret_text: &str,
    code: &str,
    last_used: i64,
    now: i64,
    drift_steps: u32,
) -> (r: Result<i64, TotpError>)
    ensures
        agrees(
            r,
            validate_outcome(secret_text.spec_bytes(), code@, last_used as int, now as int, drift_steps as int),
        ),
{
    let secret = decode_secret(secret_text)?;
    verify_code(secret.as_slice(), code, last_used, now, drift_steps)
}

/// Verifies a code against a secret given as base32 text at the present time
/// of the system clock. The verdict is the one of `validate_totp_code_at` for
/// the instant that the clock gave.
pub fn validate_totp_code(secret_text: &str, code: &str, last_used: i64, drift_steps: u32) -> (r:
    Result<i64, TotpError>)
    ensures
        decode_outcome(secret_text.spec_bytes()) is Err ==> r == Err::<i64, TotpError>(
            TotpError::InvalidSecretFormat,
        ),
        exists|now: i64|
            #[trigger] agrees(
                r,
                validate_outcome(secret_text.spec_bytes(), code@, last_used as int, now as int, drift_steps as int),
            ),
{
    let now = unix_time_now();
    validate_totp_code_at(secret_text, code, last_used, now, drift_steps)
}

/// Whether a submitted code consists of numeric characters only.
pub fn is_numeric_code(code: &str) -> (r: bool)
    ensures
        r == all_numeric(code@),
{
    let n = code.unicode_len();
    let mut i: usize = 0;
    while i < n
        invariant
            n == code@.len(),
            i <= n,
            forall|j: int| 0 <= j < i ==> numeric_char(#[trigger] code@[j]),
        decreases n - i,
    {
        if !char_is_numeric(code.get_char(i)) {
            return false;
        }
        i = i + 1;
    }
    true
}

/// Verifies a code typed by a user at the present time: a code that is not
/// purely numeric is refused before the secret is looked at.
pub fn validate_totp_code_str(secret_text: &str, code: &str, last_used: i64, drift_steps: u32) -> (r:
    Result<i64, TotpError>)
    ensures
        !all_numeric(code@) ==> r == Err::<i64, TotpError>(TotpError::InvalidCodeFormat),
        all_numeric(code@) && decode_outcome(secret_text.spec_bytes()) is Err ==> r == Err::<
            i64,
            TotpError,
        >(TotpError::InvalidSecretFormat),
        all_numeric(code@) ==> exists|now: i64|
            #[trigger] agrees(
                r,
                validate_outcome(secret_text.spec_bytes(), code@, last_used as int, now as int, drift_steps as int),
            ),
{
    if !is_numeric_code(code) {
        return Err(TotpError::InvalidCodeFormat);
    }
    validate_totp_code(secret_text, code, last_used, drift_steps)
}

/// A scan accepts only a step newer than `last`.
proof fn lemma_scan_newer(
    secret: Seq<u8>,
    code: Seq<char>,
    last: int,
    base: int,
    offset: int,
    drift: int,
)
    ensures
        scan_outcome(secret, code, last, base, offset, drift) is Ok ==> scan_outcome(
            secret,
            code,
            last,
            base,
            offset,
            drift,
        )->Ok_0 > last,
    decreases drift + 1 - offset,
{
    if offset <= drift && !code_matches(secret, code, base + offset) {
        lemma_scan_newer(secret, code, last, base, offset + 1, drift);
    }
}

/// A step accepted for a secret given as text is always newer than the last
/// one used, so the last-used step of a factor only rises.
pub proof fn accepted_step_is_newer(
    secret_text: Seq<u8>,
    code: Seq<char>,
    last: int,
    now: int,
    drift: int,
)
    ensures
        validate_outcome(secret_text, code, last, now, drift) is Ok ==> validate_outcome(
            secret_text,
            code,
            last,
            now,
            drift,
        )->Ok_0 > last,
{
    if let Ok(secret) = decode_outcome(secret_text) {
        lemma_scan_newer(secret, code, last, step_of(now), -drift, drift);
    }
}

/// The scan stops at the first step of the window that matches.
proof fn lemma_scan_first_match(
    secret: Seq<u8>,
    code: Seq<char>,
    last: int,
    base: int,
    offset: int,
    drift: int,
    k: int,
)
    requires
        offset <= k <= drift,
        code_matches(secret, code, base + k),
        forall|j: int| offset <= j < k ==> !code_matches(secret, code, #[trigger] (base + j)),
    ensures
        scan_outcome(secret, code, last, base, offset, drift) == if base + k > last {
            Ok::<int, TotpError>(base + k)
        } else {
            Err::<int, TotpError>(TotpError::ReplayedCode)
        },
    decreases k - offset,
{
    if offset < k {
        assert(!code_matches(secret, code, base + offset));
        lemma_scan_first_match(secret, code, last, base, offset + 1, drift, k);
    }
}

/// A window in which no step matches refuses the code as invalid.
proof fn lemma_scan_no_match(
    secret: Seq<u8>,
    code: Seq<char>,
    last: int,
    base: int,
    offset: int,
    drift: int,
)
    requires
        forall|j: int| offset <= j <= drift ==> !code_matches(secret, code, #[trigger] (base + j)),
    ensures
        scan_outcome(secret, code, last, base, offset, drift) == Err::<int, TotpError>(
            TotpError::InvalidCode,
        ),
    decreases drift + 1 - offset,
{
    if offset <= drift {
        assert(!code_matches(secret, code, base + offset));
        lemma_scan_no_match(secret, code, last, base, offset + 1, drift);
    }
}

/// A code that matches some step no newer than `last` can never be accepted.
proof fn lemma_scan_replayed(
    secret: Seq<u8>,
    code: Seq<char>,
    last: int,
    base: int,
    offset: int,
    drift: int,
    k: int,
)
    requires
        offset <= k <= drift,
        code_matches(secret, code, base + k),
        base + k <= last,
    ensures
        scan_outcome(secret, code, last, base, offset, drift) == Err::<int, TotpError>(
            TotpError::ReplayedCode,
        ),
    decreases k - offset,
{
    if offset < k && !code_matches(secret, code, base + offset) {
        lemma_scan_replayed(secret, code, last, base, offset + 1, drift, k);
    }
}

/// The code of the current time-step is accepted while that step is newer
/// than the last one used, and the current step is returned, provided no
/// earlier step of the window has the same code.
pub proof fn current_code_accepted(secret: Seq<u8>, now: i64, last_used: i64, drift_steps: u32)
    requires
        secret.len() == 20,
        now >= 0,
        last_used < step_of(now as int),
        forall|j: int|
            -drift_steps <= j < 0 ==> !code_matches(
                secret,
                code_for_step(secret, step_of(now as int)),
                #[trigger] (step_of(now as int) + j),
            ),
    ensures
        verify_outcome(
            secret,
            code_for_step(secret, step_of(now as int)),
            last_used as int,
            now as int,
            drift_steps as int,
        ) == Ok::<int, TotpError>(step_of(now as int)),
{
    let base = step_of(now as int);
    assert(step_has_code(base + 0));
    lemma_scan_first_match(
        secret,
        code_for_step(secret, base),
        last_used as int,
        base,
        -drift_steps,
        drift_steps as int,
        0,
    );
}

/// Once the current time-step is recorded as used, its code is refused as a
/// replay.
pub proof fn current_code_replayed(secret: Seq<u8>, now: i64, drift_steps: u32)
    requires
        now >= 0,
    ensures
        verify_outcome(
            secret,
            code_for_step(secret, step_of(now as int)),
            step_of(now as int),
            now as int,
            drift_steps as int,
        ) == Err::<int, TotpError>(TotpError::ReplayedCode),
{
    let base = step_of(now as int);
    assert(step_has_code(base + 0));
    lemma_scan_replayed(
        secret,
        code_for_step(secret, base),
        base,
        base,
        -drift_steps,
        drift_steps as int,
        0,
    );
}

/// With a drift of one step, the code of the previous or of the next step is
/// accepted once and then refused as a replay, provided no earlier step of the
/// window has the same code and the step is newer than the last one used.
pub proof fn adjacent_code_accepted_once(secret: Seq<u8>, now: i64, last_used: i64, offset: int)
    requires
        secret.len() == 20,
        offset == -1 || offset == 1,
        step_has_code(step_of(now as int) + offset),
        last_used < step_of(now as int) + offset,
        forall|j: int|
            -1 <= j < offset ==> !code_matches(
                secret,
                code_for_step(secret, step_of(now as int) + offset),
                #[trigger] (step_of(now as int) + j),
            ),
    ensures
        verify_outcome(
            secret,
            code_for_step(secret, step_of(now as int) + offset),
            last_used as int,
            now as int,
            1,
        ) == Ok::<int, TotpError>(step_of(now as int) + offset),
        verify_outcome(
            secret,
            code_for_step(secret, step_of(now as int) + offset),
            step_of(now as int) + offset,
            now as int,
            1,
        ) == Err::<int, TotpError>(TotpError::ReplayedCode),
{
    let base = step_of(now as int);
    let code = code_for_step(secret, base + offset);
    lemma_scan_first_match(secret, code, last_used as int, base, -1, 1, offset);
    lemma_scan_replayed(secret, code, base + offset, base, -1, 1, offset);
}

/// With a drift of one step, the code of the step two back is refused as
/// invalid, provided no step of the window has the same code.
pub proof fn two_steps_back_rejected(secret: Seq<u8>, now: i64, last_used: i64)
    requires
        forall|j: int|
            -1 <= j <= 1 ==> !code_matches(
                secret,
                code_for_step(secret, step_of(now as int) - 2),
                #[trigger] (step_of(now as int) + j),
            ),
    ensures
        verify_outcome(
            secret,
            code_for_step(secret, step_of(now as int) - 2),
            last_used as int,
            now as int,
            1,
        ) == Err::<int, TotpError>(TotpError::InvalidCode),
{
    let base = step_of(now as int);
    lemma_scan_no_match(secret, code_for_step(secret, base - 2), last_used as int, base, -1, 1);
}

/// Without drift, only the code of the current step is accepted: the code of
/// a neighbouring step that differs from it is refused as invalid.
pub proof fn no_drift_exact_step(secret: Seq<u8>, code: Seq<char>, now: i64, last_used: i64)
    ensures
        verify_outcome(secret, code, last_used as int, now as int, 0) is Ok <==> (code_matches(
            secret,
            code,
            step_of(now as int),
        ) && last_used < step_of(now as int)),
        verify_outcome(secret, code, last_used as int, now as int, 0) is Ok ==> verify_outcome(
            secret,
            code,
            last_used as int,
            now as int,
            0,
        ) == Ok::<int, TotpError>(step_of(now as int)),
        forall|j: int|
            (j == -1 || j == 1) && code_for_step(secret, step_of(now as int) + j) != code_for_step(
                secret,
                step_of(now as int),
            ) ==> verify_outcome(
                secret,
                #[trigger] code_for_step(secret, step_of(now as int) + j),
                last_used as int,
                now as int,
                0,
            ) == Err::<int, TotpError>(TotpError::InvalidCode),
{
    let base = step_of(now as int);
    reveal_with_fuel(scan_outcome, 2);
    assert forall|j: int|
        (j == -1 || j == 1) && code_for_step(secret, base + j) != code_for_step(secret, base)
            implies verify_outcome(
            secret,
            #[trigger] code_for_step(secret, base + j),
            last_used as int,
            now as int,
            0,
        ) == Err::<int, TotpError>(TotpError::InvalidCode) by {
        assert(base + 0 == base);
        assert(!code_matches(secret, code_for_step(secret, base + j), base + 0));
        lemma_scan_no_match(secret, code_for_step(secret, base + j), last_used as int, base, 0, 0);
    }
}

} // verus!
