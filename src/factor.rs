use vstd::prelude::*;

use crate::engine::code_for_step;
use crate::engine::accepted_step_is_newer;
use crate::engine::code_matches;
use crate::engine::current_code_accepted;
use crate::engine::current_code_replayed;
use crate::engine::step_of;
use crate::engine::validate_outcome;
use crate::engine::validate_totp_code_at;
use crate::error::TotpError;
use crate::secret::base32_encoded;
use crate::secret::generate_secret;
use crate::secret::is_valid_secret_text;
use crate::secret::secret_of;
use crate::secret::SECRET_LEN;
use vstd::string::StringSliceAdditionalSpecFns;

verus! {

/// The last-used step of a factor on which no code was ever accepted: below
/// every time-step that has a code.
pub const NO_STEP_USED: i64 = -1;

/// The authenticator factor of one account.
#[derive(Debug)]
pub enum FactorState {
    /// No factor exists.
    Unenrolled,
    /// A secret was handed out but no code for it was accepted yet; nothing
    /// is persisted in this state.
    Pending { key: String },
    /// An enabled factor, with its secret text and the newest time-step
    /// accepted for it.
    Active { key: String, last_used: i64 },
}

/// The last-used step that verification starts from in a given state.
pub open spec fn stored_step(state: FactorState) -> int {
    match state {
        FactorState::Active { last_used, .. } => last_used as int,
        _ => NO_STEP_USED as int,
    }
}

/// The verdict on activating `key` with `code` at time `now` from `state`.
pub open spec fn activation_outcome(
    state: FactorState,
    key: &str,
    code: Seq<char>,
    now: int,
    drift: int,
) -> Result<int, TotpError> {
    validate_outcome(key.spec_bytes(), code, stored_step(state), now, drift)
}

impl FactorState {
    /// The secret to show for enrollment, given a freshly generated one: the
    /// stored secret of an enabled factor, unchanged, or else `fresh`, which
    /// becomes the pending secret. The flag tells whether the factor is enabled.
    pub fn secret_for_enrollment(&mut self, fresh: String) -> (r: (bool, String))
        ensures
            match *old(self) {
                FactorState::Active { key, .. } => r.0 && r.1@ == key@ && *final(self) == *old(
                    self,
                ),
                _ => !r.0 && r.1@ == fresh@ && *final(self) == (FactorState::Pending { key: fresh }),
            },
    {
        match self {
            FactorState::Active { key, .. } => (true, key.clone()),
            _ => {
                let shown = fresh.clone();
                *self = FactorState::Pending { key: fresh };
                (false, shown)
            },
        }
    }

    /// Returns the secret of an enabled factor, or generates a fresh random
    /// one, which becomes pending.
    pub fn get_or_create_secret(&mut self) -> (r: (bool, String))
        ensures
            match *old(self) {
                FactorState::Active { key, .. } => r.0 && r.1@ == key@ && *final(self) == *old(
                    self,
                ),
                _ => !r.0 && (exists|raw: Seq<u8>|
                    raw.len() == SECRET_LEN && #[trigger] base32_encoded(raw) == r.1@)
                    && is_valid_secret_text(r.1@) && (
                (*final(self)) is Pending) && (*final(self))->Pending_key@ == r.1@,
            },
    {
        if let FactorState::Active { key, .. } = self {
            return (true, key.clone());
        }
        let fresh = generate_secret();
        self.secret_for_enrollment(fresh)
    }

    /// Activates the factor with secret text `key` and the code `code`
    /// submitted at time `now`. Verification starts from the last-used step
    /// of an enabled factor. On success the factor is enabled with `key` and
    /// the consumed step, which is newer than the step it held before; on
    /// failure it is left as it was.
    pub fn activate(&mut self, key: &str, code: &str, now: i64, drift_steps: u32) -> (r: Result<
        (),
        TotpError,
    >)
        ensures
            match r {
                Ok(()) => (*final(self)) is Active && (*final(self))->Active_key@ == key@ && activation_outcome(
                    *old(self),
                    key,
                    code@,
                    now as int,
                    drift_steps as int,
                ) == Ok::<int, TotpError>((*final(self))->Active_last_used as int)
                    && (*final(self))->Active_last_used > stored_step(*old(self)),
                Err(e) => activation_outcome(
                    *old(self),
                    key,
                    code@,
                    now as int,
                    drift_steps as int,
                ) == Err::<int, TotpError>(e) && *final(self) == *old(self),
            },
    {
        let last: i64 = match self {
            FactorState::Active { last_used, .. } => *last_used,
            _ => NO_STEP_USED,
        };
        let t = validate_totp_code_at(key, code, last, now, drift_steps)?;
        proof {
            accepted_step_is_newer(key.spec_bytes(), code@, last as int, now as int, drift_steps as int);
        }
        *self = FactorState::Active { key: key.to_owned(), last_used: t };
        Ok(())
    }

    /// Revokes the factor when `key` equals the stored secret text. Disabling
    /// a factor that is not enabled succeeds and changes nothing. Returns
    /// whether a factor was removed.
    pub fn disable(&mut self, key: &str) -> (r: Result<bool, TotpError>)
        ensures
            match *old(self) {
                FactorState::Active { key: stored, .. } => if stored@ == key@ {
                    r == Ok::<bool, TotpError>(true) && (*final(self)) is Unenrolled
                } else {
                    r == Err::<bool, TotpError>(TotpError::MismatchedKey) && *final(self) == *old(
                        self,
                    )
                },
                _ => r == Ok::<bool, TotpError>(false) && *final(self) == *old(self),
            },
    {
        let matches_stored = match self {
            FactorState::Active { key: stored, .. } => {
                let given = key.to_owned();
                if *stored == given {
                    true
                } else {
                    return Err(TotpError::MismatchedKey);
                }
            },
            _ => false,
        };
        if matches_stored {
            *self = FactorState::Unenrolled;
        }
        Ok(matches_stored)
    }

    /// Whether the factor is enabled.
    pub fn is_enabled(&self) -> (r: bool)
        ensures
            r == self is Active,
    {
        match self {
            FactorState::Active { .. } => true,
            _ => false,
        }
    }
}

/// Whether the account-wide second-factor policy must be enforced after a
/// revocation: it is when no factor of any kind remains.
pub fn needs_policy_enforcement(remaining_factors: usize) -> (r: bool)
    ensures
        r == (remaining_factors == 0),
{
    remaining_factors == 0
}

/// Enrolling with a valid secret and the code of the current time-step
/// activates the factor with that step; activating again with the same code
/// is then refused as a replay. This holds provided no earlier step of the
/// drift window has the same code.
pub proof fn activation_then_replay(state: FactorState, key: &str, now: i64, drift_steps: u32)
    requires
        !(state is Active),
        is_valid_secret_text(key@),
        now >= 0,
        forall|j: int|
            -drift_steps <= j < 0 ==> !code_matches(
                secret_of(key@),
                code_for_step(secret_of(key@), step_of(now as int)),
                #[trigger] (step_of(now as int) + j),
            ),
    ensures
        activation_outcome(
            state,
            key,
            code_for_step(secret_of(key@), step_of(now as int)),
            now as int,
            drift_steps as int,
        ) == Ok::<int, TotpError>(step_of(now as int)),
        forall|after: FactorState|
            after is Active && stored_step(after) == step_of(now as int) ==> #[trigger] activation_outcome(
                after,
                key,
                code_for_step(secret_of(key@), step_of(now as int)),
                now as int,
                drift_steps as int,
            ) == Err::<int, TotpError>(TotpError::ReplayedCode),
{
    let secret = secret_of(key@);
    assert(step_of(now as int) >= 0);
    current_code_accepted(secret, now, NO_STEP_USED, drift_steps);
    current_code_replayed(secret, now, drift_steps);
}

} // verus!
