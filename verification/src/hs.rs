//! Decisions for starting up an onion service: identity-key provisioning
//! and the once-only launch handoff.  The keystore itself and the task
//! machinery live outside the library; the rules for what to do with what
//! they report are verified here.

use vstd::prelude::*;

verus! {

/// An error while creating and starting a service.
#[derive(Clone, Copy, PartialEq, Eq, Structural, Debug)]
pub enum StartupError {
    /// A background task could not be spawned.
    Spawn,
    /// The keystore could not be read or written.
    Keystore,
    /// The keystore contents are inconsistent.
    KeystoreCorrupted,
    /// The service was already launched once.
    AlreadyLaunched,
}

/// An error that ends a running service for good.
#[derive(Clone, Copy, PartialEq, Eq, Structural, Debug)]
pub enum FatalError {
    /// A background task could not be spawned.
    Spawn,
    /// A programming defect or unrecoverable library failure.
    Bug,
}

/// An error while serving one client.
#[derive(Debug)]
pub enum ClientError {
    /// An introduction request could not be processed.
    BadIntroduce(String),
    /// A rendezvous circuit could not be connected.
    EstablishSession(String),
}

/// What identity-key provisioning should do next.
#[derive(Clone, Copy, PartialEq, Eq, Structural, Debug)]
pub enum HsIdSetupStep {
    /// Leave the keystore alone: the identity is managed offline.
    Nothing,
    /// Attempt to generate the identity keypair, without overwriting an
    /// existing one.
    Generate,
}

/// Decide what to do about the service identity key, from what the
/// keystore reports: with an offline identity nothing is done; a public
/// key without its keypair is a corrupt keystore (the identity is not
/// supposed to be offline, yet cannot be regenerated); otherwise a
/// generation attempt is made, which keeps any existing keypair.
pub fn plan_hsid_setup(has_keypair: bool, has_public: bool, offline_hsid: bool) -> (r: Result<
    HsIdSetupStep,
    StartupError,
>)
    ensures
        offline_hsid ==> r == Ok::<HsIdSetupStep, StartupError>(HsIdSetupStep::Nothing),
        !offline_hsid && !has_keypair && has_public ==> r == Err::<HsIdSetupStep, StartupError>(
            StartupError::KeystoreCorrupted,
        ),
        !offline_hsid && (has_keypair || !has_public) ==> r == Ok::<HsIdSetupStep, StartupError>(
            HsIdSetupStep::Generate,
        ),
{
    if offline_hsid {
        Ok(HsIdSetupStep::Nothing)
    } else if !has_keypair && has_public {
        Err(StartupError::KeystoreCorrupted)
    } else {
        Ok(HsIdSetupStep::Generate)
    }
}

/// Judge the result of a generation attempt: a keypair that was reported
/// generated but cannot be read back means the keystore is corrupt;
/// otherwise report whether a fresh identity was created (and should be
/// announced) or an existing one is being used.
pub fn confirm_hsid_generation(generated: bool, keypair_present: bool) -> (r: Result<
    bool,
    StartupError,
>)
    ensures
        generated && !keypair_present ==> r == Err::<bool, StartupError>(
            StartupError::KeystoreCorrupted,
        ),
        generated && keypair_present ==> r == Ok::<bool, StartupError>(true),
        !generated ==> r == Ok::<bool, StartupError>(false),
{
    if generated {
        if keypair_present {
            Ok(true)
        } else {
            Err(StartupError::KeystoreCorrupted)
        }
    } else {
        Ok(false)
    }
}

/// How a configuration change is to be applied.
#[derive(Clone, Copy, PartialEq, Eq, Structural, Debug)]
pub enum Reconfigure {
    /// Apply the whole change, or fail without changing anything.
    AllOrNothing,
    /// Only check that the whole change could be applied.
    CheckAllOrNothing,
    /// Apply what can be applied and warn about the rest.
    WarnOnFailures,
}

/// The configuration a service keeps after a validated change: the current
/// one when the change was only a check, the validated new one otherwise.
pub fn config_transition<T>(how: Reconfigure, current: T, validated: T) -> (r: T)
    ensures
        how is CheckAllOrNothing ==> r == current,
        !(how is CheckAllOrNothing) ==> r == validated,
{
    match how {
        Reconfigure::CheckAllOrNothing => current,
        Reconfigure::AllOrNothing => validated,
        Reconfigure::WarnOnFailures => validated,
    }
}

/// Take the launch handles out of their slot, exactly once: a second
/// launch finds the slot empty and is refused.
pub fn take_unlaunched<T>(slot: &mut Option<T>) -> (r: Result<T, StartupError>)
    ensures
        (match *old(slot) {
            Some(v) => r == Ok::<T, StartupError>(v) && (*final(slot)) is None,
            None => r == Err::<T, StartupError>(StartupError::AlreadyLaunched)
                && (*final(slot)) is None,
        }),
{
    match slot.take() {
        Some(v) => Ok(v),
        None => Err(StartupError::AlreadyLaunched),
    }
}

} // verus!
