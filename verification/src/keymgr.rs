//! A no-op key manager: the stand-in used when no key store is compiled
//! in.  Every lookup finds nothing and every update succeeds.

use vstd::prelude::*;

verus! {

/// The kind of an error, for reporting.
#[derive(Clone, Copy, PartialEq, Eq, Structural, Debug)]
pub enum ErrorKind {
    /// An uncategorized error.
    Other,
}

/// The error of the no-op key manager: the key store is not available.
#[derive(Clone, Copy, PartialEq, Eq, Structural, Debug)]
pub struct Error;

impl Error {
    /// The kind of this error.
    pub fn kind(&self) -> (r: ErrorKind)
        ensures
            r == ErrorKind::Other,
    {
        ErrorKind::Other
    }
}

/// Designates which key is meant; carries nothing, since the no-op
/// manager never looks.
#[derive(Clone, Copy, PartialEq, Eq, Structural, Debug)]
pub struct KeySpecifier;

/// The no-op key manager.
#[derive(Clone, Copy, PartialEq, Eq, Structural, Debug)]
pub struct KeyMgr;

impl KeyMgr {
    /// Look a key up; always behaves as if it were not found.
    pub fn get<K>(&self, _spec: &KeySpecifier) -> (r: Result<Option<K>, Error>)
        ensures
            (r matches Ok(v) && v is None),
    {
        Ok(None)
    }

    /// Store a key; always behaves as if the store succeeded.
    pub fn insert<K>(&self, _key: K, _spec: &KeySpecifier) -> (r: Result<(), Error>)
        ensures
            r == Ok::<(), Error>(()),
    {
        Ok(())
    }

    /// Remove a key; always behaves as if the removal succeeded.
    pub fn remove<K>(&self, _spec: &KeySpecifier) -> (r: Result<(), Error>)
        ensures
            r == Ok::<(), Error>(()),
    {
        Ok(())
    }
}

} // verus!
