//! The access-discipline adapter: which acquisition each request side
//! performs, for each lock kind the schema can choose.

use vstd::prelude::*;
use crate::attributes::LockKind;

verus! {

/// How a handler obtains the store for one request: directly (the caller
/// guarantees exclusivity by construction), through the single mutual
/// exclusion lock, or through one side of the reader/writer lock.
#[derive(Debug, Clone, Copy, PartialEq, Eq)]
pub enum AccessMode {
    Direct,
    Mutex,
    RwRead,
    RwWrite,
}

/// The acquisition a read handler performs under each lock kind.
pub open spec fn read_access_spec(k: LockKind) -> AccessMode {
    match k {
        LockKind::Unshared => AccessMode::Direct,
        LockKind::Exclusive => AccessMode::Mutex,
        LockKind::ReadWrite => AccessMode::RwRead,
    }
}

/// The acquisition a write handler performs under each lock kind.
pub open spec fn write_access_spec(k: LockKind) -> AccessMode {
    match k {
        LockKind::Unshared => AccessMode::Direct,
        LockKind::Exclusive => AccessMode::Mutex,
        LockKind::ReadWrite => AccessMode::RwWrite,
    }
}

/// Selects the acquisition for a read.
pub fn read_access(k: LockKind) -> (m: AccessMode)
    ensures
        m == read_access_spec(k),
{
    match k {
        LockKind::Unshared => AccessMode::Direct,
        LockKind::Exclusive => AccessMode::Mutex,
        LockKind::ReadWrite => AccessMode::RwRead,
    }
}

/// Selects the acquisition for a write.
pub fn write_access(k: LockKind) -> (m: AccessMode)
    ensures
        m == write_access_spec(k),
{
    match k {
        LockKind::Unshared => AccessMode::Direct,
        LockKind::Exclusive => AccessMode::Mutex,
        LockKind::ReadWrite => AccessMode::RwWrite,
    }
}

/// Under the exclusive discipline, reads take the very same lock as
/// writes, so all accesses to one instance are serialized.
pub proof fn lemma_exclusive_serializes()
    ensures
        read_access_spec(LockKind::Exclusive) == write_access_spec(LockKind::Exclusive),
{
}

} // verus!
