//! The group bootstrapper's decision logic: a consumer group is created
//! once per watched key before the first read, and a backend refusal that
//! only says "the group already exists" counts as success.

use vstd::prelude::*;

use crate::backend::{BackendError, BackendErrorModel};
use crate::error::BusError;

verus! {

/// How one group-create call ended, as the engine classifies it.
#[derive(Clone, Copy, Debug, PartialEq, Eq, Structural)]
pub enum BootstrapOutcome {
    /// the group (and the stream, if absent) was created now
    Created,
    /// the group was already there; bootstrap is idempotent, so this is
    /// success, logged at debug level
    AlreadyExisted,
    /// a genuine failure; it is logged, but must not keep the engine from
    /// reading this or any other key
    Failed,
}

/// The spec-level classification of a group-create result.
pub open spec fn spec_bootstrap_outcome(r: Result<(), BackendErrorModel>) -> BootstrapOutcome {
    match r {
        Ok(()) => BootstrapOutcome::Created,
        Err(e) => if e.busy_group {
            BootstrapOutcome::AlreadyExisted
        } else {
            BootstrapOutcome::Failed
        },
    }
}

/// The classification an outcome maps onto success: created and
/// already-existed both leave the key readable.
pub open spec fn spec_bootstrap_success(o: BootstrapOutcome) -> bool {
    o != BootstrapOutcome::Failed
}

/// Classifies the result of one "create consumer group, creating the
/// stream if absent" call: success, tolerated "already exists", or a
/// genuine failure.
pub fn bootstrap_outcome(r: &Result<(), BackendError>) -> (o: BootstrapOutcome)
    ensures
        o == spec_bootstrap_outcome(match r {
            Ok(()) => Ok(()),
            Err(e) => Err(e@),
        }),
{
    match r {
        Ok(()) => BootstrapOutcome::Created,
        Err(e) => {
            if e.busy_group {
                BootstrapOutcome::AlreadyExisted
            } else {
                BootstrapOutcome::Failed
            }
        },
    }
}

/// The bootstrapper's verdict on one key, as its callers consume it. The
/// group-create call itself is the driver's to make; this function decides:
/// a created group and an already-existing one are both success, anything
/// else is the bootstrap failure of the error taxonomy — which the engine
/// logs and moves past, never letting one key block the others.
pub fn ensure_group(r: Result<(), BackendError>) -> (out: Result<(), BusError>)
    ensures
        out is Ok <==> spec_bootstrap_success(spec_bootstrap_outcome(match r {
            Ok(()) => Ok(()),
            Err(e) => Err(e@),
        })),
        out matches Err(b) ==> (b matches BusError::Bootstrap { msg } && (r matches Err(e) && msg@
            == e.message@)),
        !(out matches Err(b) && b.spec_is_fatal()),
{
    match r {
        Ok(()) => Ok(()),
        Err(e) => {
            if e.busy_group {
                Ok(())
            } else {
                Err(BusError::Bootstrap { msg: e.message })
            }
        },
    }
}

/// Whether an outcome counts as success for the idempotent bootstrap.
pub fn bootstrap_succeeded(o: BootstrapOutcome) -> (r: bool)
    ensures
        r == spec_bootstrap_success(o),
{
    match o {
        BootstrapOutcome::Created => true,
        BootstrapOutcome::AlreadyExisted => true,
        BootstrapOutcome::Failed => false,
    }
}

} // verus!
