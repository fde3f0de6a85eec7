//! The stored field values, the host-callback interface, and the setter
//! pipeline that every write goes through.

use vstd::prelude::*;
use crate::attributes::FieldAttributes;
use crate::error::{ChoicesError, ChoicesResult, ErrorModel};
use crate::value::{FieldModel, FieldValue};

verus! {

/// The mutable store of field values, one slot per declared field (skipped
/// fields keep a slot too), in declaration order. The store itself knows
/// nothing of locking: the embedding application wraps it in whatever the
/// schema's access discipline calls for.
#[derive(Debug, PartialEq, Eq)]
pub struct ConfigStore {
    pub values: Vec<FieldValue>,
}

impl View for ConfigStore {
    type V = Seq<FieldModel>;

    open spec fn view(&self) -> Seq<FieldModel> {
        self.values@.map_values(|v: FieldValue| v@)
    }
}

impl ConfigStore {
    /// Wraps the initial field values.
    pub fn new(values: Vec<FieldValue>) -> (r: ConfigStore)
        ensures
            r@ == values@.map_values(|v: FieldValue| v@),
    {
        ConfigStore { values }
    }

    /// How many field slots the store holds.
    pub fn len(&self) -> (r: usize)
        ensures
            r == self@.len(),
    {
        self.values.len()
    }

    /// The current value of slot `idx`.
    pub fn value_at(&self, idx: usize) -> (r: &FieldValue)
        requires
            idx < self@.len(),
        ensures
            r@ == self@[idx as int],
    {
        &self.values[idx]
    }

    /// Overwrites slot `idx` directly, bypassing the setter pipeline. This
    /// is the deliberate escape hatch for a caller that owns the store
    /// outright; writes that must respect validators and callbacks go
    /// through [`apply_set`].
    pub fn set_direct(&mut self, idx: usize, value: FieldValue)
        requires
            idx < old(self)@.len(),
        ensures
            final(self)@ == old(self)@.update(idx as int, value@),
    {
        let ghost prev = self.values@;
        self.values.set(idx, value);
        proof {
            assert(final(self)@ =~= old(self)@.update(idx as int, self.values@[idx as int]@));
        }
    }
}

/// The host application's side of the schema: validators and observation
/// callbacks, addressed by the identifiers carried in the field
/// attributes. Implementations live outside this crate; nothing here is
/// assumed about a validator's verdict.
pub trait CallbackHost {
    /// The verdict of validator `id` on a candidate value: `Err` carries
    /// the message the client sees, and the write is abandoned.
    fn validate(&self, id: u64, value: &FieldValue) -> (r: Result<(), String>);

    /// Observation callback `id`, run after validation and before the
    /// commit. It may rewrite other slots through the store's direct
    /// writes, but never changes the number of fields.
    fn on_set(&self, id: u64, value: &FieldValue, store: &mut ConfigStore)
        ensures
            final(store)@.len() == old(store)@.len(),
    ;
}

/// A host for schemas whose fields carry no callbacks at all.
pub struct NoCallbacks;

impl CallbackHost for NoCallbacks {
    fn validate(&self, id: u64, value: &FieldValue) -> (r: Result<(), String>) {
        Ok(())
    }

    fn on_set(&self, id: u64, value: &FieldValue, store: &mut ConfigStore) {
    }
}

/// The setter pipeline: the single write path shared by the HTTP write
/// handler and the programmatic setter. Strictly ordered and
/// short-circuiting: the validator may veto the write before anything is
/// touched; the observation callback then runs; the commit overwrites the
/// slot last, so a rejected or abandoned write never leaves a partial
/// state behind.
pub fn apply_set<H: CallbackHost>(
    store: &mut ConfigStore,
    idx: usize,
    value: FieldValue,
    host: &H,
    attrs: &FieldAttributes,
) -> (r: ChoicesResult<()>)
    requires
        idx < old(store)@.len(),
    ensures
        final(store)@.len() == old(store)@.len(),
        r matches Err(e) ==> final(store)@ == old(store)@ && (e@ matches
        ErrorModel::ValidationError(_)) && attrs.validator is Some,
        attrs.validator is None ==> r is Ok,
        r is Ok ==> final(store)@[idx as int] == value@,
        r is Ok && attrs.on_set is None ==> final(store)@ == old(store)@.update(
            idx as int,
            value@,
        ),
{
    match attrs.validator {
        Some(vid) => {
            match host.validate(vid, &value) {
                Err(m) => {
                    return Err(ChoicesError::ValidationError(m));
                },
                Ok(_) => {
                },
            }
        },
        None => {
        },
    }
    match attrs.on_set {
        Some(cid) => {
            host.on_set(cid, &value, store);
        },
        None => {
        },
    }
    store.set_direct(idx, value);
    Ok(())
}

} // verus!
