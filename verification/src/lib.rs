//! Typed clinical-record resources: validated primitive value types,
//! composite value objects, resource trees, and a verified encoder and
//! decoder for a JSON-shaped representation with a proved round-trip law.
use vstd::prelude::*;

pub mod account;
pub mod account_balance;
pub mod account_coverage;
pub mod account_diagnosis;
pub mod account_guarantor;
pub mod account_procedure;
pub mod account_related_account;
pub mod data_types;
pub mod human_name;
pub mod identifier;
pub mod json;
pub mod money;
pub mod patient;
pub mod patient_communication;
pub mod patient_contact;
pub mod patient_link;
pub mod period;
pub mod text;

verus! {

pub fn add(left: u64, right: u64) -> (r: u64)
    requires
        left + right <= u64::MAX,
    ensures
        r == left + right,
{
    left + right
}

} // verus!
