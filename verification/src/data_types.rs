//! Primitive and general-purpose data types: validated string scalars and
//! plain composite value objects.
pub mod address;
pub mod code;
pub mod codeable_concept;
pub mod contact_point;
pub mod reference;
pub mod uri;
