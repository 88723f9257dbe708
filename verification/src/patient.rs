//! The `Patient` resource: demographics and administrative data.
use crate::json::{DecodeError, Json, JsonV, arr_view, decode_str_arr, encode_str_arr, entries_view, group_json_views, lemma_str_all_round_trip, lookup, put_json, put_opt_bool, put_opt_i32, put_opt_str, put_str, seq_views, spec_decode_str_all, spec_encode_str_all, spec_opt_bool, spec_opt_i32, spec_opt_str, spec_req_arr, spec_req_str, take_opt_bool, take_opt_i32, take_opt_str, take_req_arr, take_req_str, spec_write_json, write_json};
use crate::data_types::address::{Address, AddressV, decode_address_arr, encode_address_arr, lemma_address_all_round_trip, lemma_address_round_trip, spec_decode_address_all, spec_encode_address, spec_encode_address_all};
use crate::data_types::codeable_concept::{CodeableConcept, CodeableConceptV, lemma_codeable_concept_round_trip, spec_encode_codeable_concept, spec_opt_codeable_concept, take_opt_codeable_concept};
use crate::data_types::contact_point::{ContactPoint, ContactPointV, decode_contact_point_arr, encode_contact_point_arr, lemma_contact_point_all_round_trip, lemma_contact_point_round_trip, spec_decode_contact_point_all, spec_encode_contact_point, spec_encode_contact_point_all};
use crate::data_types::reference::{Reference, ReferenceV, decode_reference_arr, encode_reference_arr, lemma_reference_all_round_trip, lemma_reference_round_trip, spec_decode_reference_all, spec_encode_reference, spec_encode_reference_all, spec_opt_reference, take_opt_reference};
use crate::human_name::{HumanName, HumanNameV, decode_human_name_arr, encode_human_name_arr, lemma_human_name_all_round_trip, lemma_human_name_round_trip, spec_decode_human_name_all, spec_encode_human_name, spec_encode_human_name_all};
use crate::identifier::{Identifier, IdentifierV, decode_identifier_arr, encode_identifier_arr, lemma_identifier_all_round_trip, lemma_identifier_round_trip, spec_decode_identifier_all, spec_encode_identifier, spec_encode_identifier_all};
use crate::patient_communication::{PatientCommunication, PatientCommunicationV, decode_patient_communication_arr, encode_patient_communication_arr, lemma_patient_communication_all_round_trip, lemma_patient_communication_round_trip, spec_decode_patient_communication_all, spec_encode_patient_communication, spec_encode_patient_communication_all};
use crate::patient_contact::{PatientContact, PatientContactV, decode_patient_contact_arr, encode_patient_contact_arr, lemma_patient_contact_all_round_trip, lemma_patient_contact_round_trip, spec_decode_patient_contact_all, spec_encode_patient_contact, spec_encode_patient_contact_all};
use crate::patient_link::{PatientLink, PatientLinkV, decode_patient_link_arr, encode_patient_link_arr, lemma_patient_link_all_round_trip, lemma_patient_link_round_trip, spec_decode_patient_link_all, spec_encode_patient_link, spec_encode_patient_link_all};
use vstd::prelude::*;

verus! {

/// A patient resource: demographics and administrative information.
#[derive(Debug, Clone, PartialEq)]
pub struct Patient {
    resource_type: String,
    identifier: Vec<Identifier>,
    active: Option<bool>,
    name: Vec<HumanName>,
    telecom: Vec<ContactPoint>,
    gender: Option<String>,
    birth_date: Option<String>,
    deceased_boolean: Option<bool>,
    deceased_date_time: Option<String>,
    address: Vec<Address>,
    marital_status: Option<CodeableConcept>,
    multiple_birth_boolean: Option<bool>,
    multiple_birth_integer: Option<i32>,
    photo: Vec<String>,
    contact: Vec<PatientContact>,
    communication: Vec<PatientCommunication>,
    general_practitioner: Vec<Reference>,
    managing_organization: Option<Reference>,
    link: Vec<PatientLink>,
}

/// The mathematical shape of a `Patient` value.
pub struct PatientV {
    pub resource_type: Seq<char>,
    pub identifier: Seq<IdentifierV>,
    pub active: Option<bool>,
    pub name: Seq<HumanNameV>,
    pub telecom: Seq<ContactPointV>,
    pub gender: Option<Seq<char>>,
    pub birth_date: Option<Seq<char>>,
    pub deceased_boolean: Option<bool>,
    pub deceased_date_time: Option<Seq<char>>,
    pub address: Seq<AddressV>,
    pub marital_status: Option<CodeableConceptV>,
    pub multiple_birth_boolean: Option<bool>,
    pub multiple_birth_integer: Option<i32>,
    pub photo: Seq<Seq<char>>,
    pub contact: Seq<PatientContactV>,
    pub communication: Seq<PatientCommunicationV>,
    pub general_practitioner: Seq<ReferenceV>,
    pub managing_organization: Option<ReferenceV>,
    pub link: Seq<PatientLinkV>,
}

impl View for Patient {
    type V = PatientV;

    closed spec fn view(&self) -> PatientV {
        PatientV {
            resource_type: self.resource_type@,
            identifier: seq_views(self.identifier@),
            active: self.active,
            name: seq_views(self.name@),
            telecom: seq_views(self.telecom@),
            gender: match self.gender {
                Option::Some(ref s) => Option::Some(s@),
                Option::None => Option::None,
            },
            birth_date: match self.birth_date {
                Option::Some(ref s) => Option::Some(s@),
                Option::None => Option::None,
            },
            deceased_boolean: self.deceased_boolean,
            deceased_date_time: match self.deceased_date_time {
                Option::Some(ref s) => Option::Some(s@),
                Option::None => Option::None,
            },
            address: seq_views(self.address@),
            marital_status: match self.marital_status {
                Option::Some(ref x) => Option::Some(x@),
                Option::None => Option::None,
            },
            multiple_birth_boolean: self.multiple_birth_boolean,
            multiple_birth_integer: self.multiple_birth_integer,
            photo: seq_views(self.photo@),
            contact: seq_views(self.contact@),
            communication: seq_views(self.communication@),
            general_practitioner: seq_views(self.general_practitioner@),
            managing_organization: match self.managing_organization {
                Option::Some(ref x) => Option::Some(x@),
                Option::None => Option::None,
            },
            link: seq_views(self.link@),
        }
    }
}

impl Patient {
    /// A patient with its kind label set and everything else absent.
    pub fn new() -> (r: Patient)
        ensures
            r@ == (PatientV {
                resource_type: ("Patient")@,
                identifier: Seq::empty(),
                active: Option::None,
                name: Seq::empty(),
                telecom: Seq::empty(),
                gender: Option::None,
                birth_date: Option::None,
                deceased_boolean: Option::None,
                deceased_date_time: Option::None,
                address: Seq::empty(),
                marital_status: Option::None,
                multiple_birth_boolean: Option::None,
                multiple_birth_integer: Option::None,
                photo: Seq::empty(),
                contact: Seq::empty(),
                communication: Seq::empty(),
                general_practitioner: Seq::empty(),
                managing_organization: Option::None,
                link: Seq::empty(),
            }),
    {
        broadcast use group_json_views;

        let r = Patient {
            resource_type: String::from_str("Patient"),
            identifier: Vec::new(),
            active: Option::None,
            name: Vec::new(),
            telecom: Vec::new(),
            gender: Option::None,
            birth_date: Option::None,
            deceased_boolean: Option::None,
            deceased_date_time: Option::None,
            address: Vec::new(),
            marital_status: Option::None,
            multiple_birth_boolean: Option::None,
            multiple_birth_integer: Option::None,
            photo: Vec::new(),
            contact: Vec::new(),
            communication: Vec::new(),
            general_practitioner: Vec::new(),
            managing_organization: Option::None,
            link: Vec::new(),
        };
        proof {
            assert(r@.identifier =~= Seq::<IdentifierV>::empty());
            assert(r@.name =~= Seq::<HumanNameV>::empty());
            assert(r@.telecom =~= Seq::<ContactPointV>::empty());
            assert(r@.address =~= Seq::<AddressV>::empty());
            assert(r@.photo =~= Seq::<Seq<char>>::empty());
            assert(r@.contact =~= Seq::<PatientContactV>::empty());
            assert(r@.communication =~= Seq::<PatientCommunicationV>::empty());
            assert(r@.general_practitioner =~= Seq::<ReferenceV>::empty());
            assert(r@.link =~= Seq::<PatientLinkV>::empty());
        }
        r
    }

    /// A patient with the given kind label and everything else absent.
    pub fn with_resource_type(resource_type: String) -> (r: Patient)
        ensures
            r@ == (PatientV {
                resource_type: resource_type@,
                identifier: Seq::empty(),
                active: Option::None,
                name: Seq::empty(),
                telecom: Seq::empty(),
                gender: Option::None,
                birth_date: Option::None,
                deceased_boolean: Option::None,
                deceased_date_time: Option::None,
                address: Seq::empty(),
                marital_status: Option::None,
                multiple_birth_boolean: Option::None,
                multiple_birth_integer: Option::None,
                photo: Seq::empty(),
                contact: Seq::empty(),
                communication: Seq::empty(),
                general_practitioner: Seq::empty(),
                managing_organization: Option::None,
                link: Seq::empty(),
            }),
    {
        broadcast use group_json_views;

        let r = Patient {
            resource_type: resource_type,
            identifier: Vec::new(),
            active: Option::None,
            name: Vec::new(),
            telecom: Vec::new(),
            gender: Option::None,
            birth_date: Option::None,
            deceased_boolean: Option::None,
            deceased_date_time: Option::None,
            address: Vec::new(),
            marital_status: Option::None,
            multiple_birth_boolean: Option::None,
            multiple_birth_integer: Option::None,
            photo: Vec::new(),
            contact: Vec::new(),
            communication: Vec::new(),
            general_practitioner: Vec::new(),
            managing_organization: Option::None,
            link: Vec::new(),
        };
        proof {
            assert(r@.identifier =~= Seq::<IdentifierV>::empty());
            assert(r@.name =~= Seq::<HumanNameV>::empty());
            assert(r@.telecom =~= Seq::<ContactPointV>::empty());
            assert(r@.address =~= Seq::<AddressV>::empty());
            assert(r@.photo =~= Seq::<Seq<char>>::empty());
            assert(r@.contact =~= Seq::<PatientContactV>::empty());
            assert(r@.communication =~= Seq::<PatientCommunicationV>::empty());
            assert(r@.general_practitioner =~= Seq::<ReferenceV>::empty());
            assert(r@.link =~= Seq::<PatientLinkV>::empty());
        }
        r
    }

    /// The kind label of the resource.
    pub fn resource_type(&self) -> (r: &str)
        ensures
            r@ == self@.resource_type,
    {
        self.resource_type.as_str()
    }

    /// The identifiers, in order.
    pub fn identifiers(&self) -> (r: &[Identifier])
        ensures
            seq_views(r@) == self@.identifier,
    {
        self.identifier.as_slice()
    }

    /// The names, in order.
    pub fn names(&self) -> (r: &[HumanName])
        ensures
            seq_views(r@) == self@.name,
    {
        self.name.as_slice()
    }

    /// Appends an identifier.
    pub fn add_identifier(&mut self, x: Identifier)
        ensures
            final(self)@ == (PatientV { identifier: old(self)@.identifier.push(x@), ..old(self)@ }),
    {
        broadcast use group_json_views;

        self.identifier.push(x);
    }

    /// Appends a name.
    pub fn add_name(&mut self, x: HumanName)
        ensures
            final(self)@ == (PatientV { name: old(self)@.name.push(x@), ..old(self)@ }),
    {
        broadcast use group_json_views;

        self.name.push(x);
    }

    /// Replaces the kind label.
    pub fn set_resource_type(&mut self, resource_type: String)
        ensures
            final(self)@ == (PatientV { resource_type: resource_type@, ..old(self)@ }),
    {
        self.resource_type = resource_type;
    }

    /// Replaces the identifiers.
    pub fn set_identifiers(&mut self, identifier: Vec<Identifier>)
        ensures
            final(self)@ == (PatientV { identifier: seq_views(identifier@), ..old(self)@ }),
    {
        self.identifier = identifier;
    }

    /// Replaces the names.
    pub fn set_names(&mut self, name: Vec<HumanName>)
        ensures
            final(self)@ == (PatientV { name: seq_views(name@), ..old(self)@ }),
    {
        self.name = name;
    }

    /// The active flag, when set.
    pub fn active(&self) -> (r: Option<bool>)
        ensures
            r == self@.active,
    {
        self.active
    }

    /// Replaces the active flag.
    pub fn set_active(&mut self, active: Option<bool>)
        ensures
            final(self)@ == (PatientV { active: active, ..old(self)@ }),
    {
        self.active = active;
    }

    /// The contact points, in order.
    pub fn telecom(&self) -> (r: &[ContactPoint])
        ensures
            seq_views(r@) == self@.telecom,
    {
        self.telecom.as_slice()
    }

    /// Appends a contact point.
    pub fn add_telecom(&mut self, x: ContactPoint)
        ensures
            final(self)@ == (PatientV { telecom: old(self)@.telecom.push(x@), ..old(self)@ }),
    {
        broadcast use group_json_views;

        self.telecom.push(x);
    }

    /// Replaces the contact points.
    pub fn set_telecom(&mut self, telecom: Vec<ContactPoint>)
        ensures
            final(self)@ == (PatientV { telecom: seq_views(telecom@), ..old(self)@ }),
    {
        self.telecom = telecom;
    }

    /// The gender, when set.
    pub fn gender(&self) -> (r: Option<&str>)
        ensures
            match r {
                Option::Some(s) => self@.gender == Option::Some(s@),
                Option::None => self@.gender is None,
            },
    {
        match &self.gender {
            Option::Some(s) => Option::Some(s.as_str()),
            Option::None => Option::None,
        }
    }

    /// Replaces the gender.
    pub fn set_gender(&mut self, gender: Option<String>)
        ensures
            final(self)@ == (PatientV { gender: match gender {
                Option::Some(ref s) => Option::Some(s@),
                Option::None => Option::None,
            }, ..old(self)@ }),
    {
        self.gender = gender;
    }

    /// The birth date, when set.
    pub fn birth_date(&self) -> (r: Option<&str>)
        ensures
            match r {
                Option::Some(s) => self@.birth_date == Option::Some(s@),
                Option::None => self@.birth_date is None,
            },
    {
        match &self.birth_date {
            Option::Some(s) => Option::Some(s.as_str()),
            Option::None => Option::None,
        }
    }

    /// Replaces the birth date.
    pub fn set_birth_date(&mut self, birth_date: Option<String>)
        ensures
            final(self)@ == (PatientV { birth_date: match birth_date {
                Option::Some(ref s) => Option::Some(s@),
                Option::None => Option::None,
            }, ..old(self)@ }),
    {
        self.birth_date = birth_date;
    }

    /// The deceased flag, when set.
    pub fn deceased_boolean(&self) -> (r: Option<bool>)
        ensures
            r == self@.deceased_boolean,
    {
        self.deceased_boolean
    }

    /// Replaces the deceased flag.
    pub fn set_deceased_boolean(&mut self, deceased_boolean: Option<bool>)
        ensures
            final(self)@ == (PatientV { deceased_boolean: deceased_boolean, ..old(self)@ }),
    {
        self.deceased_boolean = deceased_boolean;
    }

    /// The time of death, when set.
    pub fn deceased_date_time(&self) -> (r: Option<&str>)
        ensures
            match r {
                Option::Some(s) => self@.deceased_date_time == Option::Some(s@),
                Option::None => self@.deceased_date_time is None,
            },
    {
        match &self.deceased_date_time {
            Option::Some(s) => Option::Some(s.as_str()),
            Option::None => Option::None,
        }
    }

    /// Replaces the time of death.
    pub fn set_deceased_date_time(&mut self, deceased_date_time: Option<String>)
        ensures
            final(self)@ == (PatientV { deceased_date_time: match deceased_date_time {
                Option::Some(ref s) => Option::Some(s@),
                Option::None => Option::None,
            }, ..old(self)@ }),
    {
        self.deceased_date_time = deceased_date_time;
    }

    /// The addresses, in order.
    pub fn address(&self) -> (r: &[Address])
        ensures
            seq_views(r@) == self@.address,
    {
        self.address.as_slice()
    }

    /// Appends an address.
    pub fn add_address(&mut self, x: Address)
        ensures
            final(self)@ == (PatientV { address: old(self)@.address.push(x@), ..old(self)@ }),
    {
        broadcast use group_json_views;

        self.address.push(x);
    }

    /// Replaces the addresses.
    pub fn set_address(&mut self, address: Vec<Address>)
        ensures
            final(self)@ == (PatientV { address: seq_views(address@), ..old(self)@ }),
    {
        self.address = address;
    }

    /// The marital status, when set.
    pub fn marital_status(&self) -> (r: Option<&CodeableConcept>)
        ensures
            match r {
                Option::Some(x) => self@.marital_status == Option::Some(x@),
                Option::None => self@.marital_status is None,
            },
    {
        match &self.marital_status {
            Option::Some(x) => Option::Some(x),
            Option::None => Option::None,
        }
    }

    /// Replaces the marital status.
    pub fn set_marital_status(&mut self, marital_status: Option<CodeableConcept>)
        ensures
            final(self)@ == (PatientV { marital_status: match marital_status {
                Option::Some(ref x) => Option::Some(x@),
                Option::None => Option::None,
            }, ..old(self)@ }),
    {
        self.marital_status = marital_status;
    }

    /// The multiple-birth flag, when set.
    pub fn multiple_birth_boolean(&self) -> (r: Option<bool>)
        ensures
            r == self@.multiple_birth_boolean,
    {
        self.multiple_birth_boolean
    }

    /// Replaces the multiple-birth flag.
    pub fn set_multiple_birth_boolean(&mut self, multiple_birth_boolean: Option<bool>)
        ensures
            final(self)@ == (PatientV { multiple_birth_boolean: multiple_birth_boolean, ..old(self)@ }),
    {
        self.multiple_birth_boolean = multiple_birth_boolean;
    }

    /// The multiple-birth order, when set.
    pub fn multiple_birth_integer(&self) -> (r: Option<i32>)
        ensures
            r == self@.multiple_birth_integer,
    {
        self.multiple_birth_integer
    }

    /// Replaces the multiple-birth order.
    pub fn set_multiple_birth_integer(&mut self, multiple_birth_integer: Option<i32>)
        ensures
            final(self)@ == (PatientV { multiple_birth_integer: multiple_birth_integer, ..old(self)@ }),
    {
        self.multiple_birth_integer = multiple_birth_integer;
    }

    /// The photos, in order.
    pub fn photo(&self) -> (r: &[String])
        ensures
            seq_views(r@) == self@.photo,
    {
        self.photo.as_slice()
    }

    /// Appends a photo.
    pub fn add_photo(&mut self, x: String)
        ensures
            final(self)@ == (PatientV { photo: old(self)@.photo.push(x@), ..old(self)@ }),
    {
        broadcast use group_json_views;

        self.photo.push(x);
    }

    /// Replaces the photos.
    pub fn set_photo(&mut self, photo: Vec<String>)
        ensures
            final(self)@ == (PatientV { photo: seq_views(photo@), ..old(self)@ }),
    {
        self.photo = photo;
    }

    /// The contacts, in order.
    pub fn contact(&self) -> (r: &[PatientContact])
        ensures
            seq_views(r@) == self@.contact,
    {
        self.contact.as_slice()
    }

    /// Appends a contact.
    pub fn add_contact(&mut self, x: PatientContact)
        ensures
            final(self)@ == (PatientV { contact: old(self)@.contact.push(x@), ..old(self)@ }),
    {
        broadcast use group_json_views;

        self.contact.push(x);
    }

    /// Replaces the contacts.
    pub fn set_contact(&mut self, contact: Vec<PatientContact>)
        ensures
            final(self)@ == (PatientV { contact: seq_views(contact@), ..old(self)@ }),
    {
        self.contact = contact;
    }

    /// The communication entries, in order.
    pub fn communication(&self) -> (r: &[PatientCommunication])
        ensures
            seq_views(r@) == self@.communication,
    {
        self.communication.as_slice()
    }

    /// Appends a communication entry.
    pub fn add_communication(&mut self, x: PatientCommunication)
        ensures
            final(self)@ == (PatientV { communication: old(self)@.communication.push(x@), ..old(self)@ }),
    {
        broadcast use group_json_views;

        self.communication.push(x);
    }

    /// Replaces the communication entries.
    pub fn set_communication(&mut self, communication: Vec<PatientCommunication>)
        ensures
            final(self)@ == (PatientV { communication: seq_views(communication@), ..old(self)@ }),
    {
        self.communication = communication;
    }

    /// The general practitioners, in order.
    pub fn general_practitioner(&self) -> (r: &[Reference])
        ensures
            seq_views(r@) == self@.general_practitioner,
    {
        self.general_practitioner.as_slice()
    }

    /// Appends a general practitioner.
    pub fn add_general_practitioner(&mut self, x: Reference)
        ensures
            final(self)@ == (PatientV { general_practitioner: old(self)@.general_practitioner.push(x@), ..old(self)@ }),
    {
        broadcast use group_json_views;

        self.general_practitioner.push(x);
    }

    /// Replaces the general practitioners.
    pub fn set_general_practitioner(&mut self, general_practitioner: Vec<Reference>)
        ensures
            final(self)@ == (PatientV { general_practitioner: seq_views(general_practitioner@), ..old(self)@ }),
    {
        self.general_practitioner = general_practitioner;
    }

    /// The managing organization, when set.
    pub fn managing_organization(&self) -> (r: Option<&Reference>)
        ensures
            match r {
                Option::Some(x) => self@.managing_organization == Option::Some(x@),
                Option::None => self@.managing_organization is None,
            },
    {
        match &self.managing_organization {
            Option::Some(x) => Option::Some(x),
            Option::None => Option::None,
        }
    }

    /// Replaces the managing organization.
    pub fn set_managing_organization(&mut self, managing_organization: Option<Reference>)
        ensures
            final(self)@ == (PatientV { managing_organization: match managing_organization {
                Option::Some(ref x) => Option::Some(x@),
                Option::None => Option::None,
            }, ..old(self)@ }),
    {
        self.managing_organization = managing_organization;
    }

    /// The links, in order.
    pub fn link(&self) -> (r: &[PatientLink])
        ensures
            seq_views(r@) == self@.link,
    {
        self.link.as_slice()
    }

    /// Appends a link.
    pub fn add_link(&mut self, x: PatientLink)
        ensures
            final(self)@ == (PatientV { link: old(self)@.link.push(x@), ..old(self)@ }),
    {
        broadcast use group_json_views;

        self.link.push(x);
    }

    /// Replaces the links.
    pub fn set_link(&mut self, link: Vec<PatientLink>)
        ensures
            final(self)@ == (PatientV { link: seq_views(link@), ..old(self)@ }),
    {
        self.link = link;
    }

    /// Encodes the value as an object in fixed field order, omitting
    /// absent optional fields.
    pub fn encode(&self) -> (r: Json)
        ensures
            r@ == spec_encode_patient(self@),
    {
        broadcast use group_json_views;

        let mut entries: Vec<(String, Json)> = Vec::new();
        proof {
            assert(entries_view(entries@) =~= Seq::<(Seq<char>, JsonV)>::empty());
        }
        put_str(&mut entries, "resourceType", self.resource_type.as_str());
        put_json(&mut entries, "identifier", encode_identifier_arr(&self.identifier));
        put_opt_bool(&mut entries, "active", &self.active);
        put_json(&mut entries, "name", encode_human_name_arr(&self.name));
        put_json(&mut entries, "telecom", encode_contact_point_arr(&self.telecom));
        put_opt_str(&mut entries, "gender", &self.gender);
        put_opt_str(&mut entries, "birthDate", &self.birth_date);
        put_opt_bool(&mut entries, "deceasedBoolean", &self.deceased_boolean);
        put_opt_str(&mut entries, "deceasedDateTime", &self.deceased_date_time);
        put_json(&mut entries, "address", encode_address_arr(&self.address));
        match &self.marital_status {
            Option::Some(x) => put_json(&mut entries, "maritalStatus", x.encode()),
            Option::None => (),
        };
        put_opt_bool(&mut entries, "multipleBirthBoolean", &self.multiple_birth_boolean);
        put_opt_i32(&mut entries, "multipleBirthInteger", &self.multiple_birth_integer);
        put_json(&mut entries, "photo", encode_str_arr(&self.photo));
        put_json(&mut entries, "contact", encode_patient_contact_arr(&self.contact));
        put_json(&mut entries, "communication", encode_patient_communication_arr(&self.communication));
        put_json(&mut entries, "generalPractitioner", encode_reference_arr(&self.general_practitioner));
        match &self.managing_organization {
            Option::Some(x) => put_json(&mut entries, "managingOrganization", x.encode()),
            Option::None => (),
        };
        put_json(&mut entries, "link", encode_patient_link_arr(&self.link));
        let r = Json::Obj(entries);
        proof {
            assert(r@->Obj_0 =~= spec_encode_patient(self@)->Obj_0);
        }
        r
    }

    /// Renders the value as JSON text: fixed field order and omission of
    /// absent optional fields, so equal values yield byte-identical text.
    pub fn to_json(&self) -> (r: String)
        ensures
            r@ == spec_write_json(spec_encode_patient(self@)),
    {
        write_json(&self.encode())
    }

    /// Decodes a value from an object, treating a missing key as an
    /// absent optional field; fails on any other shape.
    pub fn decode(j: &Json) -> (r: Result<Patient, DecodeError>)
        ensures
            match r {
                Ok(x) => spec_decode_patient(j@) == Ok::<PatientV, DecodeError>(x@),
                Err(e) => spec_decode_patient(j@) == Err::<PatientV, DecodeError>(e),
            },
    {
        match j {
            Json::Obj(entries) => {
                proof {
                    assert(j@->Obj_0 =~= entries_view(entries@));
                }
                let resource_type = match take_req_str(entries, "resourceType") {
                    Ok(v) => v,
                    Err(e) => return Err(e),
                };
                let identifier = match take_req_arr(entries, "identifier") {
                    Ok(a) => match decode_identifier_arr(a) {
                        Ok(v) => v,
                        Err(e) => return Err(e),
                    },
                    Err(e) => return Err(e),
                };
                let active = match take_opt_bool(entries, "active") {
                    Ok(v) => v,
                    Err(e) => return Err(e),
                };
                let name = match take_req_arr(entries, "name") {
                    Ok(a) => match decode_human_name_arr(a) {
                        Ok(v) => v,
                        Err(e) => return Err(e),
                    },
                    Err(e) => return Err(e),
                };
                let telecom = match take_req_arr(entries, "telecom") {
                    Ok(a) => match decode_contact_point_arr(a) {
                        Ok(v) => v,
                        Err(e) => return Err(e),
                    },
                    Err(e) => return Err(e),
                };
                let gender = match take_opt_str(entries, "gender") {
                    Ok(v) => v,
                    Err(e) => return Err(e),
                };
                let birth_date = match take_opt_str(entries, "birthDate") {
                    Ok(v) => v,
                    Err(e) => return Err(e),
                };
                let deceased_boolean = match take_opt_bool(entries, "deceasedBoolean") {
                    Ok(v) => v,
                    Err(e) => return Err(e),
                };
                let deceased_date_time = match take_opt_str(entries, "deceasedDateTime") {
                    Ok(v) => v,
                    Err(e) => return Err(e),
                };
                let address = match take_req_arr(entries, "address") {
                    Ok(a) => match decode_address_arr(a) {
                        Ok(v) => v,
                        Err(e) => return Err(e),
                    },
                    Err(e) => return Err(e),
                };
                let marital_status = match take_opt_codeable_concept(entries, "maritalStatus") {
                    Ok(v) => v,
                    Err(e) => return Err(e),
                };
                let multiple_birth_boolean = match take_opt_bool(entries, "multipleBirthBoolean") {
                    Ok(v) => v,
                    Err(e) => return Err(e),
                };
                let multiple_birth_integer = match take_opt_i32(entries, "multipleBirthInteger") {
                    Ok(v) => v,
                    Err(e) => return Err(e),
                };
                let photo = match take_req_arr(entries, "photo") {
                    Ok(a) => match decode_str_arr(a) {
                        Ok(v) => v,
                        Err(e) => return Err(e),
                    },
                    Err(e) => return Err(e),
                };
                let contact = match take_req_arr(entries, "contact") {
                    Ok(a) => match decode_patient_contact_arr(a) {
                        Ok(v) => v,
                        Err(e) => return Err(e),
                    },
                    Err(e) => return Err(e),
                };
                let communication = match take_req_arr(entries, "communication") {
                    Ok(a) => match decode_patient_communication_arr(a) {
                        Ok(v) => v,
                        Err(e) => return Err(e),
                    },
                    Err(e) => return Err(e),
                };
                let general_practitioner = match take_req_arr(entries, "generalPractitioner") {
                    Ok(a) => match decode_reference_arr(a) {
                        Ok(v) => v,
                        Err(e) => return Err(e),
                    },
                    Err(e) => return Err(e),
                };
                let managing_organization = match take_opt_reference(entries, "managingOrganization") {
                    Ok(v) => v,
                    Err(e) => return Err(e),
                };
                let link = match take_req_arr(entries, "link") {
                    Ok(a) => match decode_patient_link_arr(a) {
                        Ok(v) => v,
                        Err(e) => return Err(e),
                    },
                    Err(e) => return Err(e),
                };
                Ok(Patient { resource_type, identifier, active, name, telecom, gender, birth_date, deceased_boolean, deceased_date_time, address, marital_status, multiple_birth_boolean, multiple_birth_integer, photo, contact, communication, general_practitioner, managing_organization, link })
            },
            _ => Err(DecodeError::TypeMismatch),
        }
    }
}

impl Default for Patient {
    /// A patient with its kind label set and everything else absent.
    fn default() -> (r: Patient)
        ensures
            r@ == (PatientV {
                resource_type: ("Patient")@,
                identifier: Seq::empty(),
                active: Option::None,
                name: Seq::empty(),
                telecom: Seq::empty(),
                gender: Option::None,
                birth_date: Option::None,
                deceased_boolean: Option::None,
                deceased_date_time: Option::None,
                address: Seq::empty(),
                marital_status: Option::None,
                multiple_birth_boolean: Option::None,
                multiple_birth_integer: Option::None,
                photo: Seq::empty(),
                contact: Seq::empty(),
                communication: Seq::empty(),
                general_practitioner: Seq::empty(),
                managing_organization: Option::None,
                link: Seq::empty(),
            }),
    {
        Patient::new()
    }
}

/// The encoded form of a `Patient` value: its fields in declaration order, each
/// optional field present exactly when set.
pub open spec fn spec_encode_patient(v: PatientV) -> JsonV {
    let o = Seq::<(Seq<char>, JsonV)>::empty();
    let o = o.push((("resourceType")@, JsonV::Str(v.resource_type)));
    let o = o.push((("identifier")@, JsonV::Arr(spec_encode_identifier_all(v.identifier))));
    let o = if v.active is Some {
        o.push((("active")@, JsonV::Bool(v.active->Some_0)))
    } else {
        o
    };
    let o = o.push((("name")@, JsonV::Arr(spec_encode_human_name_all(v.name))));
    let o = o.push((("telecom")@, JsonV::Arr(spec_encode_contact_point_all(v.telecom))));
    let o = if v.gender is Some {
        o.push((("gender")@, JsonV::Str(v.gender->Some_0)))
    } else {
        o
    };
    let o = if v.birth_date is Some {
        o.push((("birthDate")@, JsonV::Str(v.birth_date->Some_0)))
    } else {
        o
    };
    let o = if v.deceased_boolean is Some {
        o.push((("deceasedBoolean")@, JsonV::Bool(v.deceased_boolean->Some_0)))
    } else {
        o
    };
    let o = if v.deceased_date_time is Some {
        o.push((("deceasedDateTime")@, JsonV::Str(v.deceased_date_time->Some_0)))
    } else {
        o
    };
    let o = o.push((("address")@, JsonV::Arr(spec_encode_address_all(v.address))));
    let o = if v.marital_status is Some {
        o.push((("maritalStatus")@, spec_encode_codeable_concept(v.marital_status->Some_0)))
    } else {
        o
    };
    let o = if v.multiple_birth_boolean is Some {
        o.push((("multipleBirthBoolean")@, JsonV::Bool(v.multiple_birth_boolean->Some_0)))
    } else {
        o
    };
    let o = if v.multiple_birth_integer is Some {
        o.push((("multipleBirthInteger")@, JsonV::Int(v.multiple_birth_integer->Some_0 as int)))
    } else {
        o
    };
    let o = o.push((("photo")@, JsonV::Arr(spec_encode_str_all(v.photo))));
    let o = o.push((("contact")@, JsonV::Arr(spec_encode_patient_contact_all(v.contact))));
    let o = o.push((("communication")@, JsonV::Arr(spec_encode_patient_communication_all(v.communication))));
    let o = o.push((("generalPractitioner")@, JsonV::Arr(spec_encode_reference_all(v.general_practitioner))));
    let o = if v.managing_organization is Some {
        o.push((("managingOrganization")@, spec_encode_reference(v.managing_organization->Some_0)))
    } else {
        o
    };
    let o = o.push((("link")@, JsonV::Arr(spec_encode_patient_link_all(v.link))));
    JsonV::Obj(o)
}

/// The decoded reading of a `Patient` value.
pub open spec fn spec_decode_patient(j: JsonV) -> Result<PatientV, DecodeError> {
    match j {
        JsonV::Obj(o) => match spec_req_str(o, ("resourceType")@) {
            Ok(resource_type) => match spec_req_arr(o, ("identifier")@) {
                Ok(identifier_arr) => match spec_decode_identifier_all(identifier_arr) {
                    Ok(identifier) => match spec_opt_bool(o, ("active")@) {
                    Ok(active) => match spec_req_arr(o, ("name")@) {
                        Ok(name_arr) => match spec_decode_human_name_all(name_arr) {
                            Ok(name) => match spec_req_arr(o, ("telecom")@) {
                            Ok(telecom_arr) => match spec_decode_contact_point_all(telecom_arr) {
                                Ok(telecom) => match spec_opt_str(o, ("gender")@) {
                                Ok(gender) => match spec_opt_str(o, ("birthDate")@) {
                                    Ok(birth_date) => match spec_opt_bool(o, ("deceasedBoolean")@) {
                                        Ok(deceased_boolean) => match spec_opt_str(o, ("deceasedDateTime")@) {
                                            Ok(deceased_date_time) => match spec_req_arr(o, ("address")@) {
                                                Ok(address_arr) => match spec_decode_address_all(address_arr) {
                                                    Ok(address) => match spec_opt_codeable_concept(o, ("maritalStatus")@) {
                                                    Ok(marital_status) => match spec_opt_bool(o, ("multipleBirthBoolean")@) {
                                                        Ok(multiple_birth_boolean) => match spec_opt_i32(o, ("multipleBirthInteger")@) {
                                                            Ok(multiple_birth_integer) => match spec_req_arr(o, ("photo")@) {
                                                                Ok(photo_arr) => match spec_decode_str_all(photo_arr) {
                                                                    Ok(photo) => match spec_req_arr(o, ("contact")@) {
                                                                    Ok(contact_arr) => match spec_decode_patient_contact_all(contact_arr) {
                                                                        Ok(contact) => match spec_req_arr(o, ("communication")@) {
                                                                        Ok(communication_arr) => match spec_decode_patient_communication_all(communication_arr) {
                                                                            Ok(communication) => match spec_req_arr(o, ("generalPractitioner")@) {
                                                                            Ok(general_practitioner_arr) => match spec_decode_reference_all(general_practitioner_arr) {
                                                                                Ok(general_practitioner) => match spec_opt_reference(o, ("managingOrganization")@) {
                                                                                Ok(managing_organization) => match spec_req_arr(o, ("link")@) {
                                                                                    Ok(link_arr) => match spec_decode_patient_link_all(link_arr) {
                                                                                        Ok(link) => Ok(PatientV { resource_type, identifier, active, name, telecom, gender, birth_date, deceased_boolean, deceased_date_time, address, marital_status, multiple_birth_boolean, multiple_birth_integer, photo, contact, communication, general_practitioner, managing_organization, link }),
                                                                                        Err(e) => Err(e),
                                                                                    },
                                                                                    Err(e) => Err(e),
                                                                                },
                                                                                Err(e) => Err(e),
                                                                            },
                                                                                Err(e) => Err(e),
                                                                            },
                                                                            Err(e) => Err(e),
                                                                        },
                                                                            Err(e) => Err(e),
                                                                        },
                                                                        Err(e) => Err(e),
                                                                    },
                                                                        Err(e) => Err(e),
                                                                    },
                                                                    Err(e) => Err(e),
                                                                },
                                                                    Err(e) => Err(e),
                                                                },
                                                                Err(e) => Err(e),
                                                            },
                                                            Err(e) => Err(e),
                                                        },
                                                        Err(e) => Err(e),
                                                    },
                                                    Err(e) => Err(e),
                                                },
                                                    Err(e) => Err(e),
                                                },
                                                Err(e) => Err(e),
                                            },
                                            Err(e) => Err(e),
                                        },
                                        Err(e) => Err(e),
                                    },
                                    Err(e) => Err(e),
                                },
                                Err(e) => Err(e),
                            },
                                Err(e) => Err(e),
                            },
                            Err(e) => Err(e),
                        },
                            Err(e) => Err(e),
                        },
                        Err(e) => Err(e),
                    },
                    Err(e) => Err(e),
                },
                    Err(e) => Err(e),
                },
                Err(e) => Err(e),
            },
            Err(e) => Err(e),
        },
        _ => Err(DecodeError::TypeMismatch),
    }
}

/// Each field of an encoded Patient in this group reads back under
/// its own key, exactly as it was set.
#[verifier::rlimit(100)]
proof fn lemma_patient_encode_fields_0(v: PatientV)
    ensures
        ({
            let o = spec_encode_patient(v)->Obj_0;
            spec_req_str(o, ("resourceType")@) == Ok::<Seq<char>, DecodeError>(v.resource_type)
        }),
        ({
            let o = spec_encode_patient(v)->Obj_0;
            spec_req_arr(o, ("identifier")@) == Ok::<Seq<JsonV>, DecodeError>(spec_encode_identifier_all(v.identifier))
        }),
        ({
            let o = spec_encode_patient(v)->Obj_0;
            spec_decode_identifier_all(spec_encode_identifier_all(v.identifier)) == Ok::<Seq<IdentifierV>, DecodeError>(v.identifier)
        }),
{
    broadcast use group_json_views;

    reveal_strlit("resourceType");
    reveal_strlit("identifier");
    reveal_strlit("active");
    reveal_strlit("name");
    reveal_strlit("telecom");
    reveal_strlit("gender");
    reveal_strlit("birthDate");
    reveal_strlit("deceasedBoolean");
    reveal_strlit("deceasedDateTime");
    reveal_strlit("address");
    reveal_strlit("maritalStatus");
    reveal_strlit("multipleBirthBoolean");
    reveal_strlit("multipleBirthInteger");
    reveal_strlit("photo");
    reveal_strlit("contact");
    reveal_strlit("communication");
    reveal_strlit("generalPractitioner");
    reveal_strlit("managingOrganization");
    reveal_strlit("link");
    assert(("resourceType")@.len() == 12);
    assert(("identifier")@.len() == 10);
    assert(("active")@.len() == 6);
    assert(("name")@.len() == 4);
    assert(("telecom")@.len() == 7);
    assert(("gender")@.len() == 6);
    assert(("birthDate")@.len() == 9);
    assert(("deceasedBoolean")@.len() == 15);
    assert(("deceasedDateTime")@.len() == 16);
    assert(("address")@.len() == 7);
    assert(("maritalStatus")@.len() == 13);
    assert(("multipleBirthBoolean")@.len() == 20);
    assert(("multipleBirthInteger")@.len() == 20);
    assert(("photo")@.len() == 5);
    assert(("contact")@.len() == 7);
    assert(("communication")@.len() == 13);
    assert(("generalPractitioner")@.len() == 19);
    assert(("managingOrganization")@.len() == 20);
    assert(("link")@.len() == 4);
    assert(("active")@[0] != ("gender")@[0]);
    assert(("name")@[0] != ("link")@[0]);
    assert(("telecom")@[0] != ("address")@[0]);
    assert(("telecom")@[0] != ("contact")@[0]);
    assert(("address")@[0] != ("contact")@[0]);
    assert(("maritalStatus")@[0] != ("communication")@[0]);
    assert(("multipleBirthBoolean")@[13] != ("multipleBirthInteger")@[13]);
    assert(("multipleBirthBoolean")@[1] != ("managingOrganization")@[1]);
    assert(("multipleBirthInteger")@[1] != ("managingOrganization")@[1]);
    lemma_identifier_all_round_trip(v.identifier);
    let o = spec_encode_patient(v)->Obj_0;
    assert(lookup(o, ("resourceType")@) == Option::Some(JsonV::Str(v.resource_type)));
    assert(lookup(o, ("identifier")@) == Option::Some(JsonV::Arr(spec_encode_identifier_all(v.identifier))));
}

/// Each field of an encoded Patient in this group reads back under
/// its own key, exactly as it was set.
#[verifier::rlimit(100)]
proof fn lemma_patient_encode_fields_1(v: PatientV)
    ensures
        ({
            let o = spec_encode_patient(v)->Obj_0;
            spec_opt_bool(o, ("active")@) == Ok::<Option<bool>, DecodeError>(v.active)
        }),
        ({
            let o = spec_encode_patient(v)->Obj_0;
            spec_req_arr(o, ("name")@) == Ok::<Seq<JsonV>, DecodeError>(spec_encode_human_name_all(v.name))
        }),
        ({
            let o = spec_encode_patient(v)->Obj_0;
            spec_decode_human_name_all(spec_encode_human_name_all(v.name)) == Ok::<Seq<HumanNameV>, DecodeError>(v.name)
        }),
{
    broadcast use group_json_views;

    reveal_strlit("resourceType");
    reveal_strlit("identifier");
    reveal_strlit("active");
    reveal_strlit("name");
    reveal_strlit("telecom");
    reveal_strlit("gender");
    reveal_strlit("birthDate");
    reveal_strlit("deceasedBoolean");
    reveal_strlit("deceasedDateTime");
    reveal_strlit("address");
    reveal_strlit("maritalStatus");
    reveal_strlit("multipleBirthBoolean");
    reveal_strlit("multipleBirthInteger");
    reveal_strlit("photo");
    reveal_strlit("contact");
    reveal_strlit("communication");
    reveal_strlit("generalPractitioner");
    reveal_strlit("managingOrganization");
    reveal_strlit("link");
    assert(("resourceType")@.len() == 12);
    assert(("identifier")@.len() == 10);
    assert(("active")@.len() == 6);
    assert(("name")@.len() == 4);
    assert(("telecom")@.len() == 7);
    assert(("gender")@.len() == 6);
    assert(("birthDate")@.len() == 9);
    assert(("deceasedBoolean")@.len() == 15);
    assert(("deceasedDateTime")@.len() == 16);
    assert(("address")@.len() == 7);
    assert(("maritalStatus")@.len() == 13);
    assert(("multipleBirthBoolean")@.len() == 20);
    assert(("multipleBirthInteger")@.len() == 20);
    assert(("photo")@.len() == 5);
    assert(("contact")@.len() == 7);
    assert(("communication")@.len() == 13);
    assert(("generalPractitioner")@.len() == 19);
    assert(("managingOrganization")@.len() == 20);
    assert(("link")@.len() == 4);
    assert(("active")@[0] != ("gender")@[0]);
    assert(("name")@[0] != ("link")@[0]);
    assert(("telecom")@[0] != ("address")@[0]);
    assert(("telecom")@[0] != ("contact")@[0]);
    assert(("address")@[0] != ("contact")@[0]);
    assert(("maritalStatus")@[0] != ("communication")@[0]);
    assert(("multipleBirthBoolean")@[13] != ("multipleBirthInteger")@[13]);
    assert(("multipleBirthBoolean")@[1] != ("managingOrganization")@[1]);
    assert(("multipleBirthInteger")@[1] != ("managingOrganization")@[1]);
    lemma_human_name_all_round_trip(v.name);
    let o = spec_encode_patient(v)->Obj_0;
    assert(lookup(o, ("active")@) == (if v.active is Some {
            Option::Some(JsonV::Bool(v.active->Some_0))
        } else {
            Option::None
        }));
    assert(lookup(o, ("name")@) == Option::Some(JsonV::Arr(spec_encode_human_name_all(v.name))));
}

/// Each field of an encoded Patient in this group reads back under
/// its own key, exactly as it was set.
#[verifier::rlimit(100)]
proof fn lemma_patient_encode_fields_2(v: PatientV)
    ensures
        ({
            let o = spec_encode_patient(v)->Obj_0;
            spec_req_arr(o, ("telecom")@) == Ok::<Seq<JsonV>, DecodeError>(spec_encode_contact_point_all(v.telecom))
        }),
        ({
            let o = spec_encode_patient(v)->Obj_0;
            spec_decode_contact_point_all(spec_encode_contact_point_all(v.telecom)) == Ok::<Seq<ContactPointV>, DecodeError>(v.telecom)
        }),
        ({
            let o = spec_encode_patient(v)->Obj_0;
            spec_opt_str(o, ("gender")@) == Ok::<Option<Seq<char>>, DecodeError>(v.gender)
        }),
{
    broadcast use group_json_views;

    reveal_strlit("resourceType");
    reveal_strlit("identifier");
    reveal_strlit("active");
    reveal_strlit("name");
    reveal_strlit("telecom");
    reveal_strlit("gender");
    reveal_strlit("birthDate");
    reveal_strlit("deceasedBoolean");
    reveal_strlit("deceasedDateTime");
    reveal_strlit("address");
    reveal_strlit("maritalStatus");
    reveal_strlit("multipleBirthBoolean");
    reveal_strlit("multipleBirthInteger");
    reveal_strlit("photo");
    reveal_strlit("contact");
    reveal_strlit("communication");
    reveal_strlit("generalPractitioner");
    reveal_strlit("managingOrganization");
    reveal_strlit("link");
    assert(("resourceType")@.len() == 12);
    assert(("identifier")@.len() == 10);
    assert(("active")@.len() == 6);
    assert(("name")@.len() == 4);
    assert(("telecom")@.len() == 7);
    assert(("gender")@.len() == 6);
    assert(("birthDate")@.len() == 9);
    assert(("deceasedBoolean")@.len() == 15);
    assert(("deceasedDateTime")@.len() == 16);
    assert(("address")@.len() == 7);
    assert(("maritalStatus")@.len() == 13);
    assert(("multipleBirthBoolean")@.len() == 20);
    assert(("multipleBirthInteger")@.len() == 20);
    assert(("photo")@.len() == 5);
    assert(("contact")@.len() == 7);
    assert(("communication")@.len() == 13);
    assert(("generalPractitioner")@.len() == 19);
    assert(("managingOrganization")@.len() == 20);
    assert(("link")@.len() == 4);
    assert(("active")@[0] != ("gender")@[0]);
    assert(("name")@[0] != ("link")@[0]);
    assert(("telecom")@[0] != ("address")@[0]);
    assert(("telecom")@[0] != ("contact")@[0]);
    assert(("address")@[0] != ("contact")@[0]);
    assert(("maritalStatus")@[0] != ("communication")@[0]);
    assert(("multipleBirthBoolean")@[13] != ("multipleBirthInteger")@[13]);
    assert(("multipleBirthBoolean")@[1] != ("managingOrganization")@[1]);
    assert(("multipleBirthInteger")@[1] != ("managingOrganization")@[1]);
    lemma_contact_point_all_round_trip(v.telecom);
    let o = spec_encode_patient(v)->Obj_0;
    assert(lookup(o, ("telecom")@) == Option::Some(JsonV::Arr(spec_encode_contact_point_all(v.telecom))));
    assert(lookup(o, ("gender")@) == (if v.gender is Some {
            Option::Some(JsonV::Str(v.gender->Some_0))
        } else {
            Option::None
        }));
}

/// Each field of an encoded Patient in this group reads back under
/// its own key, exactly as it was set.
#[verifier::rlimit(100)]
proof fn lemma_patient_encode_fields_3(v: PatientV)
    ensures
        ({
            let o = spec_encode_patient(v)->Obj_0;
            spec_opt_str(o, ("birthDate")@) == Ok::<Option<Seq<char>>, DecodeError>(v.birth_date)
        }),
        ({
            let o = spec_encode_patient(v)->Obj_0;
            spec_opt_bool(o, ("deceasedBoolean")@) == Ok::<Option<bool>, DecodeError>(v.deceased_boolean)
        }),
{
    broadcast use group_json_views;

    reveal_strlit("resourceType");
    reveal_strlit("identifier");
    reveal_strlit("active");
    reveal_strlit("name");
    reveal_strlit("telecom");
    reveal_strlit("gender");
    reveal_strlit("birthDate");
    reveal_strlit("deceasedBoolean");
    reveal_strlit("deceasedDateTime");
    reveal_strlit("address");
    reveal_strlit("maritalStatus");
    reveal_strlit("multipleBirthBoolean");
    reveal_strlit("multipleBirthInteger");
    reveal_strlit("photo");
    reveal_strlit("contact");
    reveal_strlit("communication");
    reveal_strlit("generalPractitioner");
    reveal_strlit("managingOrganization");
    reveal_strlit("link");
    assert(("resourceType")@.len() == 12);
    assert(("identifier")@.len() == 10);
    assert(("active")@.len() == 6);
    assert(("name")@.len() == 4);
    assert(("telecom")@.len() == 7);
    assert(("gender")@.len() == 6);
    assert(("birthDate")@.len() == 9);
    assert(("deceasedBoolean")@.len() == 15);
    assert(("deceasedDateTime")@.len() == 16);
    assert(("address")@.len() == 7);
    assert(("maritalStatus")@.len() == 13);
    assert(("multipleBirthBoolean")@.len() == 20);
    assert(("multipleBirthInteger")@.len() == 20);
    assert(("photo")@.len() == 5);
    assert(("contact")@.len() == 7);
    assert(("communication")@.len() == 13);
    assert(("generalPractitioner")@.len() == 19);
    assert(("managingOrganization")@.len() == 20);
    assert(("link")@.len() == 4);
    assert(("active")@[0] != ("gender")@[0]);
    assert(("name")@[0] != ("link")@[0]);
    assert(("telecom")@[0] != ("address")@[0]);
    assert(("telecom")@[0] != ("contact")@[0]);
    assert(("address")@[0] != ("contact")@[0]);
    assert(("maritalStatus")@[0] != ("communication")@[0]);
    assert(("multipleBirthBoolean")@[13] != ("multipleBirthInteger")@[13]);
    assert(("multipleBirthBoolean")@[1] != ("managingOrganization")@[1]);
    assert(("multipleBirthInteger")@[1] != ("managingOrganization")@[1]);
    let o = spec_encode_patient(v)->Obj_0;
    assert(lookup(o, ("birthDate")@) == (if v.birth_date is Some {
            Option::Some(JsonV::Str(v.birth_date->Some_0))
        } else {
            Option::None
        }));
    assert(lookup(o, ("deceasedBoolean")@) == (if v.deceased_boolean is Some {
            Option::Some(JsonV::Bool(v.deceased_boolean->Some_0))
        } else {
            Option::None
        }));
}

/// Each field of an encoded Patient in this group reads back under
/// its own key, exactly as it was set.
#[verifier::rlimit(100)]
proof fn lemma_patient_encode_fields_4(v: PatientV)
    ensures
        ({
            let o = spec_encode_patient(v)->Obj_0;
            spec_opt_str(o, ("deceasedDateTime")@) == Ok::<Option<Seq<char>>, DecodeError>(v.deceased_date_time)
        }),
        ({
            let o = spec_encode_patient(v)->Obj_0;
            spec_req_arr(o, ("address")@) == Ok::<Seq<JsonV>, DecodeError>(spec_encode_address_all(v.address))
        }),
        ({
            let o = spec_encode_patient(v)->Obj_0;
            spec_decode_address_all(spec_encode_address_all(v.address)) == Ok::<Seq<AddressV>, DecodeError>(v.address)
        }),
{
    broadcast use group_json_views;

    reveal_strlit("resourceType");
    reveal_strlit("identifier");
    reveal_strlit("active");
    reveal_strlit("name");
    reveal_strlit("telecom");
    reveal_strlit("gender");
    reveal_strlit("birthDate");
    reveal_strlit("deceasedBoolean");
    reveal_strlit("deceasedDateTime");
    reveal_strlit("address");
    reveal_strlit("maritalStatus");
    reveal_strlit("multipleBirthBoolean");
    reveal_strlit("multipleBirthInteger");
    reveal_strlit("photo");
    reveal_strlit("contact");
    reveal_strlit("communication");
    reveal_strlit("generalPractitioner");
    reveal_strlit("managingOrganization");
    reveal_strlit("link");
    assert(("resourceType")@.len() == 12);
    assert(("identifier")@.len() == 10);
    assert(("active")@.len() == 6);
    assert(("name")@.len() == 4);
    assert(("telecom")@.len() == 7);
    assert(("gender")@.len() == 6);
    assert(("birthDate")@.len() == 9);
    assert(("deceasedBoolean")@.len() == 15);
    assert(("deceasedDateTime")@.len() == 16);
    assert(("address")@.len() == 7);
    assert(("maritalStatus")@.len() == 13);
    assert(("multipleBirthBoolean")@.len() == 20);
    assert(("multipleBirthInteger")@.len() == 20);
    assert(("photo")@.len() == 5);
    assert(("contact")@.len() == 7);
    assert(("communication")@.len() == 13);
    assert(("generalPractitioner")@.len() == 19);
    assert(("managingOrganization")@.len() == 20);
    assert(("link")@.len() == 4);
    assert(("active")@[0] != ("gender")@[0]);
    assert(("name")@[0] != ("link")@[0]);
    assert(("telecom")@[0] != ("address")@[0]);
    assert(("telecom")@[0] != ("contact")@[0]);
    assert(("address")@[0] != ("contact")@[0]);
    assert(("maritalStatus")@[0] != ("communication")@[0]);
    assert(("multipleBirthBoolean")@[13] != ("multipleBirthInteger")@[13]);
    assert(("multipleBirthBoolean")@[1] != ("managingOrganization")@[1]);
    assert(("multipleBirthInteger")@[1] != ("managingOrganization")@[1]);
    lemma_address_all_round_trip(v.address);
    let o = spec_encode_patient(v)->Obj_0;
    assert(lookup(o, ("deceasedDateTime")@) == (if v.deceased_date_time is Some {
            Option::Some(JsonV::Str(v.deceased_date_time->Some_0))
        } else {
            Option::None
        }));
    assert(lookup(o, ("address")@) == Option::Some(JsonV::Arr(spec_encode_address_all(v.address))));
}

/// Each field of an encoded Patient in this group reads back under
/// its own key, exactly as it was set.
#[verifier::rlimit(100)]
proof fn lemma_patient_encode_fields_5(v: PatientV)
    ensures
        ({
            let o = spec_encode_patient(v)->Obj_0;
            spec_opt_codeable_concept(o, ("maritalStatus")@) == Ok::<Option<CodeableConceptV>, DecodeError>(v.marital_status)
        }),
        ({
            let o = spec_encode_patient(v)->Obj_0;
            spec_opt_bool(o, ("multipleBirthBoolean")@) == Ok::<Option<bool>, DecodeError>(v.multiple_birth_boolean)
        }),
{
    broadcast use group_json_views;

    reveal_strlit("resourceType");
    reveal_strlit("identifier");
    reveal_strlit("active");
    reveal_strlit("name");
    reveal_strlit("telecom");
    reveal_strlit("gender");
    reveal_strlit("birthDate");
    reveal_strlit("deceasedBoolean");
    reveal_strlit("deceasedDateTime");
    reveal_strlit("address");
    reveal_strlit("maritalStatus");
    reveal_strlit("multipleBirthBoolean");
    reveal_strlit("multipleBirthInteger");
    reveal_strlit("photo");
    reveal_strlit("contact");
    reveal_strlit("communication");
    reveal_strlit("generalPractitioner");
    reveal_strlit("managingOrganization");
    reveal_strlit("link");
    assert(("resourceType")@.len() == 12);
    assert(("identifier")@.len() == 10);
    assert(("active")@.len() == 6);
    assert(("name")@.len() == 4);
    assert(("telecom")@.len() == 7);
    assert(("gender")@.len() == 6);
    assert(("birthDate")@.len() == 9);
    assert(("deceasedBoolean")@.len() == 15);
    assert(("deceasedDateTime")@.len() == 16);
    assert(("address")@.len() == 7);
    assert(("maritalStatus")@.len() == 13);
    assert(("multipleBirthBoolean")@.len() == 20);
    assert(("multipleBirthInteger")@.len() == 20);
    assert(("photo")@.len() == 5);
    assert(("contact")@.len() == 7);
    assert(("communication")@.len() == 13);
    assert(("generalPractitioner")@.len() == 19);
    assert(("managingOrganization")@.len() == 20);
    assert(("link")@.len() == 4);
    assert(("active")@[0] != ("gender")@[0]);
    assert(("name")@[0] != ("link")@[0]);
    assert(("telecom")@[0] != ("address")@[0]);
    assert(("telecom")@[0] != ("contact")@[0]);
    assert(("address")@[0] != ("contact")@[0]);
    assert(("maritalStatus")@[0] != ("communication")@[0]);
    assert(("multipleBirthBoolean")@[13] != ("multipleBirthInteger")@[13]);
    assert(("multipleBirthBoolean")@[1] != ("managingOrganization")@[1]);
    assert(("multipleBirthInteger")@[1] != ("managingOrganization")@[1]);
    if v.marital_status is Some {
        lemma_codeable_concept_round_trip(v.marital_status->Some_0);
    }
    let o = spec_encode_patient(v)->Obj_0;
    assert(lookup(o, ("maritalStatus")@) == (if v.marital_status is Some {
            Option::Some(spec_encode_codeable_concept(v.marital_status->Some_0))
        } else {
            Option::None
        }));
    assert(lookup(o, ("multipleBirthBoolean")@) == (if v.multiple_birth_boolean is Some {
            Option::Some(JsonV::Bool(v.multiple_birth_boolean->Some_0))
        } else {
            Option::None
        }));
}

/// Each field of an encoded Patient in this group reads back under
/// its own key, exactly as it was set.
#[verifier::rlimit(100)]
proof fn lemma_patient_encode_fields_6(v: PatientV)
    ensures
        ({
            let o = spec_encode_patient(v)->Obj_0;
            spec_opt_i32(o, ("multipleBirthInteger")@) == Ok::<Option<i32>, DecodeError>(v.multiple_birth_integer)
        }),
        ({
            let o = spec_encode_patient(v)->Obj_0;
            spec_req_arr(o, ("photo")@) == Ok::<Seq<JsonV>, DecodeError>(spec_encode_str_all(v.photo))
        }),
        ({
            let o = spec_encode_patient(v)->Obj_0;
            spec_decode_str_all(spec_encode_str_all(v.photo)) == Ok::<Seq<Seq<char>>, DecodeError>(v.photo)
        }),
{
    broadcast use group_json_views;

    reveal_strlit("resourceType");
    reveal_strlit("identifier");
    reveal_strlit("active");
    reveal_strlit("name");
    reveal_strlit("telecom");
    reveal_strlit("gender");
    reveal_strlit("birthDate");
    reveal_strlit("deceasedBoolean");
    reveal_strlit("deceasedDateTime");
    reveal_strlit("address");
    reveal_strlit("maritalStatus");
    reveal_strlit("multipleBirthBoolean");
    reveal_strlit("multipleBirthInteger");
    reveal_strlit("photo");
    reveal_strlit("contact");
    reveal_strlit("communication");
    reveal_strlit("generalPractitioner");
    reveal_strlit("managingOrganization");
    reveal_strlit("link");
    assert(("resourceType")@.len() == 12);
    assert(("identifier")@.len() == 10);
    assert(("active")@.len() == 6);
    assert(("name")@.len() == 4);
    assert(("telecom")@.len() == 7);
    assert(("gender")@.len() == 6);
    assert(("birthDate")@.len() == 9);
    assert(("deceasedBoolean")@.len() == 15);
    assert(("deceasedDateTime")@.len() == 16);
    assert(("address")@.len() == 7);
    assert(("maritalStatus")@.len() == 13);
    assert(("multipleBirthBoolean")@.len() == 20);
    assert(("multipleBirthInteger")@.len() == 20);
    assert(("photo")@.len() == 5);
    assert(("contact")@.len() == 7);
    assert(("communication")@.len() == 13);
    assert(("generalPractitioner")@.len() == 19);
    assert(("managingOrganization")@.len() == 20);
    assert(("link")@.len() == 4);
    assert(("active")@[0] != ("gender")@[0]);
    assert(("name")@[0] != ("link")@[0]);
    assert(("telecom")@[0] != ("address")@[0]);
    assert(("telecom")@[0] != ("contact")@[0]);
    assert(("address")@[0] != ("contact")@[0]);
    assert(("maritalStatus")@[0] != ("communication")@[0]);
    assert(("multipleBirthBoolean")@[13] != ("multipleBirthInteger")@[13]);
    assert(("multipleBirthBoolean")@[1] != ("managingOrganization")@[1]);
    assert(("multipleBirthInteger")@[1] != ("managingOrganization")@[1]);
    lemma_str_all_round_trip(v.photo);
    let o = spec_encode_patient(v)->Obj_0;
    assert(lookup(o, ("multipleBirthInteger")@) == (if v.multiple_birth_integer is Some {
            Option::Some(JsonV::Int(v.multiple_birth_integer->Some_0 as int))
        } else {
            Option::None
        }));
    assert(lookup(o, ("photo")@) == Option::Some(JsonV::Arr(spec_encode_str_all(v.photo))));
}

/// Each field of an encoded Patient in this group reads back under
/// its own key, exactly as it was set.
#[verifier::rlimit(100)]
proof fn lemma_patient_encode_fields_7(v: PatientV)
    ensures
        ({
            let o = spec_encode_patient(v)->Obj_0;
            spec_req_arr(o, ("contact")@) == Ok::<Seq<JsonV>, DecodeError>(spec_encode_patient_contact_all(v.contact))
        }),
        ({
            let o = spec_encode_patient(v)->Obj_0;
            spec_decode_patient_contact_all(spec_encode_patient_contact_all(v.contact)) == Ok::<Seq<PatientContactV>, DecodeError>(v.contact)
        }),
        ({
            let o = spec_encode_patient(v)->Obj_0;
            spec_req_arr(o, ("communication")@) == Ok::<Seq<JsonV>, DecodeError>(spec_encode_patient_communication_all(v.communication))
        }),
        ({
            let o = spec_encode_patient(v)->Obj_0;
            spec_decode_patient_communication_all(spec_encode_patient_communication_all(v.communication)) == Ok::<Seq<PatientCommunicationV>, DecodeError>(v.communication)
        }),
{
    broadcast use group_json_views;

    reveal_strlit("resourceType");
    reveal_strlit("identifier");
    reveal_strlit("active");
    reveal_strlit("name");
    reveal_strlit("telecom");
    reveal_strlit("gender");
    reveal_strlit("birthDate");
    reveal_strlit("deceasedBoolean");
    reveal_strlit("deceasedDateTime");
    reveal_strlit("address");
    reveal_strlit("maritalStatus");
    reveal_strlit("multipleBirthBoolean");
    reveal_strlit("multipleBirthInteger");
    reveal_strlit("photo");
    reveal_strlit("contact");
    reveal_strlit("communication");
    reveal_strlit("generalPractitioner");
    reveal_strlit("managingOrganization");
    reveal_strlit("link");
    assert(("resourceType")@.len() == 12);
    assert(("identifier")@.len() == 10);
    assert(("active")@.len() == 6);
    assert(("name")@.len() == 4);
    assert(("telecom")@.len() == 7);
    assert(("gender")@.len() == 6);
    assert(("birthDate")@.len() == 9);
    assert(("deceasedBoolean")@.len() == 15);
    assert(("deceasedDateTime")@.len() == 16);
    assert(("address")@.len() == 7);
    assert(("maritalStatus")@.len() == 13);
    assert(("multipleBirthBoolean")@.len() == 20);
    assert(("multipleBirthInteger")@.len() == 20);
    assert(("photo")@.len() == 5);
    assert(("contact")@.len() == 7);
    assert(("communication")@.len() == 13);
    assert(("generalPractitioner")@.len() == 19);
    assert(("managingOrganization")@.len() == 20);
    assert(("link")@.len() == 4);
    assert(("active")@[0] != ("gender")@[0]);
    assert(("name")@[0] != ("link")@[0]);
    assert(("telecom")@[0] != ("address")@[0]);
    assert(("telecom")@[0] != ("contact")@[0]);
    assert(("address")@[0] != ("contact")@[0]);
    assert(("maritalStatus")@[0] != ("communication")@[0]);
    assert(("multipleBirthBoolean")@[13] != ("multipleBirthInteger")@[13]);
    assert(("multipleBirthBoolean")@[1] != ("managingOrganization")@[1]);
    assert(("multipleBirthInteger")@[1] != ("managingOrganization")@[1]);
    lemma_patient_contact_all_round_trip(v.contact);
    lemma_patient_communication_all_round_trip(v.communication);
    let o = spec_encode_patient(v)->Obj_0;
    assert(lookup(o, ("contact")@) == Option::Some(JsonV::Arr(spec_encode_patient_contact_all(v.contact))));
    assert(lookup(o, ("communication")@) == Option::Some(JsonV::Arr(spec_encode_patient_communication_all(v.communication))));
}

/// Each field of an encoded Patient in this group reads back under
/// its own key, exactly as it was set.
#[verifier::rlimit(100)]
proof fn lemma_patient_encode_fields_8(v: PatientV)
    ensures
        ({
            let o = spec_encode_patient(v)->Obj_0;
            spec_req_arr(o, ("generalPractitioner")@) == Ok::<Seq<JsonV>, DecodeError>(spec_encode_reference_all(v.general_practitioner))
        }),
        ({
            let o = spec_encode_patient(v)->Obj_0;
            spec_decode_reference_all(spec_encode_reference_all(v.general_practitioner)) == Ok::<Seq<ReferenceV>, DecodeError>(v.general_practitioner)
        }),
        ({
            let o = spec_encode_patient(v)->Obj_0;
            spec_opt_reference(o, ("managingOrganization")@) == Ok::<Option<ReferenceV>, DecodeError>(v.managing_organization)
        }),
{
    broadcast use group_json_views;

    reveal_strlit("resourceType");
    reveal_strlit("identifier");
    reveal_strlit("active");
    reveal_strlit("name");
    reveal_strlit("telecom");
    reveal_strlit("gender");
    reveal_strlit("birthDate");
    reveal_strlit("deceasedBoolean");
    reveal_strlit("deceasedDateTime");
    reveal_strlit("address");
    reveal_strlit("maritalStatus");
    reveal_strlit("multipleBirthBoolean");
    reveal_strlit("multipleBirthInteger");
    reveal_strlit("photo");
    reveal_strlit("contact");
    reveal_strlit("communication");
    reveal_strlit("generalPractitioner");
    reveal_strlit("managingOrganization");
    reveal_strlit("link");
    assert(("resourceType")@.len() == 12);
    assert(("identifier")@.len() == 10);
    assert(("active")@.len() == 6);
    assert(("name")@.len() == 4);
    assert(("telecom")@.len() == 7);
    assert(("gender")@.len() == 6);
    assert(("birthDate")@.len() == 9);
    assert(("deceasedBoolean")@.len() == 15);
    assert(("deceasedDateTime")@.len() == 16);
    assert(("address")@.len() == 7);
    assert(("maritalStatus")@.len() == 13);
    assert(("multipleBirthBoolean")@.len() == 20);
    assert(("multipleBirthInteger")@.len() == 20);
    assert(("photo")@.len() == 5);
    assert(("contact")@.len() == 7);
    assert(("communication")@.len() == 13);
    assert(("generalPractitioner")@.len() == 19);
    assert(("managingOrganization")@.len() == 20);
    assert(("link")@.len() == 4);
    assert(("active")@[0] != ("gender")@[0]);
    assert(("name")@[0] != ("link")@[0]);
    assert(("telecom")@[0] != ("address")@[0]);
    assert(("telecom")@[0] != ("contact")@[0]);
    assert(("address")@[0] != ("contact")@[0]);
    assert(("maritalStatus")@[0] != ("communication")@[0]);
    assert(("multipleBirthBoolean")@[13] != ("multipleBirthInteger")@[13]);
    assert(("multipleBirthBoolean")@[1] != ("managingOrganization")@[1]);
    assert(("multipleBirthInteger")@[1] != ("managingOrganization")@[1]);
    lemma_reference_all_round_trip(v.general_practitioner);
    if v.managing_organization is Some {
        lemma_reference_round_trip(v.managing_organization->Some_0);
    }
    let o = spec_encode_patient(v)->Obj_0;
    assert(lookup(o, ("generalPractitioner")@) == Option::Some(JsonV::Arr(spec_encode_reference_all(v.general_practitioner))));
    assert(lookup(o, ("managingOrganization")@) == (if v.managing_organization is Some {
            Option::Some(spec_encode_reference(v.managing_organization->Some_0))
        } else {
            Option::None
        }));
}

/// Each field of an encoded Patient in this group reads back under
/// its own key, exactly as it was set.
#[verifier::rlimit(100)]
proof fn lemma_patient_encode_fields_9(v: PatientV)
    ensures
        ({
            let o = spec_encode_patient(v)->Obj_0;
            spec_req_arr(o, ("link")@) == Ok::<Seq<JsonV>, DecodeError>(spec_encode_patient_link_all(v.link))
        }),
        ({
            let o = spec_encode_patient(v)->Obj_0;
            spec_decode_patient_link_all(spec_encode_patient_link_all(v.link)) == Ok::<Seq<PatientLinkV>, DecodeError>(v.link)
        }),
{
    broadcast use group_json_views;

    reveal_strlit("resourceType");
    reveal_strlit("identifier");
    reveal_strlit("active");
    reveal_strlit("name");
    reveal_strlit("telecom");
    reveal_strlit("gender");
    reveal_strlit("birthDate");
    reveal_strlit("deceasedBoolean");
    reveal_strlit("deceasedDateTime");
    reveal_strlit("address");
    reveal_strlit("maritalStatus");
    reveal_strlit("multipleBirthBoolean");
    reveal_strlit("multipleBirthInteger");
    reveal_strlit("photo");
    reveal_strlit("contact");
    reveal_strlit("communication");
    reveal_strlit("generalPractitioner");
    reveal_strlit("managingOrganization");
    reveal_strlit("link");
    assert(("resourceType")@.len() == 12);
    assert(("identifier")@.len() == 10);
    assert(("active")@.len() == 6);
    assert(("name")@.len() == 4);
    assert(("telecom")@.len() == 7);
    assert(("gender")@.len() == 6);
    assert(("birthDate")@.len() == 9);
    assert(("deceasedBoolean")@.len() == 15);
    assert(("deceasedDateTime")@.len() == 16);
    assert(("address")@.len() == 7);
    assert(("maritalStatus")@.len() == 13);
    assert(("multipleBirthBoolean")@.len() == 20);
    assert(("multipleBirthInteger")@.len() == 20);
    assert(("photo")@.len() == 5);
    assert(("contact")@.len() == 7);
    assert(("communication")@.len() == 13);
    assert(("generalPractitioner")@.len() == 19);
    assert(("managingOrganization")@.len() == 20);
    assert(("link")@.len() == 4);
    assert(("active")@[0] != ("gender")@[0]);
    assert(("name")@[0] != ("link")@[0]);
    assert(("telecom")@[0] != ("address")@[0]);
    assert(("telecom")@[0] != ("contact")@[0]);
    assert(("address")@[0] != ("contact")@[0]);
    assert(("maritalStatus")@[0] != ("communication")@[0]);
    assert(("multipleBirthBoolean")@[13] != ("multipleBirthInteger")@[13]);
    assert(("multipleBirthBoolean")@[1] != ("managingOrganization")@[1]);
    assert(("multipleBirthInteger")@[1] != ("managingOrganization")@[1]);
    lemma_patient_link_all_round_trip(v.link);
    let o = spec_encode_patient(v)->Obj_0;
    assert(lookup(o, ("link")@) == Option::Some(JsonV::Arr(spec_encode_patient_link_all(v.link))));
}

/// Each field of an encoded Patient reads back under its own key,
/// exactly as it was set.
proof fn lemma_patient_encode_fields(v: PatientV)
    ensures
        ({
            let o = spec_encode_patient(v)->Obj_0;
            spec_req_str(o, ("resourceType")@) == Ok::<Seq<char>, DecodeError>(v.resource_type)
        }),
        ({
            let o = spec_encode_patient(v)->Obj_0;
            spec_req_arr(o, ("identifier")@) == Ok::<Seq<JsonV>, DecodeError>(spec_encode_identifier_all(v.identifier))
        }),
        ({
            let o = spec_encode_patient(v)->Obj_0;
            spec_decode_identifier_all(spec_encode_identifier_all(v.identifier)) == Ok::<Seq<IdentifierV>, DecodeError>(v.identifier)
        }),
        ({
            let o = spec_encode_patient(v)->Obj_0;
            spec_opt_bool(o, ("active")@) == Ok::<Option<bool>, DecodeError>(v.active)
        }),
        ({
            let o = spec_encode_patient(v)->Obj_0;
            spec_req_arr(o, ("name")@) == Ok::<Seq<JsonV>, DecodeError>(spec_encode_human_name_all(v.name))
        }),
        ({
            let o = spec_encode_patient(v)->Obj_0;
            spec_decode_human_name_all(spec_encode_human_name_all(v.name)) == Ok::<Seq<HumanNameV>, DecodeError>(v.name)
        }),
        ({
            let o = spec_encode_patient(v)->Obj_0;
            spec_req_arr(o, ("telecom")@) == Ok::<Seq<JsonV>, DecodeError>(spec_encode_contact_point_all(v.telecom))
        }),
        ({
            let o = spec_encode_patient(v)->Obj_0;
            spec_decode_contact_point_all(spec_encode_contact_point_all(v.telecom)) == Ok::<Seq<ContactPointV>, DecodeError>(v.telecom)
        }),
        ({
            let o = spec_encode_patient(v)->Obj_0;
            spec_opt_str(o, ("gender")@) == Ok::<Option<Seq<char>>, DecodeError>(v.gender)
        }),
        ({
            let o = spec_encode_patient(v)->Obj_0;
            spec_opt_str(o, ("birthDate")@) == Ok::<Option<Seq<char>>, DecodeError>(v.birth_date)
        }),
        ({
            let o = spec_encode_patient(v)->Obj_0;
            spec_opt_bool(o, ("deceasedBoolean")@) == Ok::<Option<bool>, DecodeError>(v.deceased_boolean)
        }),
        ({
            let o = spec_encode_patient(v)->Obj_0;
            spec_opt_str(o, ("deceasedDateTime")@) == Ok::<Option<Seq<char>>, DecodeError>(v.deceased_date_time)
        }),
        ({
            let o = spec_encode_patient(v)->Obj_0;
            spec_req_arr(o, ("address")@) == Ok::<Seq<JsonV>, DecodeError>(spec_encode_address_all(v.address))
        }),
        ({
            let o = spec_encode_patient(v)->Obj_0;
            spec_decode_address_all(spec_encode_address_all(v.address)) == Ok::<Seq<AddressV>, DecodeError>(v.address)
        }),
        ({
            let o = spec_encode_patient(v)->Obj_0;
            spec_opt_codeable_concept(o, ("maritalStatus")@) == Ok::<Option<CodeableConceptV>, DecodeError>(v.marital_status)
        }),
        ({
            let o = spec_encode_patient(v)->Obj_0;
            spec_opt_bool(o, ("multipleBirthBoolean")@) == Ok::<Option<bool>, DecodeError>(v.multiple_birth_boolean)
        }),
        ({
            let o = spec_encode_patient(v)->Obj_0;
            spec_opt_i32(o, ("multipleBirthInteger")@) == Ok::<Option<i32>, DecodeError>(v.multiple_birth_integer)
        }),
        ({
            let o = spec_encode_patient(v)->Obj_0;
            spec_req_arr(o, ("photo")@) == Ok::<Seq<JsonV>, DecodeError>(spec_encode_str_all(v.photo))
        }),
        ({
            let o = spec_encode_patient(v)->Obj_0;
            spec_decode_str_all(spec_encode_str_all(v.photo)) == Ok::<Seq<Seq<char>>, DecodeError>(v.photo)
        }),
        ({
            let o = spec_encode_patient(v)->Obj_0;
            spec_req_arr(o, ("contact")@) == Ok::<Seq<JsonV>, DecodeError>(spec_encode_patient_contact_all(v.contact))
        }),
        ({
            let o = spec_encode_patient(v)->Obj_0;
            spec_decode_patient_contact_all(spec_encode_patient_contact_all(v.contact)) == Ok::<Seq<PatientContactV>, DecodeError>(v.contact)
        }),
        ({
            let o = spec_encode_patient(v)->Obj_0;
            spec_req_arr(o, ("communication")@) == Ok::<Seq<JsonV>, DecodeError>(spec_encode_patient_communication_all(v.communication))
        }),
        ({
            let o = spec_encode_patient(v)->Obj_0;
            spec_decode_patient_communication_all(spec_encode_patient_communication_all(v.communication)) == Ok::<Seq<PatientCommunicationV>, DecodeError>(v.communication)
        }),
        ({
            let o = spec_encode_patient(v)->Obj_0;
            spec_req_arr(o, ("generalPractitioner")@) == Ok::<Seq<JsonV>, DecodeError>(spec_encode_reference_all(v.general_practitioner))
        }),
        ({
            let o = spec_encode_patient(v)->Obj_0;
            spec_decode_reference_all(spec_encode_reference_all(v.general_practitioner)) == Ok::<Seq<ReferenceV>, DecodeError>(v.general_practitioner)
        }),
        ({
            let o = spec_encode_patient(v)->Obj_0;
            spec_opt_reference(o, ("managingOrganization")@) == Ok::<Option<ReferenceV>, DecodeError>(v.managing_organization)
        }),
        ({
            let o = spec_encode_patient(v)->Obj_0;
            spec_req_arr(o, ("link")@) == Ok::<Seq<JsonV>, DecodeError>(spec_encode_patient_link_all(v.link))
        }),
        ({
            let o = spec_encode_patient(v)->Obj_0;
            spec_decode_patient_link_all(spec_encode_patient_link_all(v.link)) == Ok::<Seq<PatientLinkV>, DecodeError>(v.link)
        }),
{
    lemma_patient_encode_fields_0(v);
    lemma_patient_encode_fields_1(v);
    lemma_patient_encode_fields_2(v);
    lemma_patient_encode_fields_3(v);
    lemma_patient_encode_fields_4(v);
    lemma_patient_encode_fields_5(v);
    lemma_patient_encode_fields_6(v);
    lemma_patient_encode_fields_7(v);
    lemma_patient_encode_fields_8(v);
    lemma_patient_encode_fields_9(v);
}

/// Decoding an encoded Patient yields the value back.
#[verifier::rlimit(100)]
pub proof fn lemma_patient_round_trip(v: PatientV)
    ensures
        spec_decode_patient(spec_encode_patient(v)) == Ok::<PatientV, DecodeError>(v),
{
    broadcast use group_json_views;

    lemma_patient_encode_fields(v);
}

/// Omission law: an absent optional field leaves no key in the
/// encoded object, and an empty repeated field is still present, as
/// an empty array under its key.
pub proof fn lemma_patient_omission(v: PatientV)
    ensures
        v.active is None ==> lookup(spec_encode_patient(v)->Obj_0, ("active")@) is None,
        v.gender is None ==> lookup(spec_encode_patient(v)->Obj_0, ("gender")@) is None,
        v.birth_date is None ==> lookup(spec_encode_patient(v)->Obj_0, ("birthDate")@) is None,
        v.deceased_boolean is None ==> lookup(spec_encode_patient(v)->Obj_0, ("deceasedBoolean")@) is None,
        v.deceased_date_time is None ==> lookup(spec_encode_patient(v)->Obj_0, ("deceasedDateTime")@) is None,
        v.marital_status is None ==> lookup(spec_encode_patient(v)->Obj_0, ("maritalStatus")@) is None,
        v.multiple_birth_boolean is None ==> lookup(spec_encode_patient(v)->Obj_0, ("multipleBirthBoolean")@) is None,
        v.multiple_birth_integer is None ==> lookup(spec_encode_patient(v)->Obj_0, ("multipleBirthInteger")@) is None,
        v.managing_organization is None ==> lookup(spec_encode_patient(v)->Obj_0, ("managingOrganization")@) is None,
        lookup(spec_encode_patient(v)->Obj_0, ("identifier")@) == Option::Some(JsonV::Arr(
            spec_encode_identifier_all(v.identifier),
        )),
        v.identifier.len() == 0 ==> spec_encode_identifier_all(v.identifier) == Seq::<JsonV>::empty(),
        lookup(spec_encode_patient(v)->Obj_0, ("name")@) == Option::Some(JsonV::Arr(
            spec_encode_human_name_all(v.name),
        )),
        v.name.len() == 0 ==> spec_encode_human_name_all(v.name) == Seq::<JsonV>::empty(),
        lookup(spec_encode_patient(v)->Obj_0, ("telecom")@) == Option::Some(JsonV::Arr(
            spec_encode_contact_point_all(v.telecom),
        )),
        v.telecom.len() == 0 ==> spec_encode_contact_point_all(v.telecom) == Seq::<JsonV>::empty(),
        lookup(spec_encode_patient(v)->Obj_0, ("address")@) == Option::Some(JsonV::Arr(
            spec_encode_address_all(v.address),
        )),
        v.address.len() == 0 ==> spec_encode_address_all(v.address) == Seq::<JsonV>::empty(),
        lookup(spec_encode_patient(v)->Obj_0, ("photo")@) == Option::Some(JsonV::Arr(
            spec_encode_str_all(v.photo),
        )),
        v.photo.len() == 0 ==> spec_encode_str_all(v.photo) == Seq::<JsonV>::empty(),
        lookup(spec_encode_patient(v)->Obj_0, ("contact")@) == Option::Some(JsonV::Arr(
            spec_encode_patient_contact_all(v.contact),
        )),
        v.contact.len() == 0 ==> spec_encode_patient_contact_all(v.contact) == Seq::<JsonV>::empty(),
        lookup(spec_encode_patient(v)->Obj_0, ("communication")@) == Option::Some(JsonV::Arr(
            spec_encode_patient_communication_all(v.communication),
        )),
        v.communication.len() == 0 ==> spec_encode_patient_communication_all(v.communication) == Seq::<JsonV>::empty(),
        lookup(spec_encode_patient(v)->Obj_0, ("generalPractitioner")@) == Option::Some(JsonV::Arr(
            spec_encode_reference_all(v.general_practitioner),
        )),
        v.general_practitioner.len() == 0 ==> spec_encode_reference_all(v.general_practitioner) == Seq::<JsonV>::empty(),
        lookup(spec_encode_patient(v)->Obj_0, ("link")@) == Option::Some(JsonV::Arr(
            spec_encode_patient_link_all(v.link),
        )),
        v.link.len() == 0 ==> spec_encode_patient_link_all(v.link) == Seq::<JsonV>::empty(),
{
    broadcast use group_json_views;

    lemma_patient_encode_fields(v);
}

/// Idempotence: the encoded form and its text are functions of the
/// resource value alone, so encoding the same resource twice yields
/// byte-identical output.
pub proof fn lemma_patient_encode_deterministic(a: PatientV, b: PatientV)
    requires
        a == b,
    ensures
        spec_encode_patient(a) == spec_encode_patient(b),
        spec_write_json(spec_encode_patient(a)) == spec_write_json(spec_encode_patient(b)),
{
}

} // verus!
