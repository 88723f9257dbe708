//! The `Account` resource: a financial account for billing.
use crate::json::{DecodeError, Json, JsonV, arr_view, entries_view, group_json_views, lookup, put_json, put_opt_str, put_str, seq_views, spec_opt_str, spec_req_arr, spec_req_str, take_opt_str, take_req_arr, take_req_str, spec_write_json, write_json};
use crate::account_balance::{AccountBalance, AccountBalanceV, decode_account_balance_arr, encode_account_balance_arr, lemma_account_balance_all_round_trip, lemma_account_balance_round_trip, spec_decode_account_balance_all, spec_encode_account_balance, spec_encode_account_balance_all};
use crate::account_coverage::{AccountCoverage, AccountCoverageV, decode_account_coverage_arr, encode_account_coverage_arr, lemma_account_coverage_all_round_trip, lemma_account_coverage_round_trip, spec_decode_account_coverage_all, spec_encode_account_coverage, spec_encode_account_coverage_all};
use crate::account_diagnosis::{AccountDiagnosis, AccountDiagnosisV, decode_account_diagnosis_arr, encode_account_diagnosis_arr, lemma_account_diagnosis_all_round_trip, lemma_account_diagnosis_round_trip, spec_decode_account_diagnosis_all, spec_encode_account_diagnosis, spec_encode_account_diagnosis_all};
use crate::account_guarantor::{AccountGuarantor, AccountGuarantorV, decode_account_guarantor_arr, encode_account_guarantor_arr, lemma_account_guarantor_all_round_trip, lemma_account_guarantor_round_trip, spec_decode_account_guarantor_all, spec_encode_account_guarantor, spec_encode_account_guarantor_all};
use crate::account_procedure::{AccountProcedure, AccountProcedureV, decode_account_procedure_arr, encode_account_procedure_arr, lemma_account_procedure_all_round_trip, lemma_account_procedure_round_trip, spec_decode_account_procedure_all, spec_encode_account_procedure, spec_encode_account_procedure_all};
use crate::account_related_account::{AccountRelatedAccount, AccountRelatedAccountV, decode_account_related_account_arr, encode_account_related_account_arr, lemma_account_related_account_all_round_trip, lemma_account_related_account_round_trip, spec_decode_account_related_account_all, spec_encode_account_related_account, spec_encode_account_related_account_all};
use crate::data_types::codeable_concept::{CodeableConcept, CodeableConceptV, lemma_codeable_concept_round_trip, spec_encode_codeable_concept, spec_opt_codeable_concept, take_opt_codeable_concept};
use crate::data_types::reference::{Reference, ReferenceV, decode_reference_arr, encode_reference_arr, lemma_reference_all_round_trip, lemma_reference_round_trip, spec_decode_reference_all, spec_encode_reference, spec_encode_reference_all, spec_opt_reference, take_opt_reference};
use crate::identifier::{Identifier, IdentifierV, decode_identifier_arr, encode_identifier_arr, lemma_identifier_all_round_trip, lemma_identifier_round_trip, spec_decode_identifier_all, spec_encode_identifier, spec_encode_identifier_all};
use crate::period::{Period, PeriodV, lemma_period_round_trip, spec_encode_period, spec_opt_period, take_opt_period};
use vstd::prelude::*;

verus! {

/// A financial account resource: a tracked balance for billing.
#[derive(Debug, Clone, PartialEq)]
pub struct Account {
    resource_type: String,
    identifier: Vec<Identifier>,
    status: Option<String>,
    billing_status: Option<CodeableConcept>,
    account_type: Option<CodeableConcept>,
    name: Option<String>,
    subject: Vec<Reference>,
    service_period: Option<Period>,
    coverage: Vec<AccountCoverage>,
    owner: Option<Reference>,
    description: Option<String>,
    guarantor: Vec<AccountGuarantor>,
    diagnosis: Vec<AccountDiagnosis>,
    procedure: Vec<AccountProcedure>,
    related_account: Vec<AccountRelatedAccount>,
    currency: Option<CodeableConcept>,
    balance: Vec<AccountBalance>,
    calculated_at: Option<String>,
}

/// The mathematical shape of an `Account` value.
pub struct AccountV {
    pub resource_type: Seq<char>,
    pub identifier: Seq<IdentifierV>,
    pub status: Option<Seq<char>>,
    pub billing_status: Option<CodeableConceptV>,
    pub account_type: Option<CodeableConceptV>,
    pub name: Option<Seq<char>>,
    pub subject: Seq<ReferenceV>,
    pub service_period: Option<PeriodV>,
    pub coverage: Seq<AccountCoverageV>,
    pub owner: Option<ReferenceV>,
    pub description: Option<Seq<char>>,
    pub guarantor: Seq<AccountGuarantorV>,
    pub diagnosis: Seq<AccountDiagnosisV>,
    pub procedure: Seq<AccountProcedureV>,
    pub related_account: Seq<AccountRelatedAccountV>,
    pub currency: Option<CodeableConceptV>,
    pub balance: Seq<AccountBalanceV>,
    pub calculated_at: Option<Seq<char>>,
}

impl View for Account {
    type V = AccountV;

    closed spec fn view(&self) -> AccountV {
        AccountV {
            resource_type: self.resource_type@,
            identifier: seq_views(self.identifier@),
            status: match self.status {
                Option::Some(ref s) => Option::Some(s@),
                Option::None => Option::None,
            },
            billing_status: match self.billing_status {
                Option::Some(ref x) => Option::Some(x@),
                Option::None => Option::None,
            },
            account_type: match self.account_type {
                Option::Some(ref x) => Option::Some(x@),
                Option::None => Option::None,
            },
            name: match self.name {
                Option::Some(ref s) => Option::Some(s@),
                Option::None => Option::None,
            },
            subject: seq_views(self.subject@),
            service_period: match self.service_period {
                Option::Some(ref x) => Option::Some(x@),
                Option::None => Option::None,
            },
            coverage: seq_views(self.coverage@),
            owner: match self.owner {
                Option::Some(ref x) => Option::Some(x@),
                Option::None => Option::None,
            },
            description: match self.description {
                Option::Some(ref s) => Option::Some(s@),
                Option::None => Option::None,
            },
            guarantor: seq_views(self.guarantor@),
            diagnosis: seq_views(self.diagnosis@),
            procedure: seq_views(self.procedure@),
            related_account: seq_views(self.related_account@),
            currency: match self.currency {
                Option::Some(ref x) => Option::Some(x@),
                Option::None => Option::None,
            },
            balance: seq_views(self.balance@),
            calculated_at: match self.calculated_at {
                Option::Some(ref s) => Option::Some(s@),
                Option::None => Option::None,
            },
        }
    }
}

impl Account {
    /// An account with its kind label set and everything else absent.
    pub fn new() -> (r: Account)
        ensures
            r@ == (AccountV {
                resource_type: ("Account")@,
                identifier: Seq::empty(),
                status: Option::None,
                billing_status: Option::None,
                account_type: Option::None,
                name: Option::None,
                subject: Seq::empty(),
                service_period: Option::None,
                coverage: Seq::empty(),
                owner: Option::None,
                description: Option::None,
                guarantor: Seq::empty(),
                diagnosis: Seq::empty(),
                procedure: Seq::empty(),
                related_account: Seq::empty(),
                currency: Option::None,
                balance: Seq::empty(),
                calculated_at: Option::None,
            }),
    {
        broadcast use group_json_views;

        let r = Account {
            resource_type: String::from_str("Account"),
            identifier: Vec::new(),
            status: Option::None,
            billing_status: Option::None,
            account_type: Option::None,
            name: Option::None,
            subject: Vec::new(),
            service_period: Option::None,
            coverage: Vec::new(),
            owner: Option::None,
            description: Option::None,
            guarantor: Vec::new(),
            diagnosis: Vec::new(),
            procedure: Vec::new(),
            related_account: Vec::new(),
            currency: Option::None,
            balance: Vec::new(),
            calculated_at: Option::None,
        };
        proof {
            assert(r@.identifier =~= Seq::<IdentifierV>::empty());
            assert(r@.subject =~= Seq::<ReferenceV>::empty());
            assert(r@.coverage =~= Seq::<AccountCoverageV>::empty());
            assert(r@.guarantor =~= Seq::<AccountGuarantorV>::empty());
            assert(r@.diagnosis =~= Seq::<AccountDiagnosisV>::empty());
            assert(r@.procedure =~= Seq::<AccountProcedureV>::empty());
            assert(r@.related_account =~= Seq::<AccountRelatedAccountV>::empty());
            assert(r@.balance =~= Seq::<AccountBalanceV>::empty());
        }
        r
    }

    /// An account with the given kind label and everything else absent.
    pub fn with_resource_type(resource_type: String) -> (r: Account)
        ensures
            r@ == (AccountV {
                resource_type: resource_type@,
                identifier: Seq::empty(),
                status: Option::None,
                billing_status: Option::None,
                account_type: Option::None,
                name: Option::None,
                subject: Seq::empty(),
                service_period: Option::None,
                coverage: Seq::empty(),
                owner: Option::None,
                description: Option::None,
                guarantor: Seq::empty(),
                diagnosis: Seq::empty(),
                procedure: Seq::empty(),
                related_account: Seq::empty(),
                currency: Option::None,
                balance: Seq::empty(),
                calculated_at: Option::None,
            }),
    {
        broadcast use group_json_views;

        let r = Account {
            resource_type: resource_type,
            identifier: Vec::new(),
            status: Option::None,
            billing_status: Option::None,
            account_type: Option::None,
            name: Option::None,
            subject: Vec::new(),
            service_period: Option::None,
            coverage: Vec::new(),
            owner: Option::None,
            description: Option::None,
            guarantor: Vec::new(),
            diagnosis: Vec::new(),
            procedure: Vec::new(),
            related_account: Vec::new(),
            currency: Option::None,
            balance: Vec::new(),
            calculated_at: Option::None,
        };
        proof {
            assert(r@.identifier =~= Seq::<IdentifierV>::empty());
            assert(r@.subject =~= Seq::<ReferenceV>::empty());
            assert(r@.coverage =~= Seq::<AccountCoverageV>::empty());
            assert(r@.guarantor =~= Seq::<AccountGuarantorV>::empty());
            assert(r@.diagnosis =~= Seq::<AccountDiagnosisV>::empty());
            assert(r@.procedure =~= Seq::<AccountProcedureV>::empty());
            assert(r@.related_account =~= Seq::<AccountRelatedAccountV>::empty());
            assert(r@.balance =~= Seq::<AccountBalanceV>::empty());
        }
        r
    }

    /// The kind label of the resource.
    pub fn resource_type(&self) -> (r: &str)
        ensures
            r@ == self@.resource_type,
    {
        self.resource_type.as_str()
    }

    /// The identifiers, in order.
    pub fn identifiers(&self) -> (r: &[Identifier])
        ensures
            seq_views(r@) == self@.identifier,
    {
        self.identifier.as_slice()
    }

    /// The status, when set.
    pub fn status(&self) -> (r: Option<&str>)
        ensures
            match r {
                Option::Some(s) => self@.status == Option::Some(s@),
                Option::None => self@.status is None,
            },
    {
        match &self.status {
            Option::Some(s) => Option::Some(s.as_str()),
            Option::None => Option::None,
        }
    }

    /// The billing status, when set.
    pub fn billing_status(&self) -> (r: Option<&CodeableConcept>)
        ensures
            match r {
                Option::Some(x) => self@.billing_status == Option::Some(x@),
                Option::None => self@.billing_status is None,
            },
    {
        match &self.billing_status {
            Option::Some(x) => Option::Some(x),
            Option::None => Option::None,
        }
    }

    /// The account type, when set.
    pub fn account_type(&self) -> (r: Option<&CodeableConcept>)
        ensures
            match r {
                Option::Some(x) => self@.account_type == Option::Some(x@),
                Option::None => self@.account_type is None,
            },
    {
        match &self.account_type {
            Option::Some(x) => Option::Some(x),
            Option::None => Option::None,
        }
    }

    /// The name, when set.
    pub fn name(&self) -> (r: Option<&str>)
        ensures
            match r {
                Option::Some(s) => self@.name == Option::Some(s@),
                Option::None => self@.name is None,
            },
    {
        match &self.name {
            Option::Some(s) => Option::Some(s.as_str()),
            Option::None => Option::None,
        }
    }

    /// The subjects, in order.
    pub fn subject(&self) -> (r: &[Reference])
        ensures
            seq_views(r@) == self@.subject,
    {
        self.subject.as_slice()
    }

    /// The service period, when set.
    pub fn service_period(&self) -> (r: Option<&Period>)
        ensures
            match r {
                Option::Some(x) => self@.service_period == Option::Some(x@),
                Option::None => self@.service_period is None,
            },
    {
        match &self.service_period {
            Option::Some(x) => Option::Some(x),
            Option::None => Option::None,
        }
    }

    /// The coverage entries, in order.
    pub fn coverage(&self) -> (r: &[AccountCoverage])
        ensures
            seq_views(r@) == self@.coverage,
    {
        self.coverage.as_slice()
    }

    /// The owner, when set.
    pub fn owner(&self) -> (r: Option<&Reference>)
        ensures
            match r {
                Option::Some(x) => self@.owner == Option::Some(x@),
                Option::None => self@.owner is None,
            },
    {
        match &self.owner {
            Option::Some(x) => Option::Some(x),
            Option::None => Option::None,
        }
    }

    /// The description, when set.
    pub fn description(&self) -> (r: Option<&str>)
        ensures
            match r {
                Option::Some(s) => self@.description == Option::Some(s@),
                Option::None => self@.description is None,
            },
    {
        match &self.description {
            Option::Some(s) => Option::Some(s.as_str()),
            Option::None => Option::None,
        }
    }

    /// The guarantors, in order.
    pub fn guarantor(&self) -> (r: &[AccountGuarantor])
        ensures
            seq_views(r@) == self@.guarantor,
    {
        self.guarantor.as_slice()
    }

    /// The diagnoses, in order.
    pub fn diagnosis(&self) -> (r: &[AccountDiagnosis])
        ensures
            seq_views(r@) == self@.diagnosis,
    {
        self.diagnosis.as_slice()
    }

    /// The procedures, in order.
    pub fn procedure(&self) -> (r: &[AccountProcedure])
        ensures
            seq_views(r@) == self@.procedure,
    {
        self.procedure.as_slice()
    }

    /// The related accounts, in order.
    pub fn related_account(&self) -> (r: &[AccountRelatedAccount])
        ensures
            seq_views(r@) == self@.related_account,
    {
        self.related_account.as_slice()
    }

    /// The currency, when set.
    pub fn currency(&self) -> (r: Option<&CodeableConcept>)
        ensures
            match r {
                Option::Some(x) => self@.currency == Option::Some(x@),
                Option::None => self@.currency is None,
            },
    {
        match &self.currency {
            Option::Some(x) => Option::Some(x),
            Option::None => Option::None,
        }
    }

    /// The balances, in order.
    pub fn balance(&self) -> (r: &[AccountBalance])
        ensures
            seq_views(r@) == self@.balance,
    {
        self.balance.as_slice()
    }

    /// The calculation time, when set.
    pub fn calculated_at(&self) -> (r: Option<&str>)
        ensures
            match r {
                Option::Some(s) => self@.calculated_at == Option::Some(s@),
                Option::None => self@.calculated_at is None,
            },
    {
        match &self.calculated_at {
            Option::Some(s) => Option::Some(s.as_str()),
            Option::None => Option::None,
        }
    }

    /// Replaces the kind label.
    pub fn set_resource_type(&mut self, resource_type: String)
        ensures
            final(self)@ == (AccountV { resource_type: resource_type@, ..old(self)@ }),
    {
        self.resource_type = resource_type;
    }

    /// Replaces the identifiers.
    pub fn set_identifiers(&mut self, identifier: Vec<Identifier>)
        ensures
            final(self)@ == (AccountV { identifier: seq_views(identifier@), ..old(self)@ }),
    {
        self.identifier = identifier;
    }

    /// Appends an identifier.
    pub fn add_identifier(&mut self, x: Identifier)
        ensures
            final(self)@ == (AccountV { identifier: old(self)@.identifier.push(x@), ..old(self)@ }),
    {
        broadcast use group_json_views;

        self.identifier.push(x);
    }

    /// Replaces the status.
    pub fn set_status(&mut self, status: Option<String>)
        ensures
            final(self)@ == (AccountV { status: match status {
                Option::Some(ref s) => Option::Some(s@),
                Option::None => Option::None,
            }, ..old(self)@ }),
    {
        self.status = status;
    }

    /// Replaces the billing status.
    pub fn set_billing_status(&mut self, billing_status: Option<CodeableConcept>)
        ensures
            final(self)@ == (AccountV { billing_status: match billing_status {
                Option::Some(ref x) => Option::Some(x@),
                Option::None => Option::None,
            }, ..old(self)@ }),
    {
        self.billing_status = billing_status;
    }

    /// Replaces the account type.
    pub fn set_account_type(&mut self, account_type: Option<CodeableConcept>)
        ensures
            final(self)@ == (AccountV { account_type: match account_type {
                Option::Some(ref x) => Option::Some(x@),
                Option::None => Option::None,
            }, ..old(self)@ }),
    {
        self.account_type = account_type;
    }

    /// Replaces the name.
    pub fn set_name(&mut self, name: Option<String>)
        ensures
            final(self)@ == (AccountV { name: match name {
                Option::Some(ref s) => Option::Some(s@),
                Option::None => Option::None,
            }, ..old(self)@ }),
    {
        self.name = name;
    }

    /// Replaces the subjects.
    pub fn set_subject(&mut self, subject: Vec<Reference>)
        ensures
            final(self)@ == (AccountV { subject: seq_views(subject@), ..old(self)@ }),
    {
        self.subject = subject;
    }

    /// Appends a subject.
    pub fn add_subject(&mut self, x: Reference)
        ensures
            final(self)@ == (AccountV { subject: old(self)@.subject.push(x@), ..old(self)@ }),
    {
        broadcast use group_json_views;

        self.subject.push(x);
    }

    /// Replaces the service period.
    pub fn set_service_period(&mut self, service_period: Option<Period>)
        ensures
            final(self)@ == (AccountV { service_period: match service_period {
                Option::Some(ref x) => Option::Some(x@),
                Option::None => Option::None,
            }, ..old(self)@ }),
    {
        self.service_period = service_period;
    }

    /// Replaces the coverage entries.
    pub fn set_coverage(&mut self, coverage: Vec<AccountCoverage>)
        ensures
            final(self)@ == (AccountV { coverage: seq_views(coverage@), ..old(self)@ }),
    {
        self.coverage = coverage;
    }

    /// Appends a coverage entry.
    pub fn add_coverage(&mut self, x: AccountCoverage)
        ensures
            final(self)@ == (AccountV { coverage: old(self)@.coverage.push(x@), ..old(self)@ }),
    {
        broadcast use group_json_views;

        self.coverage.push(x);
    }

    /// Replaces the owner.
    pub fn set_owner(&mut self, owner: Option<Reference>)
        ensures
            final(self)@ == (AccountV { owner: match owner {
                Option::Some(ref x) => Option::Some(x@),
                Option::None => Option::None,
            }, ..old(self)@ }),
    {
        self.owner = owner;
    }

    /// Replaces the description.
    pub fn set_description(&mut self, description: Option<String>)
        ensures
            final(self)@ == (AccountV { description: match description {
                Option::Some(ref s) => Option::Some(s@),
                Option::None => Option::None,
            }, ..old(self)@ }),
    {
        self.description = description;
    }

    /// Replaces the guarantors.
    pub fn set_guarantor(&mut self, guarantor: Vec<AccountGuarantor>)
        ensures
            final(self)@ == (AccountV { guarantor: seq_views(guarantor@), ..old(self)@ }),
    {
        self.guarantor = guarantor;
    }

    /// Appends a guarantor.
    pub fn add_guarantor(&mut self, x: AccountGuarantor)
        ensures
            final(self)@ == (AccountV { guarantor: old(self)@.guarantor.push(x@), ..old(self)@ }),
    {
        broadcast use group_json_views;

        self.guarantor.push(x);
    }

    /// Replaces the diagnoses.
    pub fn set_diagnosis(&mut self, diagnosis: Vec<AccountDiagnosis>)
        ensures
            final(self)@ == (AccountV { diagnosis: seq_views(diagnosis@), ..old(self)@ }),
    {
        self.diagnosis = diagnosis;
    }

    /// Appends a diagnosis.
    pub fn add_diagnosis(&mut self, x: AccountDiagnosis)
        ensures
            final(self)@ == (AccountV { diagnosis: old(self)@.diagnosis.push(x@), ..old(self)@ }),
    {
        broadcast use group_json_views;

        self.diagnosis.push(x);
    }

    /// Replaces the procedures.
    pub fn set_procedure(&mut self, procedure: Vec<AccountProcedure>)
        ensures
            final(self)@ == (AccountV { procedure: seq_views(procedure@), ..old(self)@ }),
    {
        self.procedure = procedure;
    }

    /// Appends a procedure.
    pub fn add_procedure(&mut self, x: AccountProcedure)
        ensures
            final(self)@ == (AccountV { procedure: old(self)@.procedure.push(x@), ..old(self)@ }),
    {
        broadcast use group_json_views;

        self.procedure.push(x);
    }

    /// Replaces the related accounts.
    pub fn set_related_account(&mut self, related_account: Vec<AccountRelatedAccount>)
        ensures
            final(self)@ == (AccountV { related_account: seq_views(related_account@), ..old(self)@ }),
    {
        self.related_account = related_account;
    }

    /// Appends a related account.
    pub fn add_related_account(&mut self, x: AccountRelatedAccount)
        ensures
            final(self)@ == (AccountV { related_account: old(self)@.related_account.push(x@), ..old(self)@ }),
    {
        broadcast use group_json_views;

        self.related_account.push(x);
    }

    /// Replaces the currency.
    pub fn set_currency(&mut self, currency: Option<CodeableConcept>)
        ensures
            final(self)@ == (AccountV { currency: match currency {
                Option::Some(ref x) => Option::Some(x@),
                Option::None => Option::None,
            }, ..old(self)@ }),
    {
        self.currency = currency;
    }

    /// Replaces the balances.
    pub fn set_balance(&mut self, balance: Vec<AccountBalance>)
        ensures
            final(self)@ == (AccountV { balance: seq_views(balance@), ..old(self)@ }),
    {
        self.balance = balance;
    }

    /// Appends a balance.
    pub fn add_balance(&mut self, x: AccountBalance)
        ensures
            final(self)@ == (AccountV { balance: old(self)@.balance.push(x@), ..old(self)@ }),
    {
        broadcast use group_json_views;

        self.balance.push(x);
    }

    /// Replaces the calculation time.
    pub fn set_calculated_at(&mut self, calculated_at: Option<String>)
        ensures
            final(self)@ == (AccountV { calculated_at: match calculated_at {
                Option::Some(ref s) => Option::Some(s@),
                Option::None => Option::None,
            }, ..old(self)@ }),
    {
        self.calculated_at = calculated_at;
    }

    /// Encodes the value as an object in fixed field order, omitting
    /// absent optional fields.
    pub fn encode(&self) -> (r: Json)
        ensures
            r@ == spec_encode_account(self@),
    {
        broadcast use group_json_views;

        let mut entries: Vec<(String, Json)> = Vec::new();
        proof {
            assert(entries_view(entries@) =~= Seq::<(Seq<char>, JsonV)>::empty());
        }
        put_str(&mut entries, "resourceType", self.resource_type.as_str());
        put_json(&mut entries, "identifier", encode_identifier_arr(&self.identifier));
        put_opt_str(&mut entries, "status", &self.status);
        match &self.billing_status {
            Option::Some(x) => put_json(&mut entries, "billingStatus", x.encode()),
            Option::None => (),
        };
        match &self.account_type {
            Option::Some(x) => put_json(&mut entries, "type", x.encode()),
            Option::None => (),
        };
        put_opt_str(&mut entries, "name", &self.name);
        put_json(&mut entries, "subject", encode_reference_arr(&self.subject));
        match &self.service_period {
            Option::Some(x) => put_json(&mut entries, "servicePeriod", x.encode()),
            Option::None => (),
        };
        put_json(&mut entries, "coverage", encode_account_coverage_arr(&self.coverage));
        match &self.owner {
            Option::Some(x) => put_json(&mut entries, "owner", x.encode()),
            Option::None => (),
        };
        put_opt_str(&mut entries, "description", &self.description);
        put_json(&mut entries, "guarantor", encode_account_guarantor_arr(&self.guarantor));
        put_json(&mut entries, "diagnosis", encode_account_diagnosis_arr(&self.diagnosis));
        put_json(&mut entries, "procedure", encode_account_procedure_arr(&self.procedure));
        put_json(&mut entries, "relatedAccount", encode_account_related_account_arr(&self.related_account));
        match &self.currency {
            Option::Some(x) => put_json(&mut entries, "currency", x.encode()),
            Option::None => (),
        };
        put_json(&mut entries, "balance", encode_account_balance_arr(&self.balance));
        put_opt_str(&mut entries, "calculatedAt", &self.calculated_at);
        let r = Json::Obj(entries);
        proof {
            assert(r@->Obj_0 =~= spec_encode_account(self@)->Obj_0);
        }
        r
    }

    /// Renders the value as JSON text: fixed field order and omission of
    /// absent optional fields, so equal values yield byte-identical text.
    pub fn to_json(&self) -> (r: String)
        ensures
            r@ == spec_write_json(spec_encode_account(self@)),
    {
        write_json(&self.encode())
    }

    /// Decodes a value from an object, treating a missing key as an
    /// absent optional field; fails on any other shape.
    pub fn decode(j: &Json) -> (r: Result<Account, DecodeError>)
        ensures
            match r {
                Ok(x) => spec_decode_account(j@) == Ok::<AccountV, DecodeError>(x@),
                Err(e) => spec_decode_account(j@) == Err::<AccountV, DecodeError>(e),
            },
    {
        match j {
            Json::Obj(entries) => {
                proof {
                    assert(j@->Obj_0 =~= entries_view(entries@));
                }
                let resource_type = match take_req_str(entries, "resourceType") {
                    Ok(v) => v,
                    Err(e) => return Err(e),
                };
                let identifier = match take_req_arr(entries, "identifier") {
                    Ok(a) => match decode_identifier_arr(a) {
                        Ok(v) => v,
                        Err(e) => return Err(e),
                    },
                    Err(e) => return Err(e),
                };
                let status = match take_opt_str(entries, "status") {
                    Ok(v) => v,
                    Err(e) => return Err(e),
                };
                let billing_status = match take_opt_codeable_concept(entries, "billingStatus") {
                    Ok(v) => v,
                    Err(e) => return Err(e),
                };
                let account_type = match take_opt_codeable_concept(entries, "type") {
                    Ok(v) => v,
                    Err(e) => return Err(e),
                };
                let name = match take_opt_str(entries, "name") {
                    Ok(v) => v,
                    Err(e) => return Err(e),
                };
                let subject = match take_req_arr(entries, "subject") {
                    Ok(a) => match decode_reference_arr(a) {
                        Ok(v) => v,
                        Err(e) => return Err(e),
                    },
                    Err(e) => return Err(e),
                };
                let service_period = match take_opt_period(entries, "servicePeriod") {
                    Ok(v) => v,
                    Err(e) => return Err(e),
                };
                let coverage = match take_req_arr(entries, "coverage") {
                    Ok(a) => match decode_account_coverage_arr(a) {
                        Ok(v) => v,
                        Err(e) => return Err(e),
                    },
                    Err(e) => return Err(e),
                };
                let owner = match take_opt_reference(entries, "owner") {
                    Ok(v) => v,
                    Err(e) => return Err(e),
                };
                let description = match take_opt_str(entries, "description") {
                    Ok(v) => v,
                    Err(e) => return Err(e),
                };
                let guarantor = match take_req_arr(entries, "guarantor") {
                    Ok(a) => match decode_account_guarantor_arr(a) {
                        Ok(v) => v,
                        Err(e) => return Err(e),
                    },
                    Err(e) => return Err(e),
                };
                let diagnosis = match take_req_arr(entries, "diagnosis") {
                    Ok(a) => match decode_account_diagnosis_arr(a) {
                        Ok(v) => v,
                        Err(e) => return Err(e),
                    },
                    Err(e) => return Err(e),
                };
                let procedure = match take_req_arr(entries, "procedure") {
                    Ok(a) => match decode_account_procedure_arr(a) {
                        Ok(v) => v,
                        Err(e) => return Err(e),
                    },
                    Err(e) => return Err(e),
                };
                let related_account = match take_req_arr(entries, "relatedAccount") {
                    Ok(a) => match decode_account_related_account_arr(a) {
                        Ok(v) => v,
                        Err(e) => return Err(e),
                    },
                    Err(e) => return Err(e),
                };
                let currency = match take_opt_codeable_concept(entries, "currency") {
                    Ok(v) => v,
                    Err(e) => return Err(e),
                };
                let balance = match take_req_arr(entries, "balance") {
                    Ok(a) => match decode_account_balance_arr(a) {
                        Ok(v) => v,
                        Err(e) => return Err(e),
                    },
                    Err(e) => return Err(e),
                };
                let calculated_at = match take_opt_str(entries, "calculatedAt") {
                    Ok(v) => v,
                    Err(e) => return Err(e),
                };
                Ok(Account { resource_type, identifier, status, billing_status, account_type, name, subject, service_period, coverage, owner, description, guarantor, diagnosis, procedure, related_account, currency, balance, calculated_at })
            },
            _ => Err(DecodeError::TypeMismatch),
        }
    }
}

impl Default for Account {
    /// An account with its kind label set and everything else absent.
    fn default() -> (r: Account)
        ensures
            r@ == (AccountV {
                resource_type: ("Account")@,
                identifier: Seq::empty(),
                status: Option::None,
                billing_status: Option::None,
                account_type: Option::None,
                name: Option::None,
                subject: Seq::empty(),
                service_period: Option::None,
                coverage: Seq::empty(),
                owner: Option::None,
                description: Option::None,
                guarantor: Seq::empty(),
                diagnosis: Seq::empty(),
                procedure: Seq::empty(),
                related_account: Seq::empty(),
                currency: Option::None,
                balance: Seq::empty(),
                calculated_at: Option::None,
            }),
    {
        Account::new()
    }
}

/// The encoded form of an `Account` value: its fields in declaration order, each
/// optional field present exactly when set.
pub open spec fn spec_encode_account(v: AccountV) -> JsonV {
    let o = Seq::<(Seq<char>, JsonV)>::empty();
    let o = o.push((("resourceType")@, JsonV::Str(v.resource_type)));
    let o = o.push((("identifier")@, JsonV::Arr(spec_encode_identifier_all(v.identifier))));
    let o = if v.status is Some {
        o.push((("status")@, JsonV::Str(v.status->Some_0)))
    } else {
        o
    };
    let o = if v.billing_status is Some {
        o.push((("billingStatus")@, spec_encode_codeable_concept(v.billing_status->Some_0)))
    } else {
        o
    };
    let o = if v.account_type is Some {
        o.push((("type")@, spec_encode_codeable_concept(v.account_type->Some_0)))
    } else {
        o
    };
    let o = if v.name is Some {
        o.push((("name")@, JsonV::Str(v.name->Some_0)))
    } else {
        o
    };
    let o = o.push((("subject")@, JsonV::Arr(spec_encode_reference_all(v.subject))));
    let o = if v.service_period is Some {
        o.push((("servicePeriod")@, spec_encode_period(v.service_period->Some_0)))
    } else {
        o
    };
    let o = o.push((("coverage")@, JsonV::Arr(spec_encode_account_coverage_all(v.coverage))));
    let o = if v.owner is Some {
        o.push((("owner")@, spec_encode_reference(v.owner->Some_0)))
    } else {
        o
    };
    let o = if v.description is Some {
        o.push((("description")@, JsonV::Str(v.description->Some_0)))
    } else {
        o
    };
    let o = o.push((("guarantor")@, JsonV::Arr(spec_encode_account_guarantor_all(v.guarantor))));
    let o = o.push((("diagnosis")@, JsonV::Arr(spec_encode_account_diagnosis_all(v.diagnosis))));
    let o = o.push((("procedure")@, JsonV::Arr(spec_encode_account_procedure_all(v.procedure))));
    let o = o.push((("relatedAccount")@, JsonV::Arr(spec_encode_account_related_account_all(v.related_account))));
    let o = if v.currency is Some {
        o.push((("currency")@, spec_encode_codeable_concept(v.currency->Some_0)))
    } else {
        o
    };
    let o = o.push((("balance")@, JsonV::Arr(spec_encode_account_balance_all(v.balance))));
    let o = if v.calculated_at is Some {
        o.push((("calculatedAt")@, JsonV::Str(v.calculated_at->Some_0)))
    } else {
        o
    };
    JsonV::Obj(o)
}

/// The decoded reading of an `Account` value.
pub open spec fn spec_decode_account(j: JsonV) -> Result<AccountV, DecodeError> {
    match j {
        JsonV::Obj(o) => match spec_req_str(o, ("resourceType")@) {
            Ok(resource_type) => match spec_req_arr(o, ("identifier")@) {
                Ok(identifier_arr) => match spec_decode_identifier_all(identifier_arr) {
                    Ok(identifier) => match spec_opt_str(o, ("status")@) {
                    Ok(status) => match spec_opt_codeable_concept(o, ("billingStatus")@) {
                        Ok(billing_status) => match spec_opt_codeable_concept(o, ("type")@) {
                            Ok(account_type) => match spec_opt_str(o, ("name")@) {
                                Ok(name) => match spec_req_arr(o, ("subject")@) {
                                    Ok(subject_arr) => match spec_decode_reference_all(subject_arr) {
                                        Ok(subject) => match spec_opt_period(o, ("servicePeriod")@) {
                                        Ok(service_period) => match spec_req_arr(o, ("coverage")@) {
                                            Ok(coverage_arr) => match spec_decode_account_coverage_all(coverage_arr) {
                                                Ok(coverage) => match spec_opt_reference(o, ("owner")@) {
                                                Ok(owner) => match spec_opt_str(o, ("description")@) {
                                                    Ok(description) => match spec_req_arr(o, ("guarantor")@) {
                                                        Ok(guarantor_arr) => match spec_decode_account_guarantor_all(guarantor_arr) {
                                                            Ok(guarantor) => match spec_req_arr(o, ("diagnosis")@) {
                                                            Ok(diagnosis_arr) => match spec_decode_account_diagnosis_all(diagnosis_arr) {
                                                                Ok(diagnosis) => match spec_req_arr(o, ("procedure")@) {
                                                                Ok(procedure_arr) => match spec_decode_account_procedure_all(procedure_arr) {
                                                                    Ok(procedure) => match spec_req_arr(o, ("relatedAccount")@) {
                                                                    Ok(related_account_arr) => match spec_decode_account_related_account_all(related_account_arr) {
                                                                        Ok(related_account) => match spec_opt_codeable_concept(o, ("currency")@) {
                                                                        Ok(currency) => match spec_req_arr(o, ("balance")@) {
                                                                            Ok(balance_arr) => match spec_decode_account_balance_all(balance_arr) {
                                                                                Ok(balance) => match spec_opt_str(o, ("calculatedAt")@) {
                                                                                Ok(calculated_at) => Ok(AccountV { resource_type, identifier, status, billing_status, account_type, name, subject, service_period, coverage, owner, description, guarantor, diagnosis, procedure, related_account, currency, balance, calculated_at }),
                                                                                Err(e) => Err(e),
                                                                            },
                                                                                Err(e) => Err(e),
                                                                            },
                                                                            Err(e) => Err(e),
                                                                        },
                                                                        Err(e) => Err(e),
                                                                    },
                                                                        Err(e) => Err(e),
                                                                    },
                                                                    Err(e) => Err(e),
                                                                },
                                                                    Err(e) => Err(e),
                                                                },
                                                                Err(e) => Err(e),
                                                            },
                                                                Err(e) => Err(e),
                                                            },
                                                            Err(e) => Err(e),
                                                        },
                                                            Err(e) => Err(e),
                                                        },
                                                        Err(e) => Err(e),
                                                    },
                                                    Err(e) => Err(e),
                                                },
                                                Err(e) => Err(e),
                                            },
                                                Err(e) => Err(e),
                                            },
                                            Err(e) => Err(e),
                                        },
                                        Err(e) => Err(e),
                                    },
                                        Err(e) => Err(e),
                                    },
                                    Err(e) => Err(e),
                                },
                                Err(e) => Err(e),
                            },
                            Err(e) => Err(e),
                        },
                        Err(e) => Err(e),
                    },
                    Err(e) => Err(e),
                },
                    Err(e) => Err(e),
                },
                Err(e) => Err(e),
            },
            Err(e) => Err(e),
        },
        _ => Err(DecodeError::TypeMismatch),
    }
}

/// Each field of an encoded Account in this group reads back under
/// its own key, exactly as it was set.
#[verifier::rlimit(100)]
proof fn lemma_account_encode_fields_0(v: AccountV)
    ensures
        ({
            let o = spec_encode_account(v)->Obj_0;
            spec_req_str(o, ("resourceType")@) == Ok::<Seq<char>, DecodeError>(v.resource_type)
        }),
        ({
            let o = spec_encode_account(v)->Obj_0;
            spec_req_arr(o, ("identifier")@) == Ok::<Seq<JsonV>, DecodeError>(spec_encode_identifier_all(v.identifier))
        }),
        ({
            let o = spec_encode_account(v)->Obj_0;
            spec_decode_identifier_all(spec_encode_identifier_all(v.identifier)) == Ok::<Seq<IdentifierV>, DecodeError>(v.identifier)
        }),
{
    broadcast use group_json_views;

    reveal_strlit("resourceType");
    reveal_strlit("identifier");
    reveal_strlit("status");
    reveal_strlit("billingStatus");
    reveal_strlit("type");
    reveal_strlit("name");
    reveal_strlit("subject");
    reveal_strlit("servicePeriod");
    reveal_strlit("coverage");
    reveal_strlit("owner");
    reveal_strlit("description");
    reveal_strlit("guarantor");
    reveal_strlit("diagnosis");
    reveal_strlit("procedure");
    reveal_strlit("relatedAccount");
    reveal_strlit("currency");
    reveal_strlit("balance");
    reveal_strlit("calculatedAt");
    assert(("resourceType")@.len() == 12);
    assert(("identifier")@.len() == 10);
    assert(("status")@.len() == 6);
    assert(("billingStatus")@.len() == 13);
    assert(("type")@.len() == 4);
    assert(("name")@.len() == 4);
    assert(("subject")@.len() == 7);
    assert(("servicePeriod")@.len() == 13);
    assert(("coverage")@.len() == 8);
    assert(("owner")@.len() == 5);
    assert(("description")@.len() == 11);
    assert(("guarantor")@.len() == 9);
    assert(("diagnosis")@.len() == 9);
    assert(("procedure")@.len() == 9);
    assert(("relatedAccount")@.len() == 14);
    assert(("currency")@.len() == 8);
    assert(("balance")@.len() == 7);
    assert(("calculatedAt")@.len() == 12);
    assert(("resourceType")@[0] != ("calculatedAt")@[0]);
    assert(("billingStatus")@[0] != ("servicePeriod")@[0]);
    assert(("type")@[0] != ("name")@[0]);
    assert(("subject")@[0] != ("balance")@[0]);
    assert(("coverage")@[1] != ("currency")@[1]);
    assert(("guarantor")@[0] != ("diagnosis")@[0]);
    assert(("guarantor")@[0] != ("procedure")@[0]);
    assert(("diagnosis")@[0] != ("procedure")@[0]);
    lemma_identifier_all_round_trip(v.identifier);
    let o = spec_encode_account(v)->Obj_0;
    assert(lookup(o, ("resourceType")@) == Option::Some(JsonV::Str(v.resource_type)));
    assert(lookup(o, ("identifier")@) == Option::Some(JsonV::Arr(spec_encode_identifier_all(v.identifier))));
}

/// Each field of an encoded Account in this group reads back under
/// its own key, exactly as it was set.
#[verifier::rlimit(100)]
proof fn lemma_account_encode_fields_1(v: AccountV)
    ensures
        ({
            let o = spec_encode_account(v)->Obj_0;
            spec_opt_str(o, ("status")@) == Ok::<Option<Seq<char>>, DecodeError>(v.status)
        }),
        ({
            let o = spec_encode_account(v)->Obj_0;
            spec_opt_codeable_concept(o, ("billingStatus")@) == Ok::<Option<CodeableConceptV>, DecodeError>(v.billing_status)
        }),
{
    broadcast use group_json_views;

    reveal_strlit("resourceType");
    reveal_strlit("identifier");
    reveal_strlit("status");
    reveal_strlit("billingStatus");
    reveal_strlit("type");
    reveal_strlit("name");
    reveal_strlit("subject");
    reveal_strlit("servicePeriod");
    reveal_strlit("coverage");
    reveal_strlit("owner");
    reveal_strlit("description");
    reveal_strlit("guarantor");
    reveal_strlit("diagnosis");
    reveal_strlit("procedure");
    reveal_strlit("relatedAccount");
    reveal_strlit("currency");
    reveal_strlit("balance");
    reveal_strlit("calculatedAt");
    assert(("resourceType")@.len() == 12);
    assert(("identifier")@.len() == 10);
    assert(("status")@.len() == 6);
    assert(("billingStatus")@.len() == 13);
    assert(("type")@.len() == 4);
    assert(("name")@.len() == 4);
    assert(("subject")@.len() == 7);
    assert(("servicePeriod")@.len() == 13);
    assert(("coverage")@.len() == 8);
    assert(("owner")@.len() == 5);
    assert(("description")@.len() == 11);
    assert(("guarantor")@.len() == 9);
    assert(("diagnosis")@.len() == 9);
    assert(("procedure")@.len() == 9);
    assert(("relatedAccount")@.len() == 14);
    assert(("currency")@.len() == 8);
    assert(("balance")@.len() == 7);
    assert(("calculatedAt")@.len() == 12);
    assert(("resourceType")@[0] != ("calculatedAt")@[0]);
    assert(("billingStatus")@[0] != ("servicePeriod")@[0]);
    assert(("type")@[0] != ("name")@[0]);
    assert(("subject")@[0] != ("balance")@[0]);
    assert(("coverage")@[1] != ("currency")@[1]);
    assert(("guarantor")@[0] != ("diagnosis")@[0]);
    assert(("guarantor")@[0] != ("procedure")@[0]);
    assert(("diagnosis")@[0] != ("procedure")@[0]);
    if v.billing_status is Some {
        lemma_codeable_concept_round_trip(v.billing_status->Some_0);
    }
    let o = spec_encode_account(v)->Obj_0;
    assert(lookup(o, ("status")@) == (if v.status is Some {
            Option::Some(JsonV::Str(v.status->Some_0))
        } else {
            Option::None
        }));
    assert(lookup(o, ("billingStatus")@) == (if v.billing_status is Some {
            Option::Some(spec_encode_codeable_concept(v.billing_status->Some_0))
        } else {
            Option::None
        }));
}

/// Each field of an encoded Account in this group reads back under
/// its own key, exactly as it was set.
#[verifier::rlimit(100)]
proof fn lemma_account_encode_fields_2(v: AccountV)
    ensures
        ({
            let o = spec_encode_account(v)->Obj_0;
            spec_opt_codeable_concept(o, ("type")@) == Ok::<Option<CodeableConceptV>, DecodeError>(v.account_type)
        }),
        ({
            let o = spec_encode_account(v)->Obj_0;
            spec_opt_str(o, ("name")@) == Ok::<Option<Seq<char>>, DecodeError>(v.name)
        }),
{
    broadcast use group_json_views;

    reveal_strlit("resourceType");
    reveal_strlit("identifier");
    reveal_strlit("status");
    reveal_strlit("billingStatus");
    reveal_strlit("type");
    reveal_strlit("name");
    reveal_strlit("subject");
    reveal_strlit("servicePeriod");
    reveal_strlit("coverage");
    reveal_strlit("owner");
    reveal_strlit("description");
    reveal_strlit("guarantor");
    reveal_strlit("diagnosis");
    reveal_strlit("procedure");
    reveal_strlit("relatedAccount");
    reveal_strlit("currency");
    reveal_strlit("balance");
    reveal_strlit("calculatedAt");
    assert(("resourceType")@.len() == 12);
    assert(("identifier")@.len() == 10);
    assert(("status")@.len() == 6);
    assert(("billingStatus")@.len() == 13);
    assert(("type")@.len() == 4);
    assert(("name")@.len() == 4);
    assert(("subject")@.len() == 7);
    assert(("servicePeriod")@.len() == 13);
    assert(("coverage")@.len() == 8);
    assert(("owner")@.len() == 5);
    assert(("description")@.len() == 11);
    assert(("guarantor")@.len() == 9);
    assert(("diagnosis")@.len() == 9);
    assert(("procedure")@.len() == 9);
    assert(("relatedAccount")@.len() == 14);
    assert(("currency")@.len() == 8);
    assert(("balance")@.len() == 7);
    assert(("calculatedAt")@.len() == 12);
    assert(("resourceType")@[0] != ("calculatedAt")@[0]);
    assert(("billingStatus")@[0] != ("servicePeriod")@[0]);
    assert(("type")@[0] != ("name")@[0]);
    assert(("subject")@[0] != ("balance")@[0]);
    assert(("coverage")@[1] != ("currency")@[1]);
    assert(("guarantor")@[0] != ("diagnosis")@[0]);
    assert(("guarantor")@[0] != ("procedure")@[0]);
    assert(("diagnosis")@[0] != ("procedure")@[0]);
    if v.account_type is Some {
        lemma_codeable_concept_round_trip(v.account_type->Some_0);
    }
    let o = spec_encode_account(v)->Obj_0;
    assert(lookup(o, ("type")@) == (if v.account_type is Some {
            Option::Some(spec_encode_codeable_concept(v.account_type->Some_0))
        } else {
            Option::None
        }));
    assert(lookup(o, ("name")@) == (if v.name is Some {
            Option::Some(JsonV::Str(v.name->Some_0))
        } else {
            Option::None
        }));
}

/// Each field of an encoded Account in this group reads back under
/// its own key, exactly as it was set.
#[verifier::rlimit(100)]
proof fn lemma_account_encode_fields_3(v: AccountV)
    ensures
        ({
            let o = spec_encode_account(v)->Obj_0;
            spec_req_arr(o, ("subject")@) == Ok::<Seq<JsonV>, DecodeError>(spec_encode_reference_all(v.subject))
        }),
        ({
            let o = spec_encode_account(v)->Obj_0;
            spec_decode_reference_all(spec_encode_reference_all(v.subject)) == Ok::<Seq<ReferenceV>, DecodeError>(v.subject)
        }),
        ({
            let o = spec_encode_account(v)->Obj_0;
            spec_opt_period(o, ("servicePeriod")@) == Ok::<Option<PeriodV>, DecodeError>(v.service_period)
        }),
{
    broadcast use group_json_views;

    reveal_strlit("resourceType");
    reveal_strlit("identifier");
    reveal_strlit("status");
    reveal_strlit("billingStatus");
    reveal_strlit("type");
    reveal_strlit("name");
    reveal_strlit("subject");
    reveal_strlit("servicePeriod");
    reveal_strlit("coverage");
    reveal_strlit("owner");
    reveal_strlit("description");
    reveal_strlit("guarantor");
    reveal_strlit("diagnosis");
    reveal_strlit("procedure");
    reveal_strlit("relatedAccount");
    reveal_strlit("currency");
    reveal_strlit("balance");
    reveal_strlit("calculatedAt");
    assert(("resourceType")@.len() == 12);
    assert(("identifier")@.len() == 10);
    assert(("status")@.len() == 6);
    assert(("billingStatus")@.len() == 13);
    assert(("type")@.len() == 4);
    assert(("name")@.len() == 4);
    assert(("subject")@.len() == 7);
    assert(("servicePeriod")@.len() == 13);
    assert(("coverage")@.len() == 8);
    assert(("owner")@.len() == 5);
    assert(("description")@.len() == 11);
    assert(("guarantor")@.len() == 9);
    assert(("diagnosis")@.len() == 9);
    assert(("procedure")@.len() == 9);
    assert(("relatedAccount")@.len() == 14);
    assert(("currency")@.len() == 8);
    assert(("balance")@.len() == 7);
    assert(("calculatedAt")@.len() == 12);
    assert(("resourceType")@[0] != ("calculatedAt")@[0]);
    assert(("billingStatus")@[0] != ("servicePeriod")@[0]);
    assert(("type")@[0] != ("name")@[0]);
    assert(("subject")@[0] != ("balance")@[0]);
    assert(("coverage")@[1] != ("currency")@[1]);
    assert(("guarantor")@[0] != ("diagnosis")@[0]);
    assert(("guarantor")@[0] != ("procedure")@[0]);
    assert(("diagnosis")@[0] != ("procedure")@[0]);
    lemma_reference_all_round_trip(v.subject);
    if v.service_period is Some {
        lemma_period_round_trip(v.service_period->Some_0);
    }
    let o = spec_encode_account(v)->Obj_0;
    assert(lookup(o, ("subject")@) == Option::Some(JsonV::Arr(spec_encode_reference_all(v.subject))));
    assert(lookup(o, ("servicePeriod")@) == (if v.service_period is Some {
            Option::Some(spec_encode_period(v.service_period->Some_0))
        } else {
            Option::None
        }));
}

/// Each field of an encoded Account in this group reads back under
/// its own key, exactly as it was set.
#[verifier::rlimit(100)]
proof fn lemma_account_encode_fields_4(v: AccountV)
    ensures
        ({
            let o = spec_encode_account(v)->Obj_0;
            spec_req_arr(o, ("coverage")@) == Ok::<Seq<JsonV>, DecodeError>(spec_encode_account_coverage_all(v.coverage))
        }),
        ({
            let o = spec_encode_account(v)->Obj_0;
            spec_decode_account_coverage_all(spec_encode_account_coverage_all(v.coverage)) == Ok::<Seq<AccountCoverageV>, DecodeError>(v.coverage)
        }),
        ({
            let o = spec_encode_account(v)->Obj_0;
            spec_opt_reference(o, ("owner")@) == Ok::<Option<ReferenceV>, DecodeError>(v.owner)
        }),
{
    broadcast use group_json_views;

    reveal_strlit("resourceType");
    reveal_strlit("identifier");
    reveal_strlit("status");
    reveal_strlit("billingStatus");
    reveal_strlit("type");
    reveal_strlit("name");
    reveal_strlit("subject");
    reveal_strlit("servicePeriod");
    reveal_strlit("coverage");
    reveal_strlit("owner");
    reveal_strlit("description");
    reveal_strlit("guarantor");
    reveal_strlit("diagnosis");
    reveal_strlit("procedure");
    reveal_strlit("relatedAccount");
    reveal_strlit("currency");
    reveal_strlit("balance");
    reveal_strlit("calculatedAt");
    assert(("resourceType")@.len() == 12);
    assert(("identifier")@.len() == 10);
    assert(("status")@.len() == 6);
    assert(("billingStatus")@.len() == 13);
    assert(("type")@.len() == 4);
    assert(("name")@.len() == 4);
    assert(("subject")@.len() == 7);
    assert(("servicePeriod")@.len() == 13);
    assert(("coverage")@.len() == 8);
    assert(("owner")@.len() == 5);
    assert(("description")@.len() == 11);
    assert(("guarantor")@.len() == 9);
    assert(("diagnosis")@.len() == 9);
    assert(("procedure")@.len() == 9);
    assert(("relatedAccount")@.len() == 14);
    assert(("currency")@.len() == 8);
    assert(("balance")@.len() == 7);
    assert(("calculatedAt")@.len() == 12);
    assert(("resourceType")@[0] != ("calculatedAt")@[0]);
    assert(("billingStatus")@[0] != ("servicePeriod")@[0]);
    assert(("type")@[0] != ("name")@[0]);
    assert(("subject")@[0] != ("balance")@[0]);
    assert(("coverage")@[1] != ("currency")@[1]);
    assert(("guarantor")@[0] != ("diagnosis")@[0]);
    assert(("guarantor")@[0] != ("procedure")@[0]);
    assert(("diagnosis")@[0] != ("procedure")@[0]);
    lemma_account_coverage_all_round_trip(v.coverage);
    if v.owner is Some {
        lemma_reference_round_trip(v.owner->Some_0);
    }
    let o = spec_encode_account(v)->Obj_0;
    assert(lookup(o, ("coverage")@) == Option::Some(JsonV::Arr(spec_encode_account_coverage_all(v.coverage))));
    assert(lookup(o, ("owner")@) == (if v.owner is Some {
            Option::Some(spec_encode_reference(v.owner->Some_0))
        } else {
            Option::None
        }));
}

/// Each field of an encoded Account in this group reads back under
/// its own key, exactly as it was set.
#[verifier::rlimit(100)]
proof fn lemma_account_encode_fields_5(v: AccountV)
    ensures
        ({
            let o = spec_encode_account(v)->Obj_0;
            spec_opt_str(o, ("description")@) == Ok::<Option<Seq<char>>, DecodeError>(v.description)
        }),
        ({
            let o = spec_encode_account(v)->Obj_0;
            spec_req_arr(o, ("guarantor")@) == Ok::<Seq<JsonV>, DecodeError>(spec_encode_account_guarantor_all(v.guarantor))
        }),
        ({
            let o = spec_encode_account(v)->Obj_0;
            spec_decode_account_guarantor_all(spec_encode_account_guarantor_all(v.guarantor)) == Ok::<Seq<AccountGuarantorV>, DecodeError>(v.guarantor)
        }),
{
    broadcast use group_json_views;

    reveal_strlit("resourceType");
    reveal_strlit("identifier");
    reveal_strlit("status");
    reveal_strlit("billingStatus");
    reveal_strlit("type");
    reveal_strlit("name");
    reveal_strlit("subject");
    reveal_strlit("servicePeriod");
    reveal_strlit("coverage");
    reveal_strlit("owner");
    reveal_strlit("description");
    reveal_strlit("guarantor");
    reveal_strlit("diagnosis");
    reveal_strlit("procedure");
    reveal_strlit("relatedAccount");
    reveal_strlit("currency");
    reveal_strlit("balance");
    reveal_strlit("calculatedAt");
    assert(("resourceType")@.len() == 12);
    assert(("identifier")@.len() == 10);
    assert(("status")@.len() == 6);
    assert(("billingStatus")@.len() == 13);
    assert(("type")@.len() == 4);
    assert(("name")@.len() == 4);
    assert(("subject")@.len() == 7);
    assert(("servicePeriod")@.len() == 13);
    assert(("coverage")@.len() == 8);
    assert(("owner")@.len() == 5);
    assert(("description")@.len() == 11);
    assert(("guarantor")@.len() == 9);
    assert(("diagnosis")@.len() == 9);
    assert(("procedure")@.len() == 9);
    assert(("relatedAccount")@.len() == 14);
    assert(("currency")@.len() == 8);
    assert(("balance")@.len() == 7);
    assert(("calculatedAt")@.len() == 12);
    assert(("resourceType")@[0] != ("calculatedAt")@[0]);
    assert(("billingStatus")@[0] != ("servicePeriod")@[0]);
    assert(("type")@[0] != ("name")@[0]);
    assert(("subject")@[0] != ("balance")@[0]);
    assert(("coverage")@[1] != ("currency")@[1]);
    assert(("guarantor")@[0] != ("diagnosis")@[0]);
    assert(("guarantor")@[0] != ("procedure")@[0]);
    assert(("diagnosis")@[0] != ("procedure")@[0]);
    lemma_account_guarantor_all_round_trip(v.guarantor);
    let o = spec_encode_account(v)->Obj_0;
    assert(lookup(o, ("description")@) == (if v.description is Some {
            Option::Some(JsonV::Str(v.description->Some_0))
        } else {
            Option::None
        }));
    assert(lookup(o, ("guarantor")@) == Option::Some(JsonV::Arr(spec_encode_account_guarantor_all(v.guarantor))));
}

/// Each field of an encoded Account in this group reads back under
/// its own key, exactly as it was set.
#[verifier::rlimit(100)]
proof fn lemma_account_encode_fields_6(v: AccountV)
    ensures
        ({
            let o = spec_encode_account(v)->Obj_0;
            spec_req_arr(o, ("diagnosis")@) == Ok::<Seq<JsonV>, DecodeError>(spec_encode_account_diagnosis_all(v.diagnosis))
        }),
        ({
            let o = spec_encode_account(v)->Obj_0;
            spec_decode_account_diagnosis_all(spec_encode_account_diagnosis_all(v.diagnosis)) == Ok::<Seq<AccountDiagnosisV>, DecodeError>(v.diagnosis)
        }),
        ({
            let o = spec_encode_account(v)->Obj_0;
            spec_req_arr(o, ("procedure")@) == Ok::<Seq<JsonV>, DecodeError>(spec_encode_account_procedure_all(v.procedure))
        }),
        ({
            let o = spec_encode_account(v)->Obj_0;
            spec_decode_account_procedure_all(spec_encode_account_procedure_all(v.procedure)) == Ok::<Seq<AccountProcedureV>, DecodeError>(v.procedure)
        }),
{
    broadcast use group_json_views;

    reveal_strlit("resourceType");
    reveal_strlit("identifier");
    reveal_strlit("status");
    reveal_strlit("billingStatus");
    reveal_strlit("type");
    reveal_strlit("name");
    reveal_strlit("subject");
    reveal_strlit("servicePeriod");
    reveal_strlit("coverage");
    reveal_strlit("owner");
    reveal_strlit("description");
    reveal_strlit("guarantor");
    reveal_strlit("diagnosis");
    reveal_strlit("procedure");
    reveal_strlit("relatedAccount");
    reveal_strlit("currency");
    reveal_strlit("balance");
    reveal_strlit("calculatedAt");
    assert(("resourceType")@.len() == 12);
    assert(("identifier")@.len() == 10);
    assert(("status")@.len() == 6);
    assert(("billingStatus")@.len() == 13);
    assert(("type")@.len() == 4);
    assert(("name")@.len() == 4);
    assert(("subject")@.len() == 7);
    assert(("servicePeriod")@.len() == 13);
    assert(("coverage")@.len() == 8);
    assert(("owner")@.len() == 5);
    assert(("description")@.len() == 11);
    assert(("guarantor")@.len() == 9);
    assert(("diagnosis")@.len() == 9);
    assert(("procedure")@.len() == 9);
    assert(("relatedAccount")@.len() == 14);
    assert(("currency")@.len() == 8);
    assert(("balance")@.len() == 7);
    assert(("calculatedAt")@.len() == 12);
    assert(("resourceType")@[0] != ("calculatedAt")@[0]);
    assert(("billingStatus")@[0] != ("servicePeriod")@[0]);
    assert(("type")@[0] != ("name")@[0]);
    assert(("subject")@[0] != ("balance")@[0]);
    assert(("coverage")@[1] != ("currency")@[1]);
    assert(("guarantor")@[0] != ("diagnosis")@[0]);
    assert(("guarantor")@[0] != ("procedure")@[0]);
    assert(("diagnosis")@[0] != ("procedure")@[0]);
    lemma_account_diagnosis_all_round_trip(v.diagnosis);
    lemma_account_procedure_all_round_trip(v.procedure);
    let o = spec_encode_account(v)->Obj_0;
    assert(lookup(o, ("diagnosis")@) == Option::Some(JsonV::Arr(spec_encode_account_diagnosis_all(v.diagnosis))));
    assert(lookup(o, ("procedure")@) == Option::Some(JsonV::Arr(spec_encode_account_procedure_all(v.procedure))));
}

/// Each field of an encoded Account in this group reads back under
/// its own key, exactly as it was set.
#[verifier::rlimit(100)]
proof fn lemma_account_encode_fields_7(v: AccountV)
    ensures
        ({
            let o = spec_encode_account(v)->Obj_0;
            spec_req_arr(o, ("relatedAccount")@) == Ok::<Seq<JsonV>, DecodeError>(spec_encode_account_related_account_all(v.related_account))
        }),
        ({
            let o = spec_encode_account(v)->Obj_0;
            spec_decode_account_related_account_all(spec_encode_account_related_account_all(v.related_account)) == Ok::<Seq<AccountRelatedAccountV>, DecodeError>(v.related_account)
        }),
        ({
            let o = spec_encode_account(v)->Obj_0;
            spec_opt_codeable_concept(o, ("currency")@) == Ok::<Option<CodeableConceptV>, DecodeError>(v.currency)
        }),
{
    broadcast use group_json_views;

    reveal_strlit("resourceType");
    reveal_strlit("identifier");
    reveal_strlit("status");
    reveal_strlit("billingStatus");
    reveal_strlit("type");
    reveal_strlit("name");
    reveal_strlit("subject");
    reveal_strlit("servicePeriod");
    reveal_strlit("coverage");
    reveal_strlit("owner");
    reveal_strlit("description");
    reveal_strlit("guarantor");
    reveal_strlit("diagnosis");
    reveal_strlit("procedure");
    reveal_strlit("relatedAccount");
    reveal_strlit("currency");
    reveal_strlit("balance");
    reveal_strlit("calculatedAt");
    assert(("resourceType")@.len() == 12);
    assert(("identifier")@.len() == 10);
    assert(("status")@.len() == 6);
    assert(("billingStatus")@.len() == 13);
    assert(("type")@.len() == 4);
    assert(("name")@.len() == 4);
    assert(("subject")@.len() == 7);
    assert(("servicePeriod")@.len() == 13);
    assert(("coverage")@.len() == 8);
    assert(("owner")@.len() == 5);
    assert(("description")@.len() == 11);
    assert(("guarantor")@.len() == 9);
    assert(("diagnosis")@.len() == 9);
    assert(("procedure")@.len() == 9);
    assert(("relatedAccount")@.len() == 14);
    assert(("currency")@.len() == 8);
    assert(("balance")@.len() == 7);
    assert(("calculatedAt")@.len() == 12);
    assert(("resourceType")@[0] != ("calculatedAt")@[0]);
    assert(("billingStatus")@[0] != ("servicePeriod")@[0]);
    assert(("type")@[0] != ("name")@[0]);
    assert(("subject")@[0] != ("balance")@[0]);
    assert(("coverage")@[1] != ("currency")@[1]);
    assert(("guarantor")@[0] != ("diagnosis")@[0]);
    assert(("guarantor")@[0] != ("procedure")@[0]);
    assert(("diagnosis")@[0] != ("procedure")@[0]);
    lemma_account_related_account_all_round_trip(v.related_account);
    if v.currency is Some {
        lemma_codeable_concept_round_trip(v.currency->Some_0);
    }
    let o = spec_encode_account(v)->Obj_0;
    assert(lookup(o, ("relatedAccount")@) == Option::Some(JsonV::Arr(spec_encode_account_related_account_all(v.related_account))));
    assert(lookup(o, ("currency")@) == (if v.currency is Some {
            Option::Some(spec_encode_codeable_concept(v.currency->Some_0))
        } else {
            Option::None
        }));
}

/// Each field of an encoded Account in this group reads back under
/// its own key, exactly as it was set.
#[verifier::rlimit(100)]
proof fn lemma_account_encode_fields_8(v: AccountV)
    ensures
        ({
            let o = spec_encode_account(v)->Obj_0;
            spec_req_arr(o, ("balance")@) == Ok::<Seq<JsonV>, DecodeError>(spec_encode_account_balance_all(v.balance))
        }),
        ({
            let o = spec_encode_account(v)->Obj_0;
            spec_decode_account_balance_all(spec_encode_account_balance_all(v.balance)) == Ok::<Seq<AccountBalanceV>, DecodeError>(v.balance)
        }),
        ({
            let o = spec_encode_account(v)->Obj_0;
            spec_opt_str(o, ("calculatedAt")@) == Ok::<Option<Seq<char>>, DecodeError>(v.calculated_at)
        }),
{
    broadcast use group_json_views;

    reveal_strlit("resourceType");
    reveal_strlit("identifier");
    reveal_strlit("status");
    reveal_strlit("billingStatus");
    reveal_strlit("type");
    reveal_strlit("name");
    reveal_strlit("subject");
    reveal_strlit("servicePeriod");
    reveal_strlit("coverage");
    reveal_strlit("owner");
    reveal_strlit("description");
    reveal_strlit("guarantor");
    reveal_strlit("diagnosis");
    reveal_strlit("procedure");
    reveal_strlit("relatedAccount");
    reveal_strlit("currency");
    reveal_strlit("balance");
    reveal_strlit("calculatedAt");
    assert(("resourceType")@.len() == 12);
    assert(("identifier")@.len() == 10);
    assert(("status")@.len() == 6);
    assert(("billingStatus")@.len() == 13);
    assert(("type")@.len() == 4);
    assert(("name")@.len() == 4);
    assert(("subject")@.len() == 7);
    assert(("servicePeriod")@.len() == 13);
    assert(("coverage")@.len() == 8);
    assert(("owner")@.len() == 5);
    assert(("description")@.len() == 11);
    assert(("guarantor")@.len() == 9);
    assert(("diagnosis")@.len() == 9);
    assert(("procedure")@.len() == 9);
    assert(("relatedAccount")@.len() == 14);
    assert(("currency")@.len() == 8);
    assert(("balance")@.len() == 7);
    assert(("calculatedAt")@.len() == 12);
    assert(("resourceType")@[0] != ("calculatedAt")@[0]);
    assert(("billingStatus")@[0] != ("servicePeriod")@[0]);
    assert(("type")@[0] != ("name")@[0]);
    assert(("subject")@[0] != ("balance")@[0]);
    assert(("coverage")@[1] != ("currency")@[1]);
    assert(("guarantor")@[0] != ("diagnosis")@[0]);
    assert(("guarantor")@[0] != ("procedure")@[0]);
    assert(("diagnosis")@[0] != ("procedure")@[0]);
    lemma_account_balance_all_round_trip(v.balance);
    let o = spec_encode_account(v)->Obj_0;
    assert(lookup(o, ("balance")@) == Option::Some(JsonV::Arr(spec_encode_account_balance_all(v.balance))));
    assert(lookup(o, ("calculatedAt")@) == (if v.calculated_at is Some {
            Option::Some(JsonV::Str(v.calculated_at->Some_0))
        } else {
            Option::None
        }));
}

/// Each field of an encoded Account reads back under its own key,
/// exactly as it was set.
proof fn lemma_account_encode_fields(v: AccountV)
    ensures
        ({
            let o = spec_encode_account(v)->Obj_0;
            spec_req_str(o, ("resourceType")@) == Ok::<Seq<char>, DecodeError>(v.resource_type)
        }),
        ({
            let o = spec_encode_account(v)->Obj_0;
            spec_req_arr(o, ("identifier")@) == Ok::<Seq<JsonV>, DecodeError>(spec_encode_identifier_all(v.identifier))
        }),
        ({
            let o = spec_encode_account(v)->Obj_0;
            spec_decode_identifier_all(spec_encode_identifier_all(v.identifier)) == Ok::<Seq<IdentifierV>, DecodeError>(v.identifier)
        }),
        ({
            let o = spec_encode_account(v)->Obj_0;
            spec_opt_str(o, ("status")@) == Ok::<Option<Seq<char>>, DecodeError>(v.status)
        }),
        ({
            let o = spec_encode_account(v)->Obj_0;
            spec_opt_codeable_concept(o, ("billingStatus")@) == Ok::<Option<CodeableConceptV>, DecodeError>(v.billing_status)
        }),
        ({
            let o = spec_encode_account(v)->Obj_0;
            spec_opt_codeable_concept(o, ("type")@) == Ok::<Option<CodeableConceptV>, DecodeError>(v.account_type)
        }),
        ({
            let o = spec_encode_account(v)->Obj_0;
            spec_opt_str(o, ("name")@) == Ok::<Option<Seq<char>>, DecodeError>(v.name)
        }),
        ({
            let o = spec_encode_account(v)->Obj_0;
            spec_req_arr(o, ("subject")@) == Ok::<Seq<JsonV>, DecodeError>(spec_encode_reference_all(v.subject))
        }),
        ({
            let o = spec_encode_account(v)->Obj_0;
            spec_decode_reference_all(spec_encode_reference_all(v.subject)) == Ok::<Seq<ReferenceV>, DecodeError>(v.subject)
        }),
        ({
            let o = spec_encode_account(v)->Obj_0;
            spec_opt_period(o, ("servicePeriod")@) == Ok::<Option<PeriodV>, DecodeError>(v.service_period)
        }),
        ({
            let o = spec_encode_account(v)->Obj_0;
            spec_req_arr(o, ("coverage")@) == Ok::<Seq<JsonV>, DecodeError>(spec_encode_account_coverage_all(v.coverage))
        }),
        ({
            let o = spec_encode_account(v)->Obj_0;
            spec_decode_account_coverage_all(spec_encode_account_coverage_all(v.coverage)) == Ok::<Seq<AccountCoverageV>, DecodeError>(v.coverage)
        }),
        ({
            let o = spec_encode_account(v)->Obj_0;
            spec_opt_reference(o, ("owner")@) == Ok::<Option<ReferenceV>, DecodeError>(v.owner)
        }),
        ({
            let o = spec_encode_account(v)->Obj_0;
            spec_opt_str(o, ("description")@) == Ok::<Option<Seq<char>>, DecodeError>(v.description)
        }),
        ({
            let o = spec_encode_account(v)->Obj_0;
            spec_req_arr(o, ("guarantor")@) == Ok::<Seq<JsonV>, DecodeError>(spec_encode_account_guarantor_all(v.guarantor))
        }),
        ({
            let o = spec_encode_account(v)->Obj_0;
            spec_decode_account_guarantor_all(spec_encode_account_guarantor_all(v.guarantor)) == Ok::<Seq<AccountGuarantorV>, DecodeError>(v.guarantor)
        }),
        ({
            let o = spec_encode_account(v)->Obj_0;
            spec_req_arr(o, ("diagnosis")@) == Ok::<Seq<JsonV>, DecodeError>(spec_encode_account_diagnosis_all(v.diagnosis))
        }),
        ({
            let o = spec_encode_account(v)->Obj_0;
            spec_decode_account_diagnosis_all(spec_encode_account_diagnosis_all(v.diagnosis)) == Ok::<Seq<AccountDiagnosisV>, DecodeError>(v.diagnosis)
        }),
        ({
            let o = spec_encode_account(v)->Obj_0;
            spec_req_arr(o, ("procedure")@) == Ok::<Seq<JsonV>, DecodeError>(spec_encode_account_procedure_all(v.procedure))
        }),
        ({
            let o = spec_encode_account(v)->Obj_0;
            spec_decode_account_procedure_all(spec_encode_account_procedure_all(v.procedure)) == Ok::<Seq<AccountProcedureV>, DecodeError>(v.procedure)
        }),
        ({
            let o = spec_encode_account(v)->Obj_0;
            spec_req_arr(o, ("relatedAccount")@) == Ok::<Seq<JsonV>, DecodeError>(spec_encode_account_related_account_all(v.related_account))
        }),
        ({
            let o = spec_encode_account(v)->Obj_0;
            spec_decode_account_related_account_all(spec_encode_account_related_account_all(v.related_account)) == Ok::<Seq<AccountRelatedAccountV>, DecodeError>(v.related_account)
        }),
        ({
            let o = spec_encode_account(v)->Obj_0;
            spec_opt_codeable_concept(o, ("currency")@) == Ok::<Option<CodeableConceptV>, DecodeError>(v.currency)
        }),
        ({
            let o = spec_encode_account(v)->Obj_0;
            spec_req_arr(o, ("balance")@) == Ok::<Seq<JsonV>, DecodeError>(spec_encode_account_balance_all(v.balance))
        }),
        ({
            let o = spec_encode_account(v)->Obj_0;
            spec_decode_account_balance_all(spec_encode_account_balance_all(v.balance)) == Ok::<Seq<AccountBalanceV>, DecodeError>(v.balance)
        }),
        ({
            let o = spec_encode_account(v)->Obj_0;
            spec_opt_str(o, ("calculatedAt")@) == Ok::<Option<Seq<char>>, DecodeError>(v.calculated_at)
        }),
{
    lemma_account_encode_fields_0(v);
    lemma_account_encode_fields_1(v);
    lemma_account_encode_fields_2(v);
    lemma_account_encode_fields_3(v);
    lemma_account_encode_fields_4(v);
    lemma_account_encode_fields_5(v);
    lemma_account_encode_fields_6(v);
    lemma_account_encode_fields_7(v);
    lemma_account_encode_fields_8(v);
}

/// Decoding an encoded Account yields the value back.
#[verifier::rlimit(100)]
pub proof fn lemma_account_round_trip(v: AccountV)
    ensures
        spec_decode_account(spec_encode_account(v)) == Ok::<AccountV, DecodeError>(v),
{
    broadcast use group_json_views;

    lemma_account_encode_fields(v);
}

/// Omission law: an absent optional field leaves no key in the
/// encoded object, and an empty repeated field is still present, as
/// an empty array under its key.
pub proof fn lemma_account_omission(v: AccountV)
    ensures
        v.status is None ==> lookup(spec_encode_account(v)->Obj_0, ("status")@) is None,
        v.billing_status is None ==> lookup(spec_encode_account(v)->Obj_0, ("billingStatus")@) is None,
        v.account_type is None ==> lookup(spec_encode_account(v)->Obj_0, ("type")@) is None,
        v.name is None ==> lookup(spec_encode_account(v)->Obj_0, ("name")@) is None,
        v.service_period is None ==> lookup(spec_encode_account(v)->Obj_0, ("servicePeriod")@) is None,
        v.owner is None ==> lookup(spec_encode_account(v)->Obj_0, ("owner")@) is None,
        v.description is None ==> lookup(spec_encode_account(v)->Obj_0, ("description")@) is None,
        v.currency is None ==> lookup(spec_encode_account(v)->Obj_0, ("currency")@) is None,
        v.calculated_at is None ==> lookup(spec_encode_account(v)->Obj_0, ("calculatedAt")@) is None,
        lookup(spec_encode_account(v)->Obj_0, ("identifier")@) == Option::Some(JsonV::Arr(
            spec_encode_identifier_all(v.identifier),
        )),
        v.identifier.len() == 0 ==> spec_encode_identifier_all(v.identifier) == Seq::<JsonV>::empty(),
        lookup(spec_encode_account(v)->Obj_0, ("subject")@) == Option::Some(JsonV::Arr(
            spec_encode_reference_all(v.subject),
        )),
        v.subject.len() == 0 ==> spec_encode_reference_all(v.subject) == Seq::<JsonV>::empty(),
        lookup(spec_encode_account(v)->Obj_0, ("coverage")@) == Option::Some(JsonV::Arr(
            spec_encode_account_coverage_all(v.coverage),
        )),
        v.coverage.len() == 0 ==> spec_encode_account_coverage_all(v.coverage) == Seq::<JsonV>::empty(),
        lookup(spec_encode_account(v)->Obj_0, ("guarantor")@) == Option::Some(JsonV::Arr(
            spec_encode_account_guarantor_all(v.guarantor),
        )),
        v.guarantor.len() == 0 ==> spec_encode_account_guarantor_all(v.guarantor) == Seq::<JsonV>::empty(),
        lookup(spec_encode_account(v)->Obj_0, ("diagnosis")@) == Option::Some(JsonV::Arr(
            spec_encode_account_diagnosis_all(v.diagnosis),
        )),
        v.diagnosis.len() == 0 ==> spec_encode_account_diagnosis_all(v.diagnosis) == Seq::<JsonV>::empty(),
        lookup(spec_encode_account(v)->Obj_0, ("procedure")@) == Option::Some(JsonV::Arr(
            spec_encode_account_procedure_all(v.procedure),
        )),
        v.procedure.len() == 0 ==> spec_encode_account_procedure_all(v.procedure) == Seq::<JsonV>::empty(),
        lookup(spec_encode_account(v)->Obj_0, ("relatedAccount")@) == Option::Some(JsonV::Arr(
            spec_encode_account_related_account_all(v.related_account),
        )),
        v.related_account.len() == 0 ==> spec_encode_account_related_account_all(v.related_account) == Seq::<JsonV>::empty(),
        lookup(spec_encode_account(v)->Obj_0, ("balance")@) == Option::Some(JsonV::Arr(
            spec_encode_account_balance_all(v.balance),
        )),
        v.balance.len() == 0 ==> spec_encode_account_balance_all(v.balance) == Seq::<JsonV>::empty(),
{
    broadcast use group_json_views;

    lemma_account_encode_fields(v);
}

/// Idempotence: the encoded form and its text are functions of the
/// resource value alone, so encoding the same resource twice yields
/// byte-identical output.
pub proof fn lemma_account_encode_deterministic(a: AccountV, b: AccountV)
    requires
        a == b,
    ensures
        spec_encode_account(a) == spec_encode_account(b),
        spec_write_json(spec_encode_account(a)) == spec_write_json(spec_encode_account(b)),
{
}

} // verus!
