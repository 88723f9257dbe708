//! The `Reference` composite: a pointer from one resource to another.
use crate::json::{DecodeError, Json, JsonV, arr_view, entries_view, group_json_views, lookup, put_opt_str, seq_views, spec_opt_str, take_opt_str};
use vstd::prelude::*;

verus! {

/// A reference from one resource to another, all parts optional.
#[derive(Debug, Clone, PartialEq)]
pub struct Reference {
    reference: Option<String>,
    reference_type: Option<String>,
    identifier: Option<String>,
    display: Option<String>,
}

/// The mathematical shape of a `Reference` value.
pub struct ReferenceV {
    pub reference: Option<Seq<char>>,
    pub reference_type: Option<Seq<char>>,
    pub identifier: Option<Seq<char>>,
    pub display: Option<Seq<char>>,
}

impl View for Reference {
    type V = ReferenceV;

    closed spec fn view(&self) -> ReferenceV {
        ReferenceV {
            reference: match self.reference {
                Option::Some(ref s) => Option::Some(s@),
                Option::None => Option::None,
            },
            reference_type: match self.reference_type {
                Option::Some(ref s) => Option::Some(s@),
                Option::None => Option::None,
            },
            identifier: match self.identifier {
                Option::Some(ref s) => Option::Some(s@),
                Option::None => Option::None,
            },
            display: match self.display {
                Option::Some(ref s) => Option::Some(s@),
                Option::None => Option::None,
            },
        }
    }
}

impl Reference {
    /// A reference with every part absent.
    pub fn new() -> (r: Reference)
        ensures
            r@ == (ReferenceV {
                reference: Option::None,
                reference_type: Option::None,
                identifier: Option::None,
                display: Option::None,
            }),
    {
        let r = Reference {
            reference: Option::None,
            reference_type: Option::None,
            identifier: Option::None,
            display: Option::None,
        };
        r
    }

    /// A reference with only its reference string set.
    pub fn with_reference(reference: String) -> (r: Reference)
        ensures
            r@ == (ReferenceV {
                reference: Option::Some(reference@),
                reference_type: Option::None,
                identifier: Option::None,
                display: Option::None,
            }),
    {
        let r = Reference {
            reference: Option::Some(reference),
            reference_type: Option::None,
            identifier: Option::None,
            display: Option::None,
        };
        r
    }

    /// A reference with its reference string and type set.
    pub fn with_reference_and_type(reference: String, reference_type: String) -> (r: Reference)
        ensures
            r@ == (ReferenceV {
                reference: Option::Some(reference@),
                reference_type: Option::Some(reference_type@),
                identifier: Option::None,
                display: Option::None,
            }),
    {
        let r = Reference {
            reference: Option::Some(reference),
            reference_type: Option::Some(reference_type),
            identifier: Option::None,
            display: Option::None,
        };
        r
    }

    /// The reference string, when set.
    pub fn reference(&self) -> (r: Option<&str>)
        ensures
            match r {
                Option::Some(s) => self@.reference == Option::Some(s@),
                Option::None => self@.reference is None,
            },
    {
        match &self.reference {
            Option::Some(s) => Option::Some(s.as_str()),
            Option::None => Option::None,
        }
    }

    /// The reference type, when set.
    pub fn reference_type(&self) -> (r: Option<&str>)
        ensures
            match r {
                Option::Some(s) => self@.reference_type == Option::Some(s@),
                Option::None => self@.reference_type is None,
            },
    {
        match &self.reference_type {
            Option::Some(s) => Option::Some(s.as_str()),
            Option::None => Option::None,
        }
    }

    /// The identifier, when set.
    pub fn identifier(&self) -> (r: Option<&str>)
        ensures
            match r {
                Option::Some(s) => self@.identifier == Option::Some(s@),
                Option::None => self@.identifier is None,
            },
    {
        match &self.identifier {
            Option::Some(s) => Option::Some(s.as_str()),
            Option::None => Option::None,
        }
    }

    /// The display text, when set.
    pub fn display(&self) -> (r: Option<&str>)
        ensures
            match r {
                Option::Some(s) => self@.display == Option::Some(s@),
                Option::None => self@.display is None,
            },
    {
        match &self.display {
            Option::Some(s) => Option::Some(s.as_str()),
            Option::None => Option::None,
        }
    }

    /// Replaces the reference string.
    pub fn set_reference(&mut self, reference: Option<String>)
        ensures
            final(self)@ == (ReferenceV { reference: match reference {
                Option::Some(ref s) => Option::Some(s@),
                Option::None => Option::None,
            }, ..old(self)@ }),
    {
        self.reference = reference;
    }

    /// Replaces the reference type.
    pub fn set_reference_type(&mut self, reference_type: Option<String>)
        ensures
            final(self)@ == (ReferenceV { reference_type: match reference_type {
                Option::Some(ref s) => Option::Some(s@),
                Option::None => Option::None,
            }, ..old(self)@ }),
    {
        self.reference_type = reference_type;
    }

    /// Replaces the identifier.
    pub fn set_identifier(&mut self, identifier: Option<String>)
        ensures
            final(self)@ == (ReferenceV { identifier: match identifier {
                Option::Some(ref s) => Option::Some(s@),
                Option::None => Option::None,
            }, ..old(self)@ }),
    {
        self.identifier = identifier;
    }

    /// Replaces the display text.
    pub fn set_display(&mut self, display: Option<String>)
        ensures
            final(self)@ == (ReferenceV { display: match display {
                Option::Some(ref s) => Option::Some(s@),
                Option::None => Option::None,
            }, ..old(self)@ }),
    {
        self.display = display;
    }

    /// Encodes the value as an object in fixed field order, omitting
    /// absent optional fields.
    pub fn encode(&self) -> (r: Json)
        ensures
            r@ == spec_encode_reference(self@),
    {
        broadcast use group_json_views;

        let mut entries: Vec<(String, Json)> = Vec::new();
        proof {
            assert(entries_view(entries@) =~= Seq::<(Seq<char>, JsonV)>::empty());
        }
        put_opt_str(&mut entries, "reference", &self.reference);
        put_opt_str(&mut entries, "type", &self.reference_type);
        put_opt_str(&mut entries, "identifier", &self.identifier);
        put_opt_str(&mut entries, "display", &self.display);
        let r = Json::Obj(entries);
        proof {
            assert(r@->Obj_0 =~= spec_encode_reference(self@)->Obj_0);
        }
        r
    }

    /// Decodes a value from an object, treating a missing key as an
    /// absent optional field; fails on any other shape.
    pub fn decode(j: &Json) -> (r: Result<Reference, DecodeError>)
        ensures
            match r {
                Ok(x) => spec_decode_reference(j@) == Ok::<ReferenceV, DecodeError>(x@),
                Err(e) => spec_decode_reference(j@) == Err::<ReferenceV, DecodeError>(e),
            },
    {
        match j {
            Json::Obj(entries) => {
                proof {
                    assert(j@->Obj_0 =~= entries_view(entries@));
                }
                let reference = match take_opt_str(entries, "reference") {
                    Ok(v) => v,
                    Err(e) => return Err(e),
                };
                let reference_type = match take_opt_str(entries, "type") {
                    Ok(v) => v,
                    Err(e) => return Err(e),
                };
                let identifier = match take_opt_str(entries, "identifier") {
                    Ok(v) => v,
                    Err(e) => return Err(e),
                };
                let display = match take_opt_str(entries, "display") {
                    Ok(v) => v,
                    Err(e) => return Err(e),
                };
                Ok(Reference { reference, reference_type, identifier, display })
            },
            _ => Err(DecodeError::TypeMismatch),
        }
    }
}

impl Default for Reference {
    /// A reference with every part absent.
    fn default() -> (r: Reference)
        ensures
            r@ == (ReferenceV {
                reference: Option::None,
                reference_type: Option::None,
                identifier: Option::None,
                display: Option::None,
            }),
    {
        Reference::new()
    }
}

/// The encoded form of a `Reference` value: its fields in declaration order, each
/// optional field present exactly when set.
pub open spec fn spec_encode_reference(v: ReferenceV) -> JsonV {
    let o = Seq::<(Seq<char>, JsonV)>::empty();
    let o = if v.reference is Some {
        o.push((("reference")@, JsonV::Str(v.reference->Some_0)))
    } else {
        o
    };
    let o = if v.reference_type is Some {
        o.push((("type")@, JsonV::Str(v.reference_type->Some_0)))
    } else {
        o
    };
    let o = if v.identifier is Some {
        o.push((("identifier")@, JsonV::Str(v.identifier->Some_0)))
    } else {
        o
    };
    let o = if v.display is Some {
        o.push((("display")@, JsonV::Str(v.display->Some_0)))
    } else {
        o
    };
    JsonV::Obj(o)
}

/// The decoded reading of a `Reference` value.
pub open spec fn spec_decode_reference(j: JsonV) -> Result<ReferenceV, DecodeError> {
    match j {
        JsonV::Obj(o) => match spec_opt_str(o, ("reference")@) {
            Ok(reference) => match spec_opt_str(o, ("type")@) {
                Ok(reference_type) => match spec_opt_str(o, ("identifier")@) {
                    Ok(identifier) => match spec_opt_str(o, ("display")@) {
                        Ok(display) => Ok(ReferenceV { reference, reference_type, identifier, display }),
                        Err(e) => Err(e),
                    },
                    Err(e) => Err(e),
                },
                Err(e) => Err(e),
            },
            Err(e) => Err(e),
        },
        _ => Err(DecodeError::TypeMismatch),
    }
}

/// Decoding an encoded Reference yields the value back.
pub proof fn lemma_reference_round_trip(v: ReferenceV)
    ensures
        spec_decode_reference(spec_encode_reference(v)) == Ok::<ReferenceV, DecodeError>(v),
{
    broadcast use group_json_views;

    reveal_strlit("reference");
    reveal_strlit("type");
    reveal_strlit("identifier");
    reveal_strlit("display");
    assert(("reference")@.len() == 9);
    assert(("type")@.len() == 4);
    assert(("identifier")@.len() == 10);
    assert(("display")@.len() == 7);
    let o = spec_encode_reference(v)->Obj_0;
    assert(lookup(o, ("reference")@) == (if v.reference is Some {
            Option::Some(JsonV::Str(v.reference->Some_0))
        } else {
            Option::None
        }));
    assert(lookup(o, ("type")@) == (if v.reference_type is Some {
            Option::Some(JsonV::Str(v.reference_type->Some_0))
        } else {
            Option::None
        }));
    assert(lookup(o, ("identifier")@) == (if v.identifier is Some {
            Option::Some(JsonV::Str(v.identifier->Some_0))
        } else {
            Option::None
        }));
    assert(lookup(o, ("display")@) == (if v.display is Some {
            Option::Some(JsonV::Str(v.display->Some_0))
        } else {
            Option::None
        }));
}

/// An optional `Reference` field of an enclosing object.
pub open spec fn spec_opt_reference(o: Seq<(Seq<char>, JsonV)>, k: Seq<char>) -> Result<
    Option<ReferenceV>,
    DecodeError,
> {
    match lookup(o, k) {
        Option::None => Ok(Option::None),
        Option::Some(jv) => match spec_decode_reference(jv) {
            Ok(x) => Ok(Option::Some(x)),
            Err(e) => Err(e),
        },
    }
}

/// Reads an optional `Reference` field.
pub fn take_opt_reference(entries: &Vec<(String, Json)>, key: &str) -> (r: Result<
    Option<Reference>,
    DecodeError,
>)
    ensures
        match r {
            Ok(Option::Some(x)) => spec_opt_reference(entries_view(entries@), key@) == Ok::<
                _,
                DecodeError,
            >(Option::Some(x@)),
            Ok(Option::None) => spec_opt_reference(entries_view(entries@), key@) == Ok::<
                Option<ReferenceV>,
                DecodeError,
            >(Option::None),
            Err(e) => spec_opt_reference(entries_view(entries@), key@) == Err::<
                Option<ReferenceV>,
                DecodeError,
            >(e),
        },
{
    match Json::obj_get(entries, key) {
        Option::None => Ok(Option::None),
        Option::Some(j) => match Reference::decode(j) {
            Ok(x) => Ok(Option::Some(x)),
            Err(e) => Err(e),
        },
    }
}

/// A required `Reference` field of an enclosing object.
pub open spec fn spec_req_reference(o: Seq<(Seq<char>, JsonV)>, k: Seq<char>) -> Result<
    ReferenceV,
    DecodeError,
> {
    match lookup(o, k) {
        Option::None => Err(DecodeError::MissingField),
        Option::Some(jv) => spec_decode_reference(jv),
    }
}

/// Reads a required `Reference` field.
pub fn take_req_reference(entries: &Vec<(String, Json)>, key: &str) -> (r: Result<
    Reference,
    DecodeError,
>)
    ensures
        match r {
            Ok(x) => spec_req_reference(entries_view(entries@), key@) == Ok::<ReferenceV, DecodeError>(
                x@,
            ),
            Err(e) => spec_req_reference(entries_view(entries@), key@) == Err::<ReferenceV, DecodeError>(
                e,
            ),
        },
{
    match Json::obj_get(entries, key) {
        Option::None => Err(DecodeError::MissingField),
        Option::Some(j) => Reference::decode(j),
    }
}

/// The encoded form of a sequence of `Reference` values, in order.
pub open spec fn spec_encode_reference_all(vs: Seq<ReferenceV>) -> Seq<JsonV>
    decreases vs,
{
    if vs.len() == 0 {
        Seq::empty()
    } else {
        spec_encode_reference_all(vs.drop_last()).push(spec_encode_reference(vs.last()))
    }
}

/// The decoded reading of an array of `Reference` values: all elements must
/// decode, and the first offending element decides the error.
pub open spec fn spec_decode_reference_all(a: Seq<JsonV>) -> Result<Seq<ReferenceV>, DecodeError>
    decreases a,
{
    if a.len() == 0 {
        Ok(Seq::empty())
    } else {
        match spec_decode_reference_all(a.drop_last()) {
            Ok(rest) => match spec_decode_reference(a.last()) {
                Ok(x) => Ok(rest.push(x)),
                Err(e) => Err(e),
            },
            Err(e) => Err(e),
        }
    }
}

/// Decoding an encoded sequence of `Reference` values yields the sequence back.
pub proof fn lemma_reference_all_round_trip(vs: Seq<ReferenceV>)
    ensures
        spec_decode_reference_all(spec_encode_reference_all(vs)) == Ok::<Seq<ReferenceV>, DecodeError>(vs),
    decreases vs,
{
    if vs.len() > 0 {
        lemma_reference_all_round_trip(vs.drop_last());
        lemma_reference_round_trip(vs.last());
        let a = spec_encode_reference_all(vs);
        assert(a.drop_last() =~= spec_encode_reference_all(vs.drop_last()));
        assert(vs.drop_last().push(vs.last()) =~= vs);
    } else {
        assert(vs =~= Seq::<ReferenceV>::empty());
    }
}

/// When a prefix of the array decodes and the element after it does not,
/// the whole array fails with that element's error.
proof fn lemma_reference_all_error_at(a: Seq<JsonV>, i: int)
    requires
        0 <= i < a.len(),
        spec_decode_reference_all(a.subrange(0, i)) is Ok,
        spec_decode_reference(a[i]) is Err,
    ensures
        spec_decode_reference_all(a) == Err::<Seq<ReferenceV>, DecodeError>(spec_decode_reference(a[i])->Err_0),
    decreases a,
{
    if i < a.len() - 1 {
        assert(a.drop_last().subrange(0, i) =~= a.subrange(0, i));
        lemma_reference_all_error_at(a.drop_last(), i);
    } else {
        assert(a.drop_last() =~= a.subrange(0, i));
    }
}

/// Encodes a vector of `Reference` values as a JSON array.
#[verifier::loop_isolation(false)]
pub fn encode_reference_arr(v: &Vec<Reference>) -> (r: Json)
    ensures
        r@ == JsonV::Arr(spec_encode_reference_all(seq_views(v@))),
{
    broadcast use group_json_views;

    let ghost vs = seq_views(v@);
    let mut a: Vec<Json> = Vec::new();
    let n = v.len();
    let mut i: usize = 0;
    proof {
        assert(vs.subrange(0, 0) =~= Seq::<ReferenceV>::empty());
    }
    while i < n
        invariant
            i <= n,
            n == v@.len(),
            vs == seq_views(v@),
            arr_view(a@) =~= spec_encode_reference_all(vs.subrange(0, i as int)),
        decreases n - i,
    {
        a.push(v[i].encode());
        proof {
            assert(vs.subrange(0, i as int + 1).drop_last() =~= vs.subrange(0, i as int));
            assert(arr_view(a@) =~= spec_encode_reference_all(vs.subrange(0, i as int + 1)));
        }
        i = i + 1;
    }
    proof {
        assert(vs.subrange(0, n as int) =~= vs);
        assert(Json::Arr(a)@->Arr_0 =~= arr_view(a@));
    }
    Json::Arr(a)
}

/// Decodes a JSON array into a vector of `Reference` values.
#[verifier::loop_isolation(false)]
pub fn decode_reference_arr(a: &Vec<Json>) -> (r: Result<Vec<Reference>, DecodeError>)
    ensures
        match r {
            Ok(v) => spec_decode_reference_all(arr_view(a@)) == Ok::<_, DecodeError>(seq_views(v@)),
            Err(e) => spec_decode_reference_all(arr_view(a@)) == Err::<Seq<ReferenceV>, DecodeError>(e),
        },
{
    broadcast use group_json_views;

    let ghost full = arr_view(a@);
    let n = a.len();
    let mut out: Vec<Reference> = Vec::new();
    let mut i: usize = 0;
    proof {
        assert(full.subrange(0, 0) =~= Seq::<JsonV>::empty());
        assert(seq_views(out@) =~= Seq::<ReferenceV>::empty());
    }
    while i < n
        invariant
            i <= n,
            n == a@.len(),
            full == arr_view(a@),
            out@.len() == i,
            spec_decode_reference_all(full.subrange(0, i as int)) == Ok::<_, DecodeError>(
                seq_views(out@),
            ),
        decreases n - i,
    {
        let ji = &a[i];
        proof {
            assert(ji@ == full[i as int]);
        }
        match Reference::decode(ji) {
            Ok(x) => {
                out.push(x);
                proof {
                    assert(full.subrange(0, i as int + 1).drop_last() =~= full.subrange(
                        0,
                        i as int,
                    ));
                    assert(spec_decode_reference_all(full.subrange(0, i as int + 1)) == Ok::<
                        _,
                        DecodeError,
                    >(seq_views(out@)));
                }
            },
            Err(e) => {
                proof {
                    lemma_reference_all_error_at(full, i as int);
                }
                return Err(e);
            },
        }
        i = i + 1;
    }
    proof {
        assert(full.subrange(0, n as int) =~= full);
    }
    Ok(out)
}

} // verus!
