//! The `Address` composite: a postal address.
use crate::json::{DecodeError, Json, JsonV, arr_view, decode_str_arr, encode_str_arr, entries_view, group_json_views, lemma_str_all_round_trip, lookup, put_json, put_opt_str, seq_views, spec_decode_str_all, spec_encode_str_all, spec_opt_str, spec_req_arr, take_opt_str, take_req_arr};
use vstd::prelude::*;

verus! {

/// A postal address, all parts optional, with ordered address lines.
#[derive(Debug, Clone, PartialEq)]
pub struct Address {
    use_value: Option<String>,
    address_type: Option<String>,
    text: Option<String>,
    line: Vec<String>,
    city: Option<String>,
    district: Option<String>,
    state: Option<String>,
    postal_code: Option<String>,
    country: Option<String>,
    period: Option<String>,
}

/// The mathematical shape of an `Address` value.
pub struct AddressV {
    pub use_value: Option<Seq<char>>,
    pub address_type: Option<Seq<char>>,
    pub text: Option<Seq<char>>,
    pub line: Seq<Seq<char>>,
    pub city: Option<Seq<char>>,
    pub district: Option<Seq<char>>,
    pub state: Option<Seq<char>>,
    pub postal_code: Option<Seq<char>>,
    pub country: Option<Seq<char>>,
    pub period: Option<Seq<char>>,
}

impl View for Address {
    type V = AddressV;

    closed spec fn view(&self) -> AddressV {
        AddressV {
            use_value: match self.use_value {
                Option::Some(ref s) => Option::Some(s@),
                Option::None => Option::None,
            },
            address_type: match self.address_type {
                Option::Some(ref s) => Option::Some(s@),
                Option::None => Option::None,
            },
            text: match self.text {
                Option::Some(ref s) => Option::Some(s@),
                Option::None => Option::None,
            },
            line: seq_views(self.line@),
            city: match self.city {
                Option::Some(ref s) => Option::Some(s@),
                Option::None => Option::None,
            },
            district: match self.district {
                Option::Some(ref s) => Option::Some(s@),
                Option::None => Option::None,
            },
            state: match self.state {
                Option::Some(ref s) => Option::Some(s@),
                Option::None => Option::None,
            },
            postal_code: match self.postal_code {
                Option::Some(ref s) => Option::Some(s@),
                Option::None => Option::None,
            },
            country: match self.country {
                Option::Some(ref s) => Option::Some(s@),
                Option::None => Option::None,
            },
            period: match self.period {
                Option::Some(ref s) => Option::Some(s@),
                Option::None => Option::None,
            },
        }
    }
}

impl Address {
    /// An address with every part absent and no lines.
    pub fn new() -> (r: Address)
        ensures
            r@ == (AddressV {
                use_value: Option::None,
                address_type: Option::None,
                text: Option::None,
                line: Seq::empty(),
                city: Option::None,
                district: Option::None,
                state: Option::None,
                postal_code: Option::None,
                country: Option::None,
                period: Option::None,
            }),
    {
        broadcast use group_json_views;

        let r = Address {
            use_value: Option::None,
            address_type: Option::None,
            text: Option::None,
            line: Vec::new(),
            city: Option::None,
            district: Option::None,
            state: Option::None,
            postal_code: Option::None,
            country: Option::None,
            period: Option::None,
        };
        proof {
            assert(r@.line =~= Seq::<Seq<char>>::empty());
        }
        r
    }

    /// An address carrying only text.
    pub fn with_text(text: String) -> (r: Address)
        ensures
            r@ == (AddressV {
                use_value: Option::None,
                address_type: Option::None,
                text: Option::Some(text@),
                line: Seq::empty(),
                city: Option::None,
                district: Option::None,
                state: Option::None,
                postal_code: Option::None,
                country: Option::None,
                period: Option::None,
            }),
    {
        broadcast use group_json_views;

        let r = Address {
            use_value: Option::None,
            address_type: Option::None,
            text: Option::Some(text),
            line: Vec::new(),
            city: Option::None,
            district: Option::None,
            state: Option::None,
            postal_code: Option::None,
            country: Option::None,
            period: Option::None,
        };
        proof {
            assert(r@.line =~= Seq::<Seq<char>>::empty());
        }
        r
    }

    /// The use, when set.
    pub fn use_value(&self) -> (r: Option<&str>)
        ensures
            match r {
                Option::Some(s) => self@.use_value == Option::Some(s@),
                Option::None => self@.use_value is None,
            },
    {
        match &self.use_value {
            Option::Some(s) => Option::Some(s.as_str()),
            Option::None => Option::None,
        }
    }

    /// The address type, when set.
    pub fn address_type(&self) -> (r: Option<&str>)
        ensures
            match r {
                Option::Some(s) => self@.address_type == Option::Some(s@),
                Option::None => self@.address_type is None,
            },
    {
        match &self.address_type {
            Option::Some(s) => Option::Some(s.as_str()),
            Option::None => Option::None,
        }
    }

    /// The text, when set.
    pub fn text(&self) -> (r: Option<&str>)
        ensures
            match r {
                Option::Some(s) => self@.text == Option::Some(s@),
                Option::None => self@.text is None,
            },
    {
        match &self.text {
            Option::Some(s) => Option::Some(s.as_str()),
            Option::None => Option::None,
        }
    }

    /// The address lines, in order.
    pub fn line(&self) -> (r: &[String])
        ensures
            seq_views(r@) == self@.line,
    {
        self.line.as_slice()
    }

    /// The city, when set.
    pub fn city(&self) -> (r: Option<&str>)
        ensures
            match r {
                Option::Some(s) => self@.city == Option::Some(s@),
                Option::None => self@.city is None,
            },
    {
        match &self.city {
            Option::Some(s) => Option::Some(s.as_str()),
            Option::None => Option::None,
        }
    }

    /// The district, when set.
    pub fn district(&self) -> (r: Option<&str>)
        ensures
            match r {
                Option::Some(s) => self@.district == Option::Some(s@),
                Option::None => self@.district is None,
            },
    {
        match &self.district {
            Option::Some(s) => Option::Some(s.as_str()),
            Option::None => Option::None,
        }
    }

    /// The state, when set.
    pub fn state(&self) -> (r: Option<&str>)
        ensures
            match r {
                Option::Some(s) => self@.state == Option::Some(s@),
                Option::None => self@.state is None,
            },
    {
        match &self.state {
            Option::Some(s) => Option::Some(s.as_str()),
            Option::None => Option::None,
        }
    }

    /// The postal code, when set.
    pub fn postal_code(&self) -> (r: Option<&str>)
        ensures
            match r {
                Option::Some(s) => self@.postal_code == Option::Some(s@),
                Option::None => self@.postal_code is None,
            },
    {
        match &self.postal_code {
            Option::Some(s) => Option::Some(s.as_str()),
            Option::None => Option::None,
        }
    }

    /// The country, when set.
    pub fn country(&self) -> (r: Option<&str>)
        ensures
            match r {
                Option::Some(s) => self@.country == Option::Some(s@),
                Option::None => self@.country is None,
            },
    {
        match &self.country {
            Option::Some(s) => Option::Some(s.as_str()),
            Option::None => Option::None,
        }
    }

    /// The period, when set.
    pub fn period(&self) -> (r: Option<&str>)
        ensures
            match r {
                Option::Some(s) => self@.period == Option::Some(s@),
                Option::None => self@.period is None,
            },
    {
        match &self.period {
            Option::Some(s) => Option::Some(s.as_str()),
            Option::None => Option::None,
        }
    }

    /// Replaces the use.
    pub fn set_use(&mut self, use_value: Option<String>)
        ensures
            final(self)@ == (AddressV { use_value: match use_value {
                Option::Some(ref s) => Option::Some(s@),
                Option::None => Option::None,
            }, ..old(self)@ }),
    {
        self.use_value = use_value;
    }

    /// Replaces the address type.
    pub fn set_address_type(&mut self, address_type: Option<String>)
        ensures
            final(self)@ == (AddressV { address_type: match address_type {
                Option::Some(ref s) => Option::Some(s@),
                Option::None => Option::None,
            }, ..old(self)@ }),
    {
        self.address_type = address_type;
    }

    /// Replaces the text.
    pub fn set_text(&mut self, text: Option<String>)
        ensures
            final(self)@ == (AddressV { text: match text {
                Option::Some(ref s) => Option::Some(s@),
                Option::None => Option::None,
            }, ..old(self)@ }),
    {
        self.text = text;
    }

    /// Replaces the address lines.
    pub fn set_line(&mut self, line: Vec<String>)
        ensures
            final(self)@ == (AddressV { line: seq_views(line@), ..old(self)@ }),
    {
        self.line = line;
    }

    /// Appends an address line.
    pub fn add_line(&mut self, x: String)
        ensures
            final(self)@ == (AddressV { line: old(self)@.line.push(x@), ..old(self)@ }),
    {
        broadcast use group_json_views;

        self.line.push(x);
    }

    /// Replaces the city.
    pub fn set_city(&mut self, city: Option<String>)
        ensures
            final(self)@ == (AddressV { city: match city {
                Option::Some(ref s) => Option::Some(s@),
                Option::None => Option::None,
            }, ..old(self)@ }),
    {
        self.city = city;
    }

    /// Replaces the district.
    pub fn set_district(&mut self, district: Option<String>)
        ensures
            final(self)@ == (AddressV { district: match district {
                Option::Some(ref s) => Option::Some(s@),
                Option::None => Option::None,
            }, ..old(self)@ }),
    {
        self.district = district;
    }

    /// Replaces the state.
    pub fn set_state(&mut self, state: Option<String>)
        ensures
            final(self)@ == (AddressV { state: match state {
                Option::Some(ref s) => Option::Some(s@),
                Option::None => Option::None,
            }, ..old(self)@ }),
    {
        self.state = state;
    }

    /// Replaces the postal code.
    pub fn set_postal_code(&mut self, postal_code: Option<String>)
        ensures
            final(self)@ == (AddressV { postal_code: match postal_code {
                Option::Some(ref s) => Option::Some(s@),
                Option::None => Option::None,
            }, ..old(self)@ }),
    {
        self.postal_code = postal_code;
    }

    /// Replaces the country.
    pub fn set_country(&mut self, country: Option<String>)
        ensures
            final(self)@ == (AddressV { country: match country {
                Option::Some(ref s) => Option::Some(s@),
                Option::None => Option::None,
            }, ..old(self)@ }),
    {
        self.country = country;
    }

    /// Replaces the period.
    pub fn set_period(&mut self, period: Option<String>)
        ensures
            final(self)@ == (AddressV { period: match period {
                Option::Some(ref s) => Option::Some(s@),
                Option::None => Option::None,
            }, ..old(self)@ }),
    {
        self.period = period;
    }

    /// Encodes the value as an object in fixed field order, omitting
    /// absent optional fields.
    pub fn encode(&self) -> (r: Json)
        ensures
            r@ == spec_encode_address(self@),
    {
        broadcast use group_json_views;

        let mut entries: Vec<(String, Json)> = Vec::new();
        proof {
            assert(entries_view(entries@) =~= Seq::<(Seq<char>, JsonV)>::empty());
        }
        put_opt_str(&mut entries, "use", &self.use_value);
        put_opt_str(&mut entries, "type", &self.address_type);
        put_opt_str(&mut entries, "text", &self.text);
        put_json(&mut entries, "line", encode_str_arr(&self.line));
        put_opt_str(&mut entries, "city", &self.city);
        put_opt_str(&mut entries, "district", &self.district);
        put_opt_str(&mut entries, "state", &self.state);
        put_opt_str(&mut entries, "postalCode", &self.postal_code);
        put_opt_str(&mut entries, "country", &self.country);
        put_opt_str(&mut entries, "period", &self.period);
        let r = Json::Obj(entries);
        proof {
            assert(r@->Obj_0 =~= spec_encode_address(self@)->Obj_0);
        }
        r
    }

    /// Decodes a value from an object, treating a missing key as an
    /// absent optional field; fails on any other shape.
    pub fn decode(j: &Json) -> (r: Result<Address, DecodeError>)
        ensures
            match r {
                Ok(x) => spec_decode_address(j@) == Ok::<AddressV, DecodeError>(x@),
                Err(e) => spec_decode_address(j@) == Err::<AddressV, DecodeError>(e),
            },
    {
        match j {
            Json::Obj(entries) => {
                proof {
                    assert(j@->Obj_0 =~= entries_view(entries@));
                }
                let use_value = match take_opt_str(entries, "use") {
                    Ok(v) => v,
                    Err(e) => return Err(e),
                };
                let address_type = match take_opt_str(entries, "type") {
                    Ok(v) => v,
                    Err(e) => return Err(e),
                };
                let text = match take_opt_str(entries, "text") {
                    Ok(v) => v,
                    Err(e) => return Err(e),
                };
                let line = match take_req_arr(entries, "line") {
                    Ok(a) => match decode_str_arr(a) {
                        Ok(v) => v,
                        Err(e) => return Err(e),
                    },
                    Err(e) => return Err(e),
                };
                let city = match take_opt_str(entries, "city") {
                    Ok(v) => v,
                    Err(e) => return Err(e),
                };
                let district = match take_opt_str(entries, "district") {
                    Ok(v) => v,
                    Err(e) => return Err(e),
                };
                let state = match take_opt_str(entries, "state") {
                    Ok(v) => v,
                    Err(e) => return Err(e),
                };
                let postal_code = match take_opt_str(entries, "postalCode") {
                    Ok(v) => v,
                    Err(e) => return Err(e),
                };
                let country = match take_opt_str(entries, "country") {
                    Ok(v) => v,
                    Err(e) => return Err(e),
                };
                let period = match take_opt_str(entries, "period") {
                    Ok(v) => v,
                    Err(e) => return Err(e),
                };
                Ok(Address { use_value, address_type, text, line, city, district, state, postal_code, country, period })
            },
            _ => Err(DecodeError::TypeMismatch),
        }
    }
}

impl Default for Address {
    /// An address with every part absent and no lines.
    fn default() -> (r: Address)
        ensures
            r@ == (AddressV {
                use_value: Option::None,
                address_type: Option::None,
                text: Option::None,
                line: Seq::empty(),
                city: Option::None,
                district: Option::None,
                state: Option::None,
                postal_code: Option::None,
                country: Option::None,
                period: Option::None,
            }),
    {
        Address::new()
    }
}

/// The encoded form of an `Address` value: its fields in declaration order, each
/// optional field present exactly when set.
pub open spec fn spec_encode_address(v: AddressV) -> JsonV {
    let o = Seq::<(Seq<char>, JsonV)>::empty();
    let o = if v.use_value is Some {
        o.push((("use")@, JsonV::Str(v.use_value->Some_0)))
    } else {
        o
    };
    let o = if v.address_type is Some {
        o.push((("type")@, JsonV::Str(v.address_type->Some_0)))
    } else {
        o
    };
    let o = if v.text is Some {
        o.push((("text")@, JsonV::Str(v.text->Some_0)))
    } else {
        o
    };
    let o = o.push((("line")@, JsonV::Arr(spec_encode_str_all(v.line))));
    let o = if v.city is Some {
        o.push((("city")@, JsonV::Str(v.city->Some_0)))
    } else {
        o
    };
    let o = if v.district is Some {
        o.push((("district")@, JsonV::Str(v.district->Some_0)))
    } else {
        o
    };
    let o = if v.state is Some {
        o.push((("state")@, JsonV::Str(v.state->Some_0)))
    } else {
        o
    };
    let o = if v.postal_code is Some {
        o.push((("postalCode")@, JsonV::Str(v.postal_code->Some_0)))
    } else {
        o
    };
    let o = if v.country is Some {
        o.push((("country")@, JsonV::Str(v.country->Some_0)))
    } else {
        o
    };
    let o = if v.period is Some {
        o.push((("period")@, JsonV::Str(v.period->Some_0)))
    } else {
        o
    };
    JsonV::Obj(o)
}

/// The decoded reading of an `Address` value.
pub open spec fn spec_decode_address(j: JsonV) -> Result<AddressV, DecodeError> {
    match j {
        JsonV::Obj(o) => match spec_opt_str(o, ("use")@) {
            Ok(use_value) => match spec_opt_str(o, ("type")@) {
                Ok(address_type) => match spec_opt_str(o, ("text")@) {
                    Ok(text) => match spec_req_arr(o, ("line")@) {
                        Ok(line_arr) => match spec_decode_str_all(line_arr) {
                            Ok(line) => match spec_opt_str(o, ("city")@) {
                            Ok(city) => match spec_opt_str(o, ("district")@) {
                                Ok(district) => match spec_opt_str(o, ("state")@) {
                                    Ok(state) => match spec_opt_str(o, ("postalCode")@) {
                                        Ok(postal_code) => match spec_opt_str(o, ("country")@) {
                                            Ok(country) => match spec_opt_str(o, ("period")@) {
                                                Ok(period) => Ok(AddressV { use_value, address_type, text, line, city, district, state, postal_code, country, period }),
                                                Err(e) => Err(e),
                                            },
                                            Err(e) => Err(e),
                                        },
                                        Err(e) => Err(e),
                                    },
                                    Err(e) => Err(e),
                                },
                                Err(e) => Err(e),
                            },
                            Err(e) => Err(e),
                        },
                            Err(e) => Err(e),
                        },
                        Err(e) => Err(e),
                    },
                    Err(e) => Err(e),
                },
                Err(e) => Err(e),
            },
            Err(e) => Err(e),
        },
        _ => Err(DecodeError::TypeMismatch),
    }
}

/// Decoding an encoded Address yields the value back.
#[verifier::rlimit(100)]
pub proof fn lemma_address_round_trip(v: AddressV)
    ensures
        spec_decode_address(spec_encode_address(v)) == Ok::<AddressV, DecodeError>(v),
{
    broadcast use group_json_views;

    reveal_strlit("use");
    reveal_strlit("type");
    reveal_strlit("text");
    reveal_strlit("line");
    reveal_strlit("city");
    reveal_strlit("district");
    reveal_strlit("state");
    reveal_strlit("postalCode");
    reveal_strlit("country");
    reveal_strlit("period");
    assert(("use")@.len() == 3);
    assert(("type")@.len() == 4);
    assert(("text")@.len() == 4);
    assert(("line")@.len() == 4);
    assert(("city")@.len() == 4);
    assert(("district")@.len() == 8);
    assert(("state")@.len() == 5);
    assert(("postalCode")@.len() == 10);
    assert(("country")@.len() == 7);
    assert(("period")@.len() == 6);
    assert(("type")@[1] != ("text")@[1]);
    assert(("type")@[0] != ("line")@[0]);
    assert(("type")@[0] != ("city")@[0]);
    assert(("text")@[0] != ("line")@[0]);
    assert(("text")@[0] != ("city")@[0]);
    assert(("line")@[0] != ("city")@[0]);
    lemma_str_all_round_trip(v.line);
    let o = spec_encode_address(v)->Obj_0;
    assert(lookup(o, ("use")@) == (if v.use_value is Some {
            Option::Some(JsonV::Str(v.use_value->Some_0))
        } else {
            Option::None
        }));
    assert(lookup(o, ("type")@) == (if v.address_type is Some {
            Option::Some(JsonV::Str(v.address_type->Some_0))
        } else {
            Option::None
        }));
    assert(lookup(o, ("text")@) == (if v.text is Some {
            Option::Some(JsonV::Str(v.text->Some_0))
        } else {
            Option::None
        }));
    assert(lookup(o, ("line")@) == Option::Some(JsonV::Arr(spec_encode_str_all(v.line))));
    assert(lookup(o, ("city")@) == (if v.city is Some {
            Option::Some(JsonV::Str(v.city->Some_0))
        } else {
            Option::None
        }));
    assert(lookup(o, ("district")@) == (if v.district is Some {
            Option::Some(JsonV::Str(v.district->Some_0))
        } else {
            Option::None
        }));
    assert(lookup(o, ("state")@) == (if v.state is Some {
            Option::Some(JsonV::Str(v.state->Some_0))
        } else {
            Option::None
        }));
    assert(lookup(o, ("postalCode")@) == (if v.postal_code is Some {
            Option::Some(JsonV::Str(v.postal_code->Some_0))
        } else {
            Option::None
        }));
    assert(lookup(o, ("country")@) == (if v.country is Some {
            Option::Some(JsonV::Str(v.country->Some_0))
        } else {
            Option::None
        }));
    assert(lookup(o, ("period")@) == (if v.period is Some {
            Option::Some(JsonV::Str(v.period->Some_0))
        } else {
            Option::None
        }));
}

/// An optional `Address` field of an enclosing object.
pub open spec fn spec_opt_address(o: Seq<(Seq<char>, JsonV)>, k: Seq<char>) -> Result<
    Option<AddressV>,
    DecodeError,
> {
    match lookup(o, k) {
        Option::None => Ok(Option::None),
        Option::Some(jv) => match spec_decode_address(jv) {
            Ok(x) => Ok(Option::Some(x)),
            Err(e) => Err(e),
        },
    }
}

/// Reads an optional `Address` field.
pub fn take_opt_address(entries: &Vec<(String, Json)>, key: &str) -> (r: Result<
    Option<Address>,
    DecodeError,
>)
    ensures
        match r {
            Ok(Option::Some(x)) => spec_opt_address(entries_view(entries@), key@) == Ok::<
                _,
                DecodeError,
            >(Option::Some(x@)),
            Ok(Option::None) => spec_opt_address(entries_view(entries@), key@) == Ok::<
                Option<AddressV>,
                DecodeError,
            >(Option::None),
            Err(e) => spec_opt_address(entries_view(entries@), key@) == Err::<
                Option<AddressV>,
                DecodeError,
            >(e),
        },
{
    match Json::obj_get(entries, key) {
        Option::None => Ok(Option::None),
        Option::Some(j) => match Address::decode(j) {
            Ok(x) => Ok(Option::Some(x)),
            Err(e) => Err(e),
        },
    }
}

/// The encoded form of a sequence of `Address` values, in order.
pub open spec fn spec_encode_address_all(vs: Seq<AddressV>) -> Seq<JsonV>
    decreases vs,
{
    if vs.len() == 0 {
        Seq::empty()
    } else {
        spec_encode_address_all(vs.drop_last()).push(spec_encode_address(vs.last()))
    }
}

/// The decoded reading of an array of `Address` values: all elements must
/// decode, and the first offending element decides the error.
pub open spec fn spec_decode_address_all(a: Seq<JsonV>) -> Result<Seq<AddressV>, DecodeError>
    decreases a,
{
    if a.len() == 0 {
        Ok(Seq::empty())
    } else {
        match spec_decode_address_all(a.drop_last()) {
            Ok(rest) => match spec_decode_address(a.last()) {
                Ok(x) => Ok(rest.push(x)),
                Err(e) => Err(e),
            },
            Err(e) => Err(e),
        }
    }
}

/// Decoding an encoded sequence of `Address` values yields the sequence back.
pub proof fn lemma_address_all_round_trip(vs: Seq<AddressV>)
    ensures
        spec_decode_address_all(spec_encode_address_all(vs)) == Ok::<Seq<AddressV>, DecodeError>(vs),
    decreases vs,
{
    if vs.len() > 0 {
        lemma_address_all_round_trip(vs.drop_last());
        lemma_address_round_trip(vs.last());
        let a = spec_encode_address_all(vs);
        assert(a.drop_last() =~= spec_encode_address_all(vs.drop_last()));
        assert(vs.drop_last().push(vs.last()) =~= vs);
    } else {
        assert(vs =~= Seq::<AddressV>::empty());
    }
}

/// When a prefix of the array decodes and the element after it does not,
/// the whole array fails with that element's error.
proof fn lemma_address_all_error_at(a: Seq<JsonV>, i: int)
    requires
        0 <= i < a.len(),
        spec_decode_address_all(a.subrange(0, i)) is Ok,
        spec_decode_address(a[i]) is Err,
    ensures
        spec_decode_address_all(a) == Err::<Seq<AddressV>, DecodeError>(spec_decode_address(a[i])->Err_0),
    decreases a,
{
    if i < a.len() - 1 {
        assert(a.drop_last().subrange(0, i) =~= a.subrange(0, i));
        lemma_address_all_error_at(a.drop_last(), i);
    } else {
        assert(a.drop_last() =~= a.subrange(0, i));
    }
}

/// Encodes a vector of `Address` values as a JSON array.
#[verifier::loop_isolation(false)]
pub fn encode_address_arr(v: &Vec<Address>) -> (r: Json)
    ensures
        r@ == JsonV::Arr(spec_encode_address_all(seq_views(v@))),
{
    broadcast use group_json_views;

    let ghost vs = seq_views(v@);
    let mut a: Vec<Json> = Vec::new();
    let n = v.len();
    let mut i: usize = 0;
    proof {
        assert(vs.subrange(0, 0) =~= Seq::<AddressV>::empty());
    }
    while i < n
        invariant
            i <= n,
            n == v@.len(),
            vs == seq_views(v@),
            arr_view(a@) =~= spec_encode_address_all(vs.subrange(0, i as int)),
        decreases n - i,
    {
        a.push(v[i].encode());
        proof {
            assert(vs.subrange(0, i as int + 1).drop_last() =~= vs.subrange(0, i as int));
            assert(arr_view(a@) =~= spec_encode_address_all(vs.subrange(0, i as int + 1)));
        }
        i = i + 1;
    }
    proof {
        assert(vs.subrange(0, n as int) =~= vs);
        assert(Json::Arr(a)@->Arr_0 =~= arr_view(a@));
    }
    Json::Arr(a)
}

/// Decodes a JSON array into a vector of `Address` values.
#[verifier::loop_isolation(false)]
pub fn decode_address_arr(a: &Vec<Json>) -> (r: Result<Vec<Address>, DecodeError>)
    ensures
        match r {
            Ok(v) => spec_decode_address_all(arr_view(a@)) == Ok::<_, DecodeError>(seq_views(v@)),
            Err(e) => spec_decode_address_all(arr_view(a@)) == Err::<Seq<AddressV>, DecodeError>(e),
        },
{
    broadcast use group_json_views;

    let ghost full = arr_view(a@);
    let n = a.len();
    let mut out: Vec<Address> = Vec::new();
    let mut i: usize = 0;
    proof {
        assert(full.subrange(0, 0) =~= Seq::<JsonV>::empty());
        assert(seq_views(out@) =~= Seq::<AddressV>::empty());
    }
    while i < n
        invariant
            i <= n,
            n == a@.len(),
            full == arr_view(a@),
            out@.len() == i,
            spec_decode_address_all(full.subrange(0, i as int)) == Ok::<_, DecodeError>(
                seq_views(out@),
            ),
        decreases n - i,
    {
        let ji = &a[i];
        proof {
            assert(ji@ == full[i as int]);
        }
        match Address::decode(ji) {
            Ok(x) => {
                out.push(x);
                proof {
                    assert(full.subrange(0, i as int + 1).drop_last() =~= full.subrange(
                        0,
                        i as int,
                    ));
                    assert(spec_decode_address_all(full.subrange(0, i as int + 1)) == Ok::<
                        _,
                        DecodeError,
                    >(seq_views(out@)));
                }
            },
            Err(e) => {
                proof {
                    lemma_address_all_error_at(full, i as int);
                }
                return Err(e);
            },
        }
        i = i + 1;
    }
    proof {
        assert(full.subrange(0, n as int) =~= full);
    }
    Ok(out)
}

} // verus!
