//! An amount of economic utility: an exact decimal quantity and an
//! optional currency code.
use crate::json::{
    entries_view, lemma_lookup_empty, lemma_lookup_push, lookup, put_opt_dec, put_opt_str, spec_opt_dec,
    spec_opt_str, take_opt_dec, take_opt_str, DecodeError, Json, JsonV,
};
use vstd::prelude::*;

verus! {

/// An exact decimal quantity: `mantissa` scaled down by `scale` powers of
/// ten, so a mantissa of 10000 at scale 1 stands for 1000.0.
#[derive(Debug, Clone, Copy, PartialEq, Eq, Structural)]
pub struct Decimal {
    pub mantissa: i64,
    pub scale: u32,
}

/// The mathematical shape of a decimal quantity.
pub struct DecimalV {
    pub mantissa: int,
    pub scale: nat,
}

impl View for Decimal {
    type V = DecimalV;

    open spec fn view(&self) -> DecimalV {
        DecimalV { mantissa: self.mantissa as int, scale: self.scale as nat }
    }
}

impl Decimal {
    /// The decimal `mantissa / 10^scale`.
    pub fn new(mantissa: i64, scale: u32) -> (r: Decimal)
        ensures
            r@ == (DecimalV { mantissa: mantissa as int, scale: scale as nat }),
    {
        Decimal { mantissa, scale }
    }
}

/// A money value: an optional decimal amount and an optional currency.
#[derive(Debug, Clone, PartialEq)]
pub struct Money {
    value: Option<Decimal>,
    currency: Option<String>,
}

/// The mathematical shape of a money value.
pub struct MoneyV {
    pub value: Option<DecimalV>,
    pub currency: Option<Seq<char>>,
}

impl View for Money {
    type V = MoneyV;

    closed spec fn view(&self) -> MoneyV {
        MoneyV {
            value: match self.value {
                Option::Some(d) => Option::Some(d@),
                Option::None => Option::None,
            },
            currency: match self.currency {
                Option::Some(ref s) => Option::Some(s@),
                Option::None => Option::None,
            },
        }
    }
}

impl Money {
    /// A money value with no amount and no currency.
    pub fn new() -> (r: Money)
        ensures
            r@.value is None,
            r@.currency is None,
    {
        Money { value: Option::None, currency: Option::None }
    }

    /// A money value with the given amount and no currency.
    pub fn with_value(value: Decimal) -> (r: Money)
        ensures
            r@.value == Option::Some(value@),
            r@.currency is None,
    {
        Money { value: Option::Some(value), currency: Option::None }
    }

    /// A money value with the given amount and currency.
    pub fn with_currency(value: Decimal, currency: String) -> (r: Money)
        ensures
            r@.value == Option::Some(value@),
            r@.currency == Option::Some(currency@),
    {
        Money { value: Option::Some(value), currency: Option::Some(currency) }
    }

    /// The amount, when one is set.
    pub fn value(&self) -> (r: Option<Decimal>)
        ensures
            match r {
                Option::Some(d) => self@.value == Option::Some(d@),
                Option::None => self@.value is None,
            },
    {
        self.value
    }

    /// The currency code, when one is set.
    pub fn currency(&self) -> (r: Option<&str>)
        ensures
            match r {
                Option::Some(s) => self@.currency == Option::Some(s@),
                Option::None => self@.currency is None,
            },
    {
        match &self.currency {
            Option::Some(s) => Option::Some(s.as_str()),
            Option::None => Option::None,
        }
    }

    /// Replaces the amount.
    pub fn set_value(&mut self, value: Option<Decimal>)
        ensures
            final(self)@ == (MoneyV {
                value: match value {
                    Option::Some(d) => Option::Some(d@),
                    Option::None => Option::None,
                },
                ..old(self)@
            }),
    {
        self.value = value;
    }

    /// Replaces the currency code.
    pub fn set_currency(&mut self, currency: Option<String>)
        ensures
            final(self)@ == (MoneyV {
                currency: match currency {
                    Option::Some(ref s) => Option::Some(s@),
                    Option::None => Option::None,
                },
                ..old(self)@
            }),
    {
        self.currency = currency;
    }

    /// Encodes the money value as an object, omitting absent fields.
    pub fn encode(&self) -> (r: Json)
        ensures
            r@ == spec_encode_money(self@),
    {
        let mut entries: Vec<(String, Json)> = Vec::new();
        proof {
            assert(entries_view(entries@) =~= Seq::<(Seq<char>, JsonV)>::empty());
        }
        put_opt_dec(&mut entries, "value", &self.value);
        put_opt_str(&mut entries, "currency", &self.currency);
        let r = Json::Obj(entries);
        proof {
            assert(r@->Obj_0 =~= spec_encode_money(self@)->Obj_0);
        }
        r
    }

    /// Decodes a money value from an object, treating a missing key as an
    /// absent field; fails on any other shape.
    pub fn decode(j: &Json) -> (r: Result<Money, DecodeError>)
        ensures
            match r {
                Ok(m) => spec_decode_money(j@) == Ok::<MoneyV, DecodeError>(m@),
                Err(e) => spec_decode_money(j@) == Err::<MoneyV, DecodeError>(e),
            },
    {
        match j {
            Json::Obj(entries) => {
                proof {
                    assert(j@->Obj_0 =~= entries_view(entries@));
                }
                let value = match take_opt_dec(entries, "value") {
                    Ok(v) => v,
                    Err(e) => return Err(e),
                };
                let currency = match take_opt_str(entries, "currency") {
                    Ok(v) => v,
                    Err(e) => return Err(e),
                };
                Ok(Money { value, currency })
            },
            _ => Err(DecodeError::TypeMismatch),
        }
    }
}

impl Default for Money {
    /// A money value with no amount and no currency.
    fn default() -> (r: Money)
        ensures
            r@.value is None,
            r@.currency is None,
    {
        Money::new()
    }
}

/// The encoded form of a money value: `value` then `currency`, each
/// present exactly when set.
pub open spec fn spec_encode_money(m: MoneyV) -> JsonV {
    let o = Seq::<(Seq<char>, JsonV)>::empty();
    let o = if m.value is Some {
        o.push((("value")@, JsonV::Dec(m.value->Some_0)))
    } else {
        o
    };
    let o = if m.currency is Some {
        o.push((("currency")@, JsonV::Str(m.currency->Some_0)))
    } else {
        o
    };
    JsonV::Obj(o)
}

/// The decoded reading of a money value.
pub open spec fn spec_decode_money(j: JsonV) -> Result<MoneyV, DecodeError> {
    match j {
        JsonV::Obj(o) => match spec_opt_dec(o, ("value")@) {
            Ok(value) => match spec_opt_str(o, ("currency")@) {
                Ok(currency) => Ok(MoneyV { value, currency }),
                Err(e) => Err(e),
            },
            Err(e) => Err(e),
        },
        _ => Err(DecodeError::TypeMismatch),
    }
}

/// Decoding an encoded money value yields the value back.
pub proof fn lemma_money_round_trip(m: MoneyV)
    ensures
        spec_decode_money(spec_encode_money(m)) == Ok::<MoneyV, DecodeError>(m),
{
    broadcast use lemma_lookup_push, lemma_lookup_empty;

    reveal_strlit("value");
    reveal_strlit("currency");
    assert(("value")@.len() == 5);
    assert(("currency")@.len() == 8);
}

/// A required `Money` field of an enclosing object.
pub open spec fn spec_req_money(o: Seq<(Seq<char>, JsonV)>, k: Seq<char>) -> Result<
    MoneyV,
    DecodeError,
> {
    match lookup(o, k) {
        Option::None => Err(DecodeError::MissingField),
        Option::Some(jv) => spec_decode_money(jv),
    }
}

/// Reads a required `Money` field.
pub fn take_req_money(entries: &Vec<(String, Json)>, key: &str) -> (r: Result<Money, DecodeError>)
    ensures
        match r {
            Ok(x) => spec_req_money(entries_view(entries@), key@) == Ok::<MoneyV, DecodeError>(
                x@,
            ),
            Err(e) => spec_req_money(entries_view(entries@), key@) == Err::<MoneyV, DecodeError>(
                e,
            ),
        },
{
    match Json::obj_get(entries, key) {
        Option::None => Err(DecodeError::MissingField),
        Option::Some(j) => Money::decode(j),
    }
}

} // verus!
