//! The validated listing record and its codec from a stored record.

use vstd::prelude::*;
use crate::attr::{lookup, AttrView, FieldView, Record};
use crate::decimal::{decimal_u64, parse_u64};

verus! {

/// The two fields that make up a listing.
#[derive(Debug, Clone, Copy, PartialEq, Eq, Structural)]
pub enum SaleField {
    Price,
    MarketName,
}

/// Why a stored record does not hold a listing.
#[derive(Debug, Clone, Copy, PartialEq, Eq, Structural)]
pub enum CodecError {
    /// The record has no such field.
    MissingField(SaleField),
    /// The field is there, but not in the variant the listing needs.
    WronglyTypedField(SaleField),
    /// The field has the right variant, but its content is not valid.
    MalformedValue(SaleField),
}

pub open spec fn price_key() -> Seq<char> {
    "price"@
}

pub open spec fn market_name_key() -> Seq<char> {
    "market_name"@
}

impl SaleField {
    /// The name of the field in a stored record.
    pub open spec fn spec_key(self) -> Seq<char> {
        match self {
            SaleField::Price => price_key(),
            SaleField::MarketName => market_name_key(),
        }
    }

    pub fn key(&self) -> (r: &'static str)
        ensures
            r@ == self.spec_key(),
    {
        match self {
            SaleField::Price => "price",
            SaleField::MarketName => "market_name",
        }
    }
}

/// A listing, as seen in contracts.
pub struct SaleView {
    pub price: u64,
    pub market_name: Seq<char>,
}

/// An active marketplace listing attached to an owned item.
#[derive(Debug, Clone)]
pub struct Sale {
    pub price: u64,
    pub market_name: String,
}

impl View for Sale {
    type V = SaleView;

    open spec fn view(&self) -> SaleView {
        SaleView { price: self.price, market_name: self.market_name@ }
    }
}

/// What a stored record says of its listing. Absent fields are reported
/// before wrongly typed ones, and those before a malformed price.
pub open spec fn parse_sale(r: Seq<FieldView>) -> Result<SaleView, CodecError> {
    let name = lookup(r, market_name_key());
    let price = lookup(r, price_key());
    if name is None {
        Err(CodecError::MissingField(SaleField::MarketName))
    } else if price is None {
        Err(CodecError::MissingField(SaleField::Price))
    } else if name.unwrap().s is None {
        Err(CodecError::WronglyTypedField(SaleField::MarketName))
    } else if price.unwrap().n is None {
        Err(CodecError::WronglyTypedField(SaleField::Price))
    } else {
        match decimal_u64(price.unwrap().n.unwrap()) {
            Some(p) => Ok(SaleView { price: p, market_name: name.unwrap().s.unwrap() }),
            None => Err(CodecError::MalformedValue(SaleField::Price)),
        }
    }
}

impl PartialEq for Sale {
    fn eq(&self, o: &Sale) -> (r: bool)
        ensures
            r == (self@ == o@),
    {
        self.price == o.price && self.market_name == o.market_name
    }
}

impl vstd::std_specs::cmp::PartialEqSpecImpl for Sale {
    open spec fn obeys_eq_spec() -> bool {
        true
    }

    open spec fn eq_spec(&self, o: &Sale) -> bool {
        self@ == o@
    }
}

impl Sale {
    pub fn new(price: u64, market_name: String) -> (r: Sale)
        ensures
            r@ == (SaleView { price, market_name: market_name@ }),
    {
        Sale { price, market_name }
    }

    /// Reads the listing that a stored record carries.
    pub fn from_item(i: &Record) -> (r: Result<Sale, CodecError>)
        ensures
            match (r, parse_sale(i@)) {
                (Ok(s), Ok(v)) => s@ == v,
                (Err(e), Err(f)) => e == f,
                _ => false,
            },
    {
        let name = i.get(SaleField::MarketName.key());
        let price = i.get(SaleField::Price.key());
        let name = match name {
            None => return Err(CodecError::MissingField(SaleField::MarketName)),
            Some(v) => v,
        };
        let price = match price {
            None => return Err(CodecError::MissingField(SaleField::Price)),
            Some(v) => v,
        };
        let name = match &name.s {
            None => return Err(CodecError::WronglyTypedField(SaleField::MarketName)),
            Some(t) => t,
        };
        let price = match &price.n {
            None => return Err(CodecError::WronglyTypedField(SaleField::Price)),
            Some(t) => t,
        };
        match parse_u64(price.as_str()) {
            None => Err(CodecError::MalformedValue(SaleField::Price)),
            Some(p) => Ok(Sale { price: p, market_name: name.clone() }),
        }
    }
}

} // verus!
