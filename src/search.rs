//! The category search: the request for the store's secondary index, and
//! the listings drawn from the batch of records that the store answers.

use vstd::prelude::*;
use crate::attr::{AttrValue, Field, FieldView, Record};
use crate::sale::{parse_sale, CodecError, Sale, SaleView};

verus! {

/// Why a marketplace operation failed as a whole.
#[derive(Debug, Clone)]
pub enum MarketError {
    /// The store could not be reached or refused the request; `item` names
    /// the item that a mutation was about.
    StoreUnavailable { item: Option<u128>, cause: String },
    /// The store's answer held no record collection at all.
    EmptyResponse,
}

/// A read of one secondary index, for the records whose key equals a value.
#[derive(Debug)]
pub struct QueryRequest {
    pub index_name: String,
    pub key_condition: String,
    pub values: Vec<Field>,
}

/// The listings of a batch of records, in batch order: each record whose
/// listing parses, paired with that listing; the others are left out.
pub open spec fn listings(batch: Seq<Seq<FieldView>>) -> Seq<(SaleView, Seq<FieldView>)>
    decreases batch.len(),
{
    if batch.len() == 0 {
        Seq::empty()
    } else {
        let rest = listings(batch.drop_first());
        match parse_sale(batch[0]) {
            Ok(s) => seq![(s, batch[0])] + rest,
            Err(_) => rest,
        }
    }
}

/// Why each record of a batch that holds no valid listing was left out of
/// its listings, in batch order.
pub open spec fn rejections(batch: Seq<Seq<FieldView>>) -> Seq<CodecError>
    decreases batch.len(),
{
    if batch.len() == 0 {
        Seq::empty()
    } else {
        let rest = rejections(batch.drop_first());
        match parse_sale(batch[0]) {
            Ok(_) => rest,
            Err(e) => seq![e] + rest,
        }
    }
}

pub open spec fn batch_view(b: Seq<Record>) -> Seq<Seq<FieldView>> {
    b.map_values(|r: Record| r@)
}

pub open spec fn pairs_view(p: Seq<(Sale, Record)>) -> Seq<(SaleView, Seq<FieldView>)> {
    p.map_values(|x: (Sale, Record)| (x.0@, x.1@))
}

/// The request that finds every record of category `cat` through the
/// index on (category, price).
pub fn search_query(cat: &AttrValue) -> (r: QueryRequest)
    ensures
        r.index_name@ == "cat_price_index"@,
        r.key_condition@ == "cat = :sale_cat"@,
        r.values@.len() == 1,
        r.values@[0]@ == (":sale_cat"@, cat@),
{
    let mut values: Vec<Field> = Vec::new();
    values.push(Field::new(String::from_str(":sale_cat"), cat.duplicate()));
    QueryRequest {
        index_name: String::from_str("cat_price_index"),
        key_condition: String::from_str("cat = :sale_cat"),
        values,
    }
}

/// The codec errors of the records that a search of `batch` skips, so that
/// they can be reported.
pub fn skipped_errors(batch: &Vec<Record>) -> (r: Vec<CodecError>)
    ensures
        r@ == rejections(batch_view(batch@)),
{
    let ghost all = batch_view(batch@);
    let mut errors: Vec<CodecError> = Vec::new();
    let mut i: usize = 0;
    assert(all.subrange(0, all.len() as int) =~= all);
    assert(errors@ + rejections(all) =~= rejections(all));
    while i < batch.len()
        invariant
            0 <= i <= batch@.len(),
            all == batch_view(batch@),
            errors@ + rejections(all.subrange(i as int, all.len() as int)) == rejections(all),
        decreases batch@.len() - i,
    {
        let ghost rest = all.subrange(i as int, all.len() as int);
        assert(rest.drop_first() =~= all.subrange(i + 1, all.len() as int));
        assert(rest[0] == batch@[i as int]@);
        match Sale::from_item(&batch[i]) {
            Ok(_) => {},
            Err(e) => {
                let ghost prev = errors@;
                errors.push(e);
                assert(errors@ + rejections(rest.drop_first()) =~= prev + (seq![e] + rejections(
                    rest.drop_first(),
                )));
            },
        }
        i = i + 1;
    }
    assert(all.subrange(i as int, all.len() as int) =~= Seq::<Seq<FieldView>>::empty());
    assert(errors@ + Seq::<CodecError>::empty() =~= errors@);
    errors
}

/// The listings of a category, from the store's answer to `search_query`:
/// a failed read or an answer without records fails the whole search; in a
/// batch, the records that hold no valid listing are skipped.
pub fn market_search(response: Result<Option<Vec<Record>>, String>) -> (r: Result<
    Vec<(Sale, Record)>,
    MarketError,
>)
    ensures
        match response {
            Err(c) => match r {
                Err(MarketError::StoreUnavailable { item: None, cause }) => cause@ == c@,
                _ => false,
            },
            Ok(None) => r matches Err(MarketError::EmptyResponse),
            Ok(Some(b)) => match r {
                Ok(v) => pairs_view(v@) == listings(batch_view(b@)),
                _ => false,
            },
        },
{
    let mut batch = match response {
        Err(cause) => return Err(MarketError::StoreUnavailable { item: None, cause }),
        Ok(None) => return Err(MarketError::EmptyResponse),
        Ok(Some(b)) => b,
    };
    let ghost all = batch_view(batch@);
    let mut found: Vec<(Sale, Record)> = Vec::new();
    assert(pairs_view(found@) + listings(batch_view(batch@)) =~= listings(all));
    while batch.len() > 0
        invariant
            listings(all) == pairs_view(found@) + listings(batch_view(batch@)),
        decreases batch@.len(),
    {
        let ghost before = batch@;
        let rec = batch.remove(0);
        assert(batch_view(batch@) =~= batch_view(before).drop_first());
        assert(batch_view(before)[0] == rec@);
        match Sale::from_item(&rec) {
            Ok(s) => {
                let ghost old_found = found@;
                found.push((s, rec));
                assert(pairs_view(found@) =~= pairs_view(old_found) + seq![(s@, rec@)]);
                assert(pairs_view(found@) + listings(batch_view(batch@)) =~= pairs_view(old_found)
                    + listings(batch_view(before)));
            },
            Err(_) => {},
        }
    }
    assert(listings(batch_view(batch@)) =~= Seq::<(SaleView, Seq<FieldView>)>::empty());
    assert(pairs_view(found@) =~= listings(all));
    Ok(found)
}

} // verus!
