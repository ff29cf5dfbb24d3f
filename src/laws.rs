//! Laws of the marketplace: what the codec rejects, and how listing,
//! delisting and searching relate through the store's partial updates.

use vstd::prelude::*;
use crate::attr::{lookup, AttrView, FieldView};
use crate::decimal::{decimal_u64, lemma_decimal_round_trip};
use crate::mutation::{apply_update, place_update, take_off_update, touched, without};
use crate::sale::{market_name_key, parse_sale, price_key, CodecError, SaleField, SaleView};
use crate::search::listings;

verus! {

proof fn lemma_lookup_concat(a: Seq<FieldView>, b: Seq<FieldView>, n: Seq<char>)
    ensures
        lookup(a + b, n) == (if lookup(a, n) is Some {
            lookup(a, n)
        } else {
            lookup(b, n)
        }),
    decreases a.len(),
{
    if a.len() > 0 {
        assert((a + b).drop_first() =~= a.drop_first() + b);
        lemma_lookup_concat(a.drop_first(), b, n);
    } else {
        assert(a + b =~= b);
    }
}

proof fn lemma_lookup_without(rec: Seq<FieldView>, names: Seq<Seq<char>>, n: Seq<char>)
    requires
        names.contains(n),
    ensures
        lookup(without(rec, names), n) is None,
    decreases rec.len(),
{
    if rec.len() > 0 {
        lemma_lookup_without(rec.drop_first(), names, n);
        if !names.contains(rec[0].0) {
            let w = seq![rec[0]] + without(rec.drop_first(), names);
            assert(w.drop_first() =~= without(rec.drop_first(), names));
        }
    }
}

proof fn lemma_without_idempotent(rec: Seq<FieldView>, names: Seq<Seq<char>>)
    ensures
        without(without(rec, names), names) == without(rec, names),
    decreases rec.len(),
{
    if rec.len() > 0 {
        lemma_without_idempotent(rec.drop_first(), names);
        if !names.contains(rec[0].0) {
            let w = seq![rec[0]] + without(rec.drop_first(), names);
            assert(w.drop_first() =~= without(rec.drop_first(), names));
        }
    }
}

proof fn lemma_without_concat(a: Seq<FieldView>, b: Seq<FieldView>, names: Seq<Seq<char>>)
    ensures
        without(a + b, names) == without(a, names) + without(b, names),
    decreases a.len(),
{
    if a.len() > 0 {
        assert((a + b).drop_first() =~= a.drop_first() + b);
        lemma_without_concat(a.drop_first(), b, names);
        if !names.contains(a[0].0) {
            assert(seq![a[0]] + (without(a.drop_first(), names) + without(b, names)) =~= (seq![a[0]]
                + without(a.drop_first(), names)) + without(b, names));
        }
    } else {
        assert(a + b =~= b);
        assert(without(a, names) + without(b, names) =~= without(b, names));
    }
}

proof fn lemma_without_covered(a: Seq<FieldView>, names: Seq<Seq<char>>)
    requires
        forall|i: int| 0 <= i < a.len() ==> names.contains(#[trigger] a[i].0),
    ensures
        without(a, names) == Seq::<FieldView>::empty(),
    decreases a.len(),
{
    if a.len() > 0 {
        assert(names.contains(a[0].0));
        assert forall|i: int| 0 <= i < a.drop_first().len() implies names.contains(
            #[trigger] a.drop_first()[i].0,
        ) by {
            assert(a.drop_first()[i] == a[i + 1]);
        }
        lemma_without_covered(a.drop_first(), names);
    } else {
        assert(a =~= Seq::<FieldView>::empty());
    }
}

proof fn lemma_listings_sound(batch: Seq<Seq<FieldView>>, i: int)
    requires
        0 <= i < listings(batch).len(),
    ensures
        batch.contains(listings(batch)[i].1),
        parse_sale(listings(batch)[i].1) == Ok::<SaleView, CodecError>(listings(batch)[i].0),
    decreases batch.len(),
{
    let rest = listings(batch.drop_first());
    match parse_sale(batch[0]) {
        Ok(s) => {
            if i == 0 {
                assert(listings(batch)[0] == (s, batch[0]));
            } else {
                assert(listings(batch)[i] == rest[i - 1]);
                lemma_listings_sound(batch.drop_first(), i - 1);
                let k = choose|k: int| 0 <= k < batch.drop_first().len() && batch.drop_first()[k] == rest[i - 1].1;
                assert(batch[k + 1] == rest[i - 1].1);
            }
        },
        Err(_) => {
            lemma_listings_sound(batch.drop_first(), i);
            let k = choose|k: int| 0 <= k < batch.drop_first().len() && batch.drop_first()[k] == rest[i].1;
            assert(batch[k + 1] == rest[i].1);
        },
    }
}

proof fn lemma_listings_complete(batch: Seq<Seq<FieldView>>, rec: Seq<FieldView>, s: SaleView)
    requires
        batch.contains(rec),
        parse_sale(rec) == Ok::<SaleView, CodecError>(s),
    ensures
        listings(batch).contains((s, rec)),
    decreases batch.len(),
{
    let rest = listings(batch.drop_first());
    if batch[0] == rec {
        assert(listings(batch)[0] == (s, rec));
    } else {
        let k = choose|k: int| 0 <= k < batch.len() && batch[k] == rec;
        assert(batch.drop_first()[k - 1] == rec);
        lemma_listings_complete(batch.drop_first(), rec, s);
        let j = choose|j: int| 0 <= j < rest.len() && rest[j] == (s, rec);
        match parse_sale(batch[0]) {
            Ok(t) => {
                assert(listings(batch)[j + 1] == (s, rec));
            },
            Err(_) => {
                assert(listings(batch)[j] == (s, rec));
            },
        }
    }
}

/// A record that lacks the price or the market name holds no listing: the
/// codec reports a missing field.
pub proof fn missing_field_rejected(r: Seq<FieldView>)
    requires
        lookup(r, price_key()) is None || lookup(r, market_name_key()) is None,
    ensures
        parse_sale(r) matches Err(CodecError::MissingField(_)),
{
}

/// A record whose market name is a string and whose price is a number that
/// does not read as an unsigned 64-bit decimal holds no listing: the codec
/// reports a malformed price.
pub proof fn malformed_price_rejected(r: Seq<FieldView>, t: Seq<char>)
    requires
        lookup(r, market_name_key()) matches Some(v) && v.s is Some,
        lookup(r, price_key()) matches Some(v) && v.n == Some(t),
        decimal_u64(t) is None,
    ensures
        parse_sale(r) == Err::<SaleView, CodecError>(CodecError::MalformedValue(SaleField::Price)),
{
}

/// After an item is placed on the market, its record holds that listing,
/// and a search batch that holds the record finds it.
pub proof fn placed_item_is_listed(
    rec: Seq<FieldView>,
    batch: Seq<Seq<FieldView>>,
    cat: AttrView,
    id: u128,
    price: u64,
    name: Seq<char>,
)
    requires
        batch.contains(apply_update(rec, place_update(cat, id, price, name))),
    ensures
        parse_sale(apply_update(rec, place_update(cat, id, price, name))) == Ok::<
            SaleView,
            CodecError,
        >(SaleView { price, market_name: name }),
        listings(batch).contains(
            (
                SaleView { price, market_name: name },
                apply_update(rec, place_update(cat, id, price, name)),
            ),
        ),
{
    let u = place_update(cat, id, price, name);
    let placed = apply_update(rec, u);
    let rest = without(rec, touched(u));
    reveal_strlit("price");
    reveal_strlit("market_name");
    lemma_lookup_concat(u.set, rest, price_key());
    lemma_lookup_concat(u.set, rest, market_name_key());
    assert(u.set.drop_first()[0] == u.set[1]);
    assert(price_key() != market_name_key()) by {
        assert(price_key().len() != market_name_key().len());
    }
    assert(lookup(u.set, price_key()) == Some(u.set[0].1));
    assert(lookup(u.set.drop_first(), market_name_key()) == Some(u.set[1].1));
    assert(lookup(u.set, market_name_key()) == Some(u.set[1].1));
    assert(lookup(placed, price_key()) == Some(u.set[0].1));
    assert(lookup(placed, market_name_key()) == Some(u.set[1].1));
    lemma_decimal_round_trip(price);
    lemma_listings_complete(batch, placed, SaleView { price, market_name: name });
}

/// Taking an item off the market twice leaves its record as taking it off
/// once does; the record then holds no listing, and no search lists it.
pub proof fn take_off_idempotent(rec: Seq<FieldView>, batch: Seq<Seq<FieldView>>, cat: AttrView, id: u128)
    ensures
        apply_update(apply_update(rec, take_off_update(cat, id)), take_off_update(cat, id))
            == apply_update(rec, take_off_update(cat, id)),
        parse_sale(apply_update(rec, take_off_update(cat, id))) == Err::<SaleView, CodecError>(
            CodecError::MissingField(SaleField::MarketName),
        ),
        forall|i: int|
            0 <= i < listings(batch).len() ==> #[trigger] listings(batch)[i].1 != apply_update(
                rec,
                take_off_update(cat, id),
            ),
{
    let u = take_off_update(cat, id);
    let names = touched(u);
    assert(u.set + without(rec, names) =~= without(rec, names));
    assert(u.set + without(without(rec, names), names) =~= without(without(rec, names), names));
    lemma_without_idempotent(rec, names);
    assert(names[1] == market_name_key());
    lemma_lookup_without(rec, names, market_name_key());
    assert forall|i: int| 0 <= i < listings(batch).len() implies #[trigger] listings(batch)[i].1
        != apply_update(rec, u) by {
        lemma_listings_sound(batch, i);
    }
}

/// Placing an item twice leaves its record as placing it the second time
/// alone does: the last listing wins.
pub proof fn place_overwrites(
    rec: Seq<FieldView>,
    cat: AttrView,
    id: u128,
    p1: u64,
    n1: Seq<char>,
    p2: u64,
    n2: Seq<char>,
)
    ensures
        apply_update(apply_update(rec, place_update(cat, id, p1, n1)), place_update(cat, id, p2, n2))
            == apply_update(rec, place_update(cat, id, p2, n2)),
        parse_sale(
            apply_update(apply_update(rec, place_update(cat, id, p1, n1)), place_update(cat, id, p2, n2)),
        ) == Ok::<SaleView, CodecError>(SaleView { price: p2, market_name: n2 }),
{
    let u1 = place_update(cat, id, p1, n1);
    let u2 = place_update(cat, id, p2, n2);
    let names = touched(u2);
    assert(touched(u1) =~= names);
    assert(names[0] == price_key() && names[1] == market_name_key());
    assert(names.contains(price_key()));
    assert(names.contains(market_name_key()));
    lemma_without_concat(u1.set, without(rec, names), names);
    lemma_without_covered(u1.set, names);
    lemma_without_idempotent(rec, names);
    assert(Seq::<FieldView>::empty() + without(rec, names) =~= without(rec, names));
    assert(seq![apply_update(rec, u2)][0] == apply_update(rec, u2));
    placed_item_is_listed(rec, seq![apply_update(rec, u2)], cat, id, p2, n2);
}

} // verus!
