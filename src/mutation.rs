//! Listing and delisting: partial updates of the one record keyed by
//! (category, item id), and what the store does with such an update.

use vstd::prelude::*;
use vstd::arithmetic::power2::pow2;
use crate::attr::{AttrValue, AttrView, Field, FieldView};
use crate::decimal::{decimal_text, format_u64};
use crate::sale::{market_name_key, price_key};
use crate::search::MarketError;

verus! {

pub open spec fn hex_char(d: int) -> char {
    seq!['0', '1', '2', '3', '4', '5', '6', '7', '8', '9', 'a', 'b', 'c', 'd', 'e', 'f'][d]
}

/// The `k`-th hex digit of `id`, counted from the most significant.
pub open spec fn nibble(id: u128, k: int) -> int {
    (id as int / pow2((4 * (31 - k)) as nat) as int) % 16
}

/// How many of the text's hyphens stand before position `p`.
pub open spec fn hyphens_before(p: int) -> int {
    if p < 8 {
        0
    } else if p < 13 {
        1
    } else if p < 18 {
        2
    } else if p < 23 {
        3
    } else {
        4
    }
}

/// The hyphenated lower-case text of an item id: its 32 hex digits, most
/// significant first, in groups of 8, 4, 4, 4 and 12.
pub open spec fn uuid_text(id: u128) -> Seq<char> {
    Seq::new(
        36,
        |p: int|
            if p == 8 || p == 13 || p == 18 || p == 23 {
                '-'
            } else {
                hex_char(nibble(id, p - hyphens_before(p)))
            },
    )
}

/// Relies on `uuid::Uuid::from_u128` (the value's big-endian bytes) and the
/// `Display` of `uuid::Uuid` (the hyphenated lower-case hex of those bytes).
#[verifier::external_body]
fn id_text(id: u128) -> (r: String)
    ensures
        r@ == uuid_text(id),
{
    uuid::Uuid::from_u128(id).to_string()
}

/// An update, as seen in contracts.
pub struct UpdateView {
    pub key: Seq<FieldView>,
    /// The written fields.
    pub set: Seq<FieldView>,
    /// The placeholder that stands for each written value in the expression.
    pub placeholders: Seq<Seq<char>>,
    pub remove: Seq<Seq<char>>,
}

/// A field written by an update: its value travels under `placeholder`.
#[derive(Debug)]
pub struct Assignment {
    pub name: String,
    pub placeholder: String,
    pub value: AttrValue,
}

impl Assignment {
    pub fn new(name: String, placeholder: String, value: AttrValue) -> (r: Assignment)
        ensures
            r.name@ == name@,
            r.placeholder@ == placeholder@,
            r.value@ == value@,
    {
        Assignment { name, placeholder, value }
    }
}

/// A partial update of one record: the fields in `set` are written, those
/// named in `remove` are taken out, and all other fields stay as they are.
#[derive(Debug)]
pub struct Update {
    pub key: Vec<Field>,
    pub set: Vec<Assignment>,
    pub remove: Vec<String>,
}

pub open spec fn names_view(ns: Seq<String>) -> Seq<Seq<char>> {
    ns.map_values(|n: String| n@)
}

impl View for Update {
    type V = UpdateView;

    open spec fn view(&self) -> UpdateView {
        UpdateView {
            key: crate::attr::fields_view(self.key@),
            set: self.set@.map_values(|a: Assignment| (a.name@, a.value@)),
            placeholders: self.set@.map_values(|a: Assignment| a.placeholder@),
            remove: names_view(self.remove@),
        }
    }
}

/// The key of an item's record: its category and its id.
pub open spec fn item_key(cat: AttrView, id: u128) -> Seq<FieldView> {
    seq![("cat"@, cat), ("id"@, AttrView { s: Some(uuid_text(id)), n: None })]
}

/// The update that lists item `id` at `price` under `name`.
pub open spec fn place_update(cat: AttrView, id: u128, price: u64, name: Seq<char>) -> UpdateView {
    UpdateView {
        key: item_key(cat, id),
        set: seq![
            (price_key(), AttrView { s: None, n: Some(decimal_text(price as nat)) }),
            (market_name_key(), AttrView { s: Some(name), n: None }),
        ],
        placeholders: seq![":sale_price"@, ":new_name"@],
        remove: Seq::empty(),
    }
}

/// The update that delists item `id`.
pub open spec fn take_off_update(cat: AttrView, id: u128) -> UpdateView {
    UpdateView {
        key: item_key(cat, id),
        set: Seq::empty(),
        placeholders: Seq::empty(),
        remove: seq![price_key(), market_name_key()],
    }
}

/// Every field name that an update touches.
pub open spec fn touched(u: UpdateView) -> Seq<Seq<char>> {
    u.set.map_values(|f: FieldView| f.0) + u.remove
}

/// The fields of `rec` whose names are not in `names`, in order.
pub open spec fn without(rec: Seq<FieldView>, names: Seq<Seq<char>>) -> Seq<FieldView>
    decreases rec.len(),
{
    if rec.len() == 0 {
        rec
    } else if names.contains(rec[0].0) {
        without(rec.drop_first(), names)
    } else {
        seq![rec[0]] + without(rec.drop_first(), names)
    }
}

/// The record that the store keeps after applying `u` to `rec`.
pub open spec fn apply_update(rec: Seq<FieldView>, u: UpdateView) -> Seq<FieldView> {
    u.set + without(rec, touched(u))
}

/// `n = p`: field `n` takes the value that placeholder `p` stands for.
pub open spec fn assignment(n: Seq<char>, p: Seq<char>) -> Seq<char> {
    n + " = "@ + p
}

/// The assignments of an update's `SET` clause, in order.
pub open spec fn assignments(u: UpdateView) -> Seq<Seq<char>> {
    Seq::new(u.set.len(), |i: int| assignment(u.set[i].0, u.placeholders[i]))
}

/// The items, separated by `, `.
pub open spec fn joined(items: Seq<Seq<char>>) -> Seq<char>
    decreases items.len(),
{
    if items.len() == 0 {
        Seq::empty()
    } else if items.len() == 1 {
        items[0]
    } else {
        joined(items.drop_last()) + ", "@ + items.last()
    }
}

/// The store's update expression for `u`: a `SET` clause for the written
/// fields and a `REMOVE` clause for the removed ones, each left out when
/// it would be empty.
pub open spec fn update_expression(u: UpdateView) -> Seq<char> {
    let set_part = "SET "@ + joined(assignments(u));
    let remove_part = "REMOVE "@ + joined(u.remove);
    if u.set.len() > 0 && u.remove.len() > 0 {
        set_part + " "@ + remove_part
    } else if u.set.len() > 0 {
        set_part
    } else if u.remove.len() > 0 {
        remove_part
    } else {
        Seq::empty()
    }
}

/// The placeholder values of `update_expression(u)`: each written value
/// under its placeholder.
pub open spec fn placeholder_values(u: UpdateView) -> Seq<FieldView> {
    Seq::new(u.set.len(), |i: int| (u.placeholders[i], u.set[i].1))
}

/// A listing is written as `SET price = :sale_price, market_name = :new_name`,
/// with the price's decimal text under `:sale_price` and the name under
/// `:new_name`.
pub proof fn place_request(cat: AttrView, id: u128, price: u64, name: Seq<char>)
    ensures
        update_expression(place_update(cat, id, price, name))
            == "SET price = :sale_price, market_name = :new_name"@,
        placeholder_values(place_update(cat, id, price, name)) == seq![
            (":sale_price"@, AttrView { s: None, n: Some(decimal_text(price as nat)) }),
            (":new_name"@, AttrView { s: Some(name), n: None }),
        ],
{
    let u = place_update(cat, id, price, name);
    reveal_strlit("SET price = :sale_price, market_name = :new_name");
    reveal_strlit("SET ");
    reveal_strlit(", ");
    reveal_strlit(" = ");
    reveal_strlit("price");
    reveal_strlit("market_name");
    reveal_strlit(":sale_price");
    reveal_strlit(":new_name");
    let a = assignments(u);
    assert(a.drop_last() =~= seq![a[0]]);
    assert(joined(a.drop_last()) == a[0]);
    assert(update_expression(u) =~= "SET price = :sale_price, market_name = :new_name"@);
    assert(placeholder_values(u) =~= seq![
        (":sale_price"@, AttrView { s: None, n: Some(decimal_text(price as nat)) }),
        (":new_name"@, AttrView { s: Some(name), n: None }),
    ]);
}

/// A delisting is written as `REMOVE price, market_name`, with no values.
pub proof fn take_off_request(cat: AttrView, id: u128)
    ensures
        update_expression(take_off_update(cat, id)) == "REMOVE price, market_name"@,
        placeholder_values(take_off_update(cat, id)).len() == 0,
{
    let u = take_off_update(cat, id);
    reveal_strlit("REMOVE price, market_name");
    reveal_strlit("REMOVE ");
    reveal_strlit(", ");
    reveal_strlit("price");
    reveal_strlit("market_name");
    assert(u.remove.drop_last() =~= seq![u.remove[0]]);
    assert(joined(u.remove.drop_last()) == u.remove[0]);
    assert(update_expression(u) =~= "REMOVE price, market_name"@);
}

fn join(items: &Vec<String>) -> (r: String)
    ensures
        r@ == joined(names_view(items@)),
{
    let mut out = String::new();
    let mut i: usize = 0;
    while i < items.len()
        invariant
            0 <= i <= items@.len(),
            out@ == joined(names_view(items@).subrange(0, i as int)),
        decreases items@.len() - i,
    {
        let ghost done = names_view(items@).subrange(0, i + 1);
        assert(done.drop_last() =~= names_view(items@).subrange(0, i as int));
        if i > 0 {
            out.append(", ");
        }
        out.append(items[i].as_str());
        assert(out@ =~= joined(done));
        i = i + 1;
    }
    assert(names_view(items@).subrange(0, i as int) =~= names_view(items@));
    out
}

impl Update {
    /// The update expression that the store applies.
    pub fn expression(&self) -> (r: String)
        ensures
            r@ == update_expression(self@),
    {
        let mut parts: Vec<String> = Vec::new();
        let mut i: usize = 0;
        while i < self.set.len()
            invariant
                0 <= i <= self.set@.len(),
                names_view(parts@) =~= assignments(self@).subrange(0, i as int),
            decreases self.set@.len() - i,
        {
            let mut a = self.set[i].name.clone();
            a.append(" = ");
            a.append(self.set[i].placeholder.as_str());
            let ghost prev = parts@;
            parts.push(a);
            assert(self@.set[i as int].0 == self.set@[i as int].name@);
            assert(self@.placeholders[i as int] == self.set@[i as int].placeholder@);
            assert(names_view(parts@) =~= names_view(prev).push(a@));
            i = i + 1;
        }
        assert(assignments(self@).subrange(0, i as int) =~= assignments(self@));
        let set_part = join(&parts);
        let remove_part = join(&self.remove);
        let mut out = String::new();
        if self.set.len() > 0 {
            out.append("SET ");
            out.append(set_part.as_str());
        }
        if self.set.len() > 0 && self.remove.len() > 0 {
            out.append(" ");
        }
        if self.remove.len() > 0 {
            out.append("REMOVE ");
            out.append(remove_part.as_str());
        }
        out
    }

    /// The values that the expression's placeholders stand for; `None` when
    /// the update writes no field.
    pub fn expression_values(&self) -> (r: Option<Vec<Field>>)
        ensures
            match r {
                None => self@.set.len() == 0,
                Some(v) => self@.set.len() > 0 && crate::attr::fields_view(v@)
                    == placeholder_values(self@),
            },
    {
        if self.set.len() == 0 {
            return None;
        }
        let mut values: Vec<Field> = Vec::new();
        let mut i: usize = 0;
        while i < self.set.len()
            invariant
                0 <= i <= self.set@.len(),
                crate::attr::fields_view(values@) =~= placeholder_values(self@).subrange(0, i as int),
            decreases self.set@.len() - i,
        {
            let ghost prev = values@;
            let f = Field::new(self.set[i].placeholder.clone(), self.set[i].value.duplicate());
            values.push(f);
            assert(self@.set[i as int].1 == self.set@[i as int].value@);
            assert(self@.placeholders[i as int] == self.set@[i as int].placeholder@);
            assert(crate::attr::fields_view(values@) =~= crate::attr::fields_view(prev).push(f@));
            i = i + 1;
        }
        assert(placeholder_values(self@).subrange(0, i as int) =~= placeholder_values(self@));
        Some(values)
    }
}

fn key_fields(cat: &AttrValue, id: u128) -> (r: Vec<Field>)
    ensures
        crate::attr::fields_view(r@) == item_key(cat@, id),
{
    let mut key: Vec<Field> = Vec::new();
    key.push(Field::new(String::from_str("cat"), cat.duplicate()));
    key.push(Field::new(String::from_str("id"), AttrValue::string(id_text(id))));
    assert(crate::attr::fields_view(key@) =~= item_key(cat@, id));
    key
}

/// The update that puts item `id` of category `cat` on the market at
/// `price` under the display name `name`, overwriting an earlier listing.
pub fn place_on_market(cat: &AttrValue, id: u128, price: u64, name: String) -> (r: Update)
    ensures
        r@ == place_update(cat@, id, price, name@),
{
    let mut set: Vec<Assignment> = Vec::new();
    set.push(
        Assignment::new(
            String::from_str("price"),
            String::from_str(":sale_price"),
            AttrValue::number(format_u64(price)),
        ),
    );
    set.push(
        Assignment::new(
            String::from_str("market_name"),
            String::from_str(":new_name"),
            AttrValue::string(name),
        ),
    );
    let r = Update { key: key_fields(cat, id), set, remove: Vec::new() };
    assert(r@.set =~= place_update(cat@, id, price, name@).set);
    assert(r@.placeholders =~= place_update(cat@, id, price, name@).placeholders);
    assert(r@.remove =~= Seq::<Seq<char>>::empty());
    r
}

/// The update that takes item `id` of category `cat` off the market; it
/// holds whether or not the item is listed.
pub fn take_off_market(cat: &AttrValue, id: u128) -> (r: Update)
    ensures
        r@ == take_off_update(cat@, id),
{
    let mut remove: Vec<String> = Vec::new();
    remove.push(String::from_str("price"));
    remove.push(String::from_str("market_name"));
    let r = Update { key: key_fields(cat, id), set: Vec::new(), remove };
    assert(r@.set =~= Seq::<FieldView>::empty());
    assert(r@.placeholders =~= Seq::<Seq<char>>::empty());
    assert(r@.remove =~= take_off_update(cat@, id).remove);
    r
}

/// The result of a listing or delisting of item `id`, from the store's
/// answer to its update: a failure names the item.
pub fn update_outcome(id: u128, outcome: Result<(), String>) -> (r: Result<(), MarketError>)
    ensures
        match outcome {
            Ok(()) => r is Ok,
            Err(c) => match r {
                Err(MarketError::StoreUnavailable { item: Some(i), cause }) => i == id && cause@
                    == c@,
                _ => false,
            },
        },
{
    match outcome {
        Ok(()) => Ok(()),
        Err(cause) => Err(MarketError::StoreUnavailable { item: Some(id), cause }),
    }
}

} // verus!
