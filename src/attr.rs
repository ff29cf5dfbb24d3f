//! The store's loosely typed records: a record is a list of named attribute
//! values, and an attribute value may carry a string and/or a number (the
//! store's number attributes travel as decimal text).

use vstd::prelude::*;

verus! {

/// The mathematical value of an attribute: its string and number variants.
pub struct AttrView {
    pub s: Option<Seq<char>>,
    pub n: Option<Seq<char>>,
}

/// One named attribute of a record, as seen in contracts.
pub type FieldView = (Seq<char>, AttrView);

pub open spec fn text_view(t: Option<String>) -> Option<Seq<char>> {
    match t {
        Some(x) => Some(x@),
        None => None,
    }
}

/// An attribute value of the store: the variants the marketplace reads.
#[derive(Debug)]
pub struct AttrValue {
    pub s: Option<String>,
    pub n: Option<String>,
}

impl View for AttrValue {
    type V = AttrView;

    open spec fn view(&self) -> AttrView {
        AttrView { s: text_view(self.s), n: text_view(self.n) }
    }
}

fn copy_text(t: &Option<String>) -> (r: Option<String>)
    ensures
        text_view(r) == text_view(*t),
{
    match t {
        Some(x) => Some(x.clone()),
        None => None,
    }
}

impl AttrValue {
    /// A string attribute.
    pub fn string(s: String) -> (r: AttrValue)
        ensures
            r@ == (AttrView { s: Some(s@), n: None }),
    {
        AttrValue { s: Some(s), n: None }
    }

    /// A number attribute, given as its decimal text.
    pub fn number(n: String) -> (r: AttrValue)
        ensures
            r@ == (AttrView { s: None, n: Some(n@) }),
    {
        AttrValue { s: None, n: Some(n) }
    }

    pub fn duplicate(&self) -> (r: AttrValue)
        ensures
            r@ == self@,
    {
        AttrValue { s: copy_text(&self.s), n: copy_text(&self.n) }
    }
}

/// A named attribute of a stored record.
#[derive(Debug)]
pub struct Field {
    pub name: String,
    pub value: AttrValue,
}

impl View for Field {
    type V = FieldView;

    open spec fn view(&self) -> FieldView {
        (self.name@, self.value@)
    }
}

impl Field {
    pub fn new(name: String, value: AttrValue) -> (r: Field)
        ensures
            r@ == (name@, value@),
    {
        Field { name, value }
    }

    pub fn duplicate(&self) -> (r: Field)
        ensures
            r@ == self@,
    {
        Field { name: self.name.clone(), value: self.value.duplicate() }
    }
}

/// The fields of a record in a plain list of named values.
pub open spec fn fields_view(fs: Seq<Field>) -> Seq<FieldView> {
    fs.map_values(|f: Field| f@)
}

/// The value a record gives to `name`: that of its first field so named.
pub open spec fn lookup(fields: Seq<FieldView>, name: Seq<char>) -> Option<AttrView>
    decreases fields.len(),
{
    if fields.len() == 0 {
        None
    } else if fields[0].0 == name {
        Some(fields[0].1)
    } else {
        lookup(fields.drop_first(), name)
    }
}

/// A raw record as the store hands it out.
#[derive(Debug)]
pub struct Record {
    pub fields: Vec<Field>,
}

impl View for Record {
    type V = Seq<FieldView>;

    open spec fn view(&self) -> Seq<FieldView> {
        fields_view(self.fields@)
    }
}

impl Record {
    pub fn new(fields: Vec<Field>) -> (r: Record)
        ensures
            r@ == fields_view(fields@),
    {
        Record { fields }
    }

    /// The value of the field `name`, if the record has one.
    pub fn get(&self, name: &str) -> (r: Option<&AttrValue>)
        ensures
            match r {
                Some(v) => lookup(self@, name@) == Some(v@),
                None => lookup(self@, name@) is None,
            },
    {
        let key = String::from_str(name);
        let mut i: usize = 0;
        assert(self@.subrange(0, self@.len() as int) =~= self@);
        while i < self.fields.len()
            invariant
                0 <= i <= self.fields@.len(),
                key@ == name@,
                lookup(self@, name@) == lookup(self@.subrange(i as int, self@.len() as int), name@),
            decreases self.fields@.len() - i,
        {
            assert(self@.subrange(i as int, self@.len() as int).drop_first() =~= self@.subrange(
                i + 1,
                self@.len() as int,
            ));
            if self.fields[i].name == key {
                return Some(&self.fields[i].value);
            }
            i = i + 1;
        }
        None
    }
}

} // verus!
