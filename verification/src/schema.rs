use vstd::prelude::*;

verus! {

/// The attribute under which an item keeps its address.
pub open spec fn address_key() -> Seq<char> {
    "address"@
}

/// The attribute under which an entry keeps the addresses of its aspects.
pub open spec fn aspect_list_key() -> Seq<char> {
    "aspect_list"@
}

/// The attribute under which an aspect item keeps its aspect address.
pub open spec fn aspect_address_key() -> Seq<char> {
    "aspect_address"@
}

/// The attribute under which an aspect item keeps its type hint.
pub open spec fn aspect_type_hint_key() -> Seq<char> {
    "aspect_type_hint"@
}

/// The attribute under which an aspect item keeps its content.
pub open spec fn aspect_key() -> Seq<char> {
    "aspect"@
}

pub fn address_key_string() -> (r: String)
    ensures
        r@ == address_key(),
{
    String::from_str("address")
}

pub fn aspect_list_key_string() -> (r: String)
    ensures
        r@ == aspect_list_key(),
{
    String::from_str("aspect_list")
}

pub fn aspect_address_key_string() -> (r: String)
    ensures
        r@ == aspect_address_key(),
{
    String::from_str("aspect_address")
}

pub fn aspect_type_hint_key_string() -> (r: String)
    ensures
        r@ == aspect_type_hint_key(),
{
    String::from_str("aspect_type_hint")
}

pub fn aspect_key_string() -> (r: String)
    ensures
        r@ == aspect_key(),
{
    String::from_str("aspect")
}

/// The texts of a sequence of strings.
pub open spec fn strings_view(v: Seq<String>) -> Seq<Seq<char>> {
    v.map_values(|s: String| s@)
}

/// A DynamoDB attribute value of the kinds that this library writes: a
/// string, a set of strings, or binary data.
#[derive(Debug, Clone, PartialEq)]
pub enum AttributeValue {
    S(String),
    SS(Vec<String>),
    B(Vec<u8>),
}

/// The value of an attribute.
pub enum AttributeView {
    S(Seq<char>),
    SS(Seq<Seq<char>>),
    B(Seq<u8>),
}

impl View for AttributeValue {
    type V = AttributeView;

    open spec fn view(&self) -> AttributeView {
        match self {
            AttributeValue::S(s) => AttributeView::S(s@),
            AttributeValue::SS(v) => AttributeView::SS(strings_view(v@)),
            AttributeValue::B(b) => AttributeView::B(b@),
        }
    }
}

/// An item, or a key: named attribute values.
pub type Item = Vec<(String, AttributeValue)>;

/// The names and values of the attributes of an item.
pub open spec fn item_view(item: Seq<(String, AttributeValue)>) -> Seq<(Seq<char>, AttributeView)> {
    item.map_values(|p: (String, AttributeValue)| (p.0@, p.1@))
}

/// The texts of pairs of strings.
pub open spec fn names_view(names: Seq<(String, String)>) -> Seq<(Seq<char>, Seq<char>)> {
    names.map_values(|p: (String, String)| (p.0@, p.1@))
}

/// A string attribute holding `s`.
pub fn string_attribute_value(s: &String) -> (r: AttributeValue)
    ensures
        r@ == AttributeView::S(s@),
{
    AttributeValue::S(s.clone())
}

/// A binary attribute holding `bytes`.
pub fn blob_attribute_value(bytes: &Vec<u8>) -> (r: AttributeValue)
    ensures
        r@ == AttributeView::B(bytes@),
{
    let mut copy: Vec<u8> = Vec::new();
    let mut i: usize = 0;
    while i < bytes.len()
        invariant
            i <= bytes.len(),
            copy@ == bytes@.take(i as int),
        decreases bytes.len() - i,
    {
        copy.push(bytes[i]);
        assert(bytes@.take(i + 1) =~= bytes@.take(i as int).push(bytes@[i as int]));
        i = i + 1;
    }
    assert(bytes@.take(bytes.len() as int) =~= bytes@);
    AttributeValue::B(copy)
}

/// A string-set attribute holding `values`.
pub fn string_set_attribute_value(values: Vec<String>) -> (r: AttributeValue)
    ensures
        r@ == AttributeView::SS(strings_view(values@)),
        r == AttributeValue::SS(values),
{
    AttributeValue::SS(values)
}

/// A copy of `v`: the same strings, in the same order.
pub fn clone_strings(v: &Vec<String>) -> (r: Vec<String>)
    ensures
        r@ == v@,
{
    let mut r: Vec<String> = Vec::new();
    let mut i: usize = 0;
    while i < v.len()
        invariant
            i <= v.len(),
            r@ == v@.take(i as int),
        decreases v.len() - i,
    {
        r.push(v[i].clone());
        assert(v@.take(i + 1) =~= v@.take(i as int).push(v@[i as int]));
        i = i + 1;
    }
    assert(v@.take(v.len() as int) =~= v@);
    r
}

impl AttributeValue {
    /// A copy of the value.
    pub fn copy(&self) -> (r: AttributeValue)
        ensures
            r@ == self@,
    {
        match self {
            AttributeValue::S(s) => AttributeValue::S(s.clone()),
            AttributeValue::SS(v) => AttributeValue::SS(clone_strings(v)),
            AttributeValue::B(b) => blob_attribute_value(b),
        }
    }
}

/// A copy of an item: the same names with the same values, in order.
pub fn copy_item(item: &Item) -> (r: Item)
    ensures
        item_view(r@) == item_view(item@),
{
    let mut r: Item = Vec::new();
    let mut i: usize = 0;
    while i < item.len()
        invariant
            i <= item.len(),
            r@.len() == i,
            forall|j: int| 0 <= j < i ==> (#[trigger] r@[j]).0@ == item@[j].0@ && r@[j].1@ == item@[j].1@,
        decreases item.len() - i,
    {
        let (name, value) = &item[i];
        r.push((name.clone(), value.copy()));
        i = i + 1;
    }
    assert(item_view(r@) =~= item_view(item@));
    r
}

/// A request to write an item into a table.
#[derive(Debug, Clone)]
pub struct PutItemRequest {
    pub table_name: String,
    pub item: Item,
}

/// A request to change an item of a table by an update expression.
#[derive(Debug, Clone)]
pub struct UpdateItemRequest {
    pub table_name: String,
    pub key: Item,
    pub update_expression: String,
    pub expression_attribute_names: Vec<(String, String)>,
    pub expression_attribute_values: Item,
}

} // verus!
