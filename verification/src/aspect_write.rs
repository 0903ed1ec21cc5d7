use vstd::prelude::*;
use crate::protocol::EntryAspectData;
use crate::schema::address_key;
use crate::schema::address_key_string;
use crate::schema::aspect_address_key;
use crate::schema::aspect_address_key_string;
use crate::schema::aspect_key;
use crate::schema::aspect_key_string;
use crate::schema::aspect_list_key;
use crate::schema::aspect_list_key_string;
use crate::schema::aspect_type_hint_key;
use crate::schema::aspect_type_hint_key_string;
use crate::schema::blob_attribute_value;
use crate::schema::item_view;
use crate::schema::names_view;
use crate::schema::string_attribute_value;
use crate::schema::string_set_attribute_value;
use crate::schema::strings_view;
use crate::schema::AttributeValue;
use crate::schema::AttributeView;
use crate::schema::Item;
use crate::schema::PutItemRequest;
use crate::schema::UpdateItemRequest;

verus! {

/// The aspect addresses of a list of aspects, in order.
pub open spec fn aspect_addresses(aspect_list: Seq<EntryAspectData>) -> Seq<Seq<char>> {
    aspect_list.map_values(|a: EntryAspectData| a.aspect_address@)
}

/// The item under which an aspect is stored: keyed by its aspect address,
/// with its aspect address, type hint and content.
pub open spec fn aspect_item(aspect: EntryAspectData) -> Seq<(Seq<char>, AttributeView)> {
    seq![
        (address_key(), AttributeView::S(aspect.aspect_address@)),
        (aspect_address_key(), AttributeView::S(aspect.aspect_address@)),
        (aspect_type_hint_key(), AttributeView::S(aspect.type_hint@)),
        (aspect_key(), AttributeView::B(aspect.aspect@)),
    ]
}

/// The update expression that adds the values under `:aspects` to the string
/// set under the attribute named `#aspect_list`.
pub open spec fn add_aspects_expression() -> Seq<char> {
    "ADD #aspect_list :aspects"@
}

pub open spec fn aspect_list_name() -> Seq<char> {
    "#aspect_list"@
}

pub open spec fn aspects_value_name() -> Seq<char> {
    ":aspects"@
}

/// The aspect addresses of a list hold one address per aspect: the k-th is
/// the k-th aspect's address.
pub proof fn lemma_aspect_addresses_one_per_aspect(aspect_list: Seq<EntryAspectData>)
    ensures
        aspect_addresses(aspect_list).len() == aspect_list.len(),
        forall|k: int|
            0 <= k < aspect_list.len() ==> #[trigger] aspect_addresses(aspect_list)[k] == aspect_list[k].aspect_address@,
{
}

/// An item whose names and values are those that store `aspect` is keyed by
/// the aspect's address and holds its address, its type hint, and exactly its
/// content bytes, in their order.
pub proof fn lemma_aspect_item_holds_the_aspect(item: Seq<(String, AttributeValue)>, aspect: EntryAspectData)
    requires
        item_view(item) == aspect_item(aspect),
    ensures
        item.len() == 4,
        item[0].0@ == "address"@ && item[0].1@ == AttributeView::S(aspect.aspect_address@),
        item[1].0@ == "aspect_address"@ && item[1].1@ == AttributeView::S(aspect.aspect_address@),
        item[2].0@ == "aspect_type_hint"@ && item[2].1@ == AttributeView::S(aspect.type_hint@),
        item[3].0@ == "aspect"@ && item[3].1@ == AttributeView::B(aspect.aspect@),
{
    assert(aspect_item(aspect).len() == 4);
    assert(item.len() == item_view(item).len());
    assert(item_view(item)[0] == (item[0].0@, item[0].1@));
    assert(item_view(item)[1] == (item[1].0@, item[1].1@));
    assert(item_view(item)[2] == (item[2].0@, item[2].1@));
    assert(item_view(item)[3] == (item[3].0@, item[3].1@));
}

/// The string set of the aspect addresses of `aspect_list`, in order.
pub fn aspect_list_to_attribute(aspect_list: &Vec<EntryAspectData>) -> (r: AttributeValue)
    ensures
        r@ == AttributeView::SS(aspect_addresses(aspect_list@)),
        r matches AttributeValue::SS(v) && v@.len() == aspect_list@.len() && forall|k: int|
            0 <= k < v@.len() ==> #[trigger] v@[k]@ == aspect_list@[k].aspect_address@,
{
    let mut addresses: Vec<String> = Vec::new();
    let mut i: usize = 0;
    while i < aspect_list.len()
        invariant
            i <= aspect_list.len(),
            addresses@.len() == i,
            strings_view(addresses@) == aspect_addresses(aspect_list@.take(i as int)),
        decreases aspect_list.len() - i,
    {
        let ghost prev = addresses@;
        addresses.push(aspect_list[i].aspect_address.clone());
        assert(aspect_list@.take(i + 1) =~= aspect_list@.take(i as int).push(aspect_list@[i as int]));
        assert forall|k: int| 0 <= k < i + 1 implies strings_view(addresses@)[k]
            == aspect_addresses(aspect_list@.take(i + 1))[k] by {
            if k < i {
                assert(addresses@[k] == prev[k]);
                assert(strings_view(prev)[k] == aspect_addresses(aspect_list@.take(i as int))[k]);
            }
        }
        assert(strings_view(addresses@) =~= aspect_addresses(aspect_list@.take(i + 1)));
        i = i + 1;
    }
    assert(aspect_list@.take(aspect_list.len() as int) =~= aspect_list@);
    assert forall|k: int| 0 <= k < addresses@.len() implies #[trigger] addresses@[k]@ == aspect_list@[k].aspect_address@ by {
        assert(strings_view(addresses@)[k] == addresses@[k]@);
        assert(aspect_addresses(aspect_list@)[k] == aspect_list@[k].aspect_address@);
    }
    string_set_attribute_value(addresses)
}

/// The request that stores `aspect` in the table `table_name`.
pub fn put_aspect(table_name: &String, aspect: &EntryAspectData) -> (r: PutItemRequest)
    ensures
        r.table_name@ == table_name@,
        item_view(r.item@) == aspect_item(*aspect),
        r.item@.len() == 4,
        r.item@[0].0@ == "address"@ && r.item@[0].1@ == AttributeView::S(aspect.aspect_address@),
        r.item@[1].0@ == "aspect_address"@ && r.item@[1].1@ == AttributeView::S(aspect.aspect_address@),
        r.item@[2].0@ == "aspect_type_hint"@ && r.item@[2].1@ == AttributeView::S(aspect.type_hint@),
        r.item@[3].0@ == "aspect"@ && r.item@[3].1@ == AttributeView::B(aspect.aspect@),
{
    let mut item: Item = Vec::new();
    item.push((address_key_string(), string_attribute_value(&aspect.aspect_address)));
    item.push((aspect_address_key_string(), string_attribute_value(&aspect.aspect_address)));
    item.push((aspect_type_hint_key_string(), string_attribute_value(&aspect.type_hint)));
    item.push((aspect_key_string(), blob_attribute_value(&aspect.aspect)));
    assert(item_view(item@) =~= aspect_item(*aspect));
    PutItemRequest { table_name: table_name.clone(), item }
}

/// Whether a put of an aspect is tried again: after any failure, so that
/// every aspect is stored before it is made discoverable under its entry.
pub fn retry_put_aspect<T, E>(outcome: &Result<T, E>) -> (r: bool)
    ensures
        r == outcome is Err,
{
    outcome.is_err()
}

/// The writes that append `aspect_list` to the entry at `entry_address`:
/// first each aspect stored on its own, in order, then the entry's aspect
/// list extended by their addresses.
#[derive(Debug)]
pub struct AppendAspectPlan {
    pub puts: Vec<PutItemRequest>,
    pub update: UpdateItemRequest,
}

/// Plans the writes that append `aspect_list` to the entry at
/// `entry_address` in the table `table_name`.
pub fn append_aspect_list(table_name: &String, entry_address: &String, aspect_list: &Vec<EntryAspectData>) -> (r: AppendAspectPlan)
    ensures
        r.puts@.len() == aspect_list@.len(),
        forall|i: int|
            0 <= i < aspect_list@.len() ==> (#[trigger] r.puts@[i]).table_name@ == table_name@
                && item_view(r.puts@[i].item@) == aspect_item(aspect_list@[i]),
        r.update.table_name@ == table_name@,
        item_view(r.update.key@) == seq![(address_key(), AttributeView::S(entry_address@))],
        r.update.update_expression@ == add_aspects_expression(),
        names_view(r.update.expression_attribute_names@) == seq![(aspect_list_name(), aspect_list_key())],
        item_view(r.update.expression_attribute_values@) == seq![
            (aspects_value_name(), AttributeView::SS(aspect_addresses(aspect_list@))),
        ],
        r.update.expression_attribute_values@.len() == 1,
        r.update.expression_attribute_values@[0].0@ == ":aspects"@,
        r.update.expression_attribute_values@[0].1 matches AttributeValue::SS(v) && v@.len() == aspect_list@.len()
            && forall|k: int| 0 <= k < v@.len() ==> #[trigger] v@[k]@ == aspect_list@[k].aspect_address@,
{
    let mut puts: Vec<PutItemRequest> = Vec::new();
    let mut i: usize = 0;
    while i < aspect_list.len()
        invariant
            i <= aspect_list.len(),
            puts@.len() == i,
            forall|j: int|
                0 <= j < i ==> (#[trigger] puts@[j]).table_name@ == table_name@ && item_view(puts@[j].item@)
                    == aspect_item(aspect_list@[j]),
        decreases aspect_list.len() - i,
    {
        puts.push(put_aspect(table_name, &aspect_list[i]));
        i = i + 1;
    }
    let mut key: Item = Vec::new();
    key.push((address_key_string(), string_attribute_value(entry_address)));
    let mut names: Vec<(String, String)> = Vec::new();
    names.push((String::from_str("#aspect_list"), aspect_list_key_string()));
    let mut values: Item = Vec::new();
    values.push((String::from_str(":aspects"), aspect_list_to_attribute(aspect_list)));
    assert(item_view(key@) =~= seq![(address_key(), AttributeView::S(entry_address@))]);
    assert(names_view(names@) =~= seq![(aspect_list_name(), aspect_list_key())]);
    assert(item_view(values@) =~= seq![
        (aspects_value_name(), AttributeView::SS(aspect_addresses(aspect_list@))),
    ]);
    let update = UpdateItemRequest {
        table_name: table_name.clone(),
        key,
        update_expression: String::from_str("ADD #aspect_list :aspects"),
        expression_attribute_names: names,
        expression_attribute_values: values,
    };
    AppendAspectPlan { puts, update }
}

} // verus!
