//! What holds of every document under the wire grammar.

use vstd::prelude::*;
use crate::activity_streams::TaggedObject;
use crate::distinct::lemma_keys_apart;
use crate::envelope::{normal_envelope, Context};
use crate::error::{Failure, FailureKind, Union};
use crate::names::{lemma_key_signatures, signature};
use crate::json::{field_keys, lemma_position_from, JsonModel};
use crate::schema::{
    base, candidates, context_key, depth, entries, first_accepting, layout_keys, layout_of,
    lemma_normal_field, normal_field, normal_item, normal_items, normal_own, normal_plain,
    normal_record, normal_shape, normal_tagged, own, type_key, Family, Item, Layout, Normal,
    NormalFields, NormalItems, Plain, Shape,
};

verus! {

/// Whether, of the first `k` own fields of a layout as they decode, the one
/// at `i` stands under its declared key with the value that the field alone
/// decodes to.
pub open spec fn own_field_at(layout: Layout, j: JsonModel, k: nat, i: int) -> bool {
    &&& normal_own(layout, j, i as nat) is Ok
    &&& normal_field(own(layout)[i].1, j, own(layout)[i].0) is Ok
    &&& normal_own(layout, j, k)->Ok_0[i] == (
        own(layout)[i].0,
        normal_field(own(layout)[i].1, j, own(layout)[i].0)->Ok_0,
    )
}

/// The first `k` of a layout's own fields decode, where they do, to exactly
/// `k` fields: each under its declared key and with the value that the field
/// alone decodes to.
pub proof fn lemma_own_fields(layout: Layout, j: JsonModel, k: nat)
    requires
        k <= own(layout).len(),
        normal_own(layout, j, k) is Ok,
    ensures
        normal_own(layout, j, k)->Ok_0.len() == k,
        forall|i: int| 0 <= i < k ==> #[trigger] own_field_at(layout, j, k, i),
    decreases k,
{
    reveal(normal_own);
    reveal(normal_field);
    if k > 0 {
        lemma_own_fields(layout, j, (k - 1) as nat);
        assert forall|i: int| 0 <= i < k implies #[trigger] own_field_at(layout, j, k, i) by {
            if i < k - 1 {
                assert(own_field_at(layout, j, (k - 1) as nat, i));
            }
        }
    }
}

/// Composition is flat: a record decodes to one list of fields, which holds
/// the keys that the layout declares and then the keys of every layout below
/// it, each once and in the declared order, with no object nested for a base.
pub proof fn law_record_is_flat(layout: Layout, j: JsonModel)
    requires
        normal_record(layout, j) is Ok,
    ensures
        field_keys(normal_record(layout, j)->Ok_0) == layout_keys(layout),
    decreases depth(layout),
{
    reveal(normal_record);
    reveal(normal_own);
    let mine = normal_own(layout, j, own(layout).len())->Ok_0;
    lemma_own_fields(layout, j, own(layout).len());
    assert forall|i: int| 0 <= i < mine.len() implies mine[i].0 == own(layout)[i].0 by {
        assert(own_field_at(layout, j, own(layout).len(), i));
    }
    match base(layout) {
        Some(below) => {
            law_record_is_flat(below, j);
            let theirs = normal_record(below, j)->Ok_0;
            assert(field_keys(theirs) == layout_keys(below));
            assert forall|i: int| 0 <= i < theirs.len() implies theirs[i].0
                == entries(below)[i].0 by {
                assert(field_keys(theirs)[i] == layout_keys(below)[i]);
            }
            assert(field_keys(mine + theirs) =~= layout_keys(layout));
        },
        None => {
            assert(field_keys(mine) =~= layout_keys(layout));
        },
    }
}

/// A record with a discriminator that its family does not know is refused
/// with the discriminator, whatever else it holds: no variant stands in for
/// an unknown one.
pub proof fn law_unknown_discriminator_is_refused(family: Family, j: JsonModel, tag: Seq<char>)
    requires
        j.field(type_key()) == Some(JsonModel::Text(tag)),
        layout_of(family, tag) is None,
    ensures
        normal_tagged(family, j) == NormalFields::Err(
            Failure::at_root(FailureKind::UnknownVariant(tag)),
        ),
        normal_plain(Plain::Tagged(family), j) == Normal::Err(
            Failure::at_root(FailureKind::UnknownVariant(tag)),
        ),
{
    lemma_position_from(j->Object_0, type_key(), 0);
}

/// An object without a discriminator is refused as a tagged record.
pub proof fn law_missing_discriminator_is_refused(family: Family, j: JsonModel)
    requires
        j is Object,
        j.field(type_key()) is None,
    ensures
        normal_tagged(family, j) == NormalFields::Err(
            Failure::at_root(FailureKind::MissingDiscriminator),
        ),
{
    lemma_position_from(j->Object_0, type_key(), 0);
}

/// The order of the candidates decides: of two candidates that both accept a
/// value, the one that stands first is taken, whichever of the two it is.
pub proof fn law_order_decides(first: Plain, second: Plain, j: JsonModel)
    requires
        normal_plain(first, j) is Ok,
        normal_plain(second, j) is Ok,
    ensures
        first_accepting(seq![first, second], j, 0) == Some(0nat),
        first_accepting(seq![second, first], j, 0) == Some(0nat),
{
}

/// In the union of what closes a question, a string is always read as an
/// identifier: the date that stands later in the order never gets a string to
/// read.
pub proof fn law_closed_reads_text_as_identifier(text: Seq<char>)
    ensures
        first_accepting(candidates(Union::Closed), JsonModel::Text(text), 0) == Some(0nat),
        normal_item(Item::Choice(Union::Closed), JsonModel::Text(text)) == Normal::Ok(
            JsonModel::Text(text),
        ),
{
}

/// A bare value and an array that holds just that value decode alike, where
/// one or more items are allowed: the array of one is folded into its item.
pub proof fn law_single_item_is_folded(item: Item, value: JsonModel)
    requires
        !(value is Array),
    ensures
        normal_shape(Shape::Folded(item), JsonModel::Array(seq![value])) == normal_shape(
            Shape::Folded(item),
            value,
        ),
        normal_shape(Shape::Folded(item), value) == normal_item(item, value),
{
    let array = JsonModel::Array(seq![value]);
    reveal_with_fuel(normal_items, 2);
    assert(normal_items(item, array, 0) == NormalItems::Ok(Seq::empty()));
    assert(seq![value][0] == value);
    match normal_item(item, value) {
        Ok(decoded) => {
            assert(normal_items(item, array, 1) == NormalItems::Ok(Seq::empty().push(decoded)));
        },
        Err(e) => {
            assert(normal_items(item, array, 1) == NormalItems::Err(e));
        },
    }
}

/// An empty array is refused where one or more items are allowed.
pub proof fn law_empty_array_is_refused(item: Item)
    ensures
        normal_shape(Shape::Folded(item), JsonModel::Array(Seq::empty())) == Normal::Err(
            Failure::at_root(FailureKind::EmptyCollection),
        ),
{
}

/// Whether, of the first `k` items of an array as they decode, the one at
/// `i` is the value that its item alone decodes to.
pub open spec fn item_at(item: Item, j: JsonModel, k: nat, i: int) -> bool {
    &&& normal_item(item, j->Array_0[i]) is Ok
    &&& normal_items(item, j, k)->Ok_0[i] == normal_item(item, j->Array_0[i])->Ok_0
}

/// The items of an array decode, where they do, to as many values, each the
/// value that its item alone decodes to.
pub proof fn lemma_items(item: Item, j: JsonModel, k: nat)
    requires
        j matches JsonModel::Array(items) && k <= items.len(),
        normal_items(item, j, k) is Ok,
    ensures
        normal_items(item, j, k)->Ok_0.len() == k,
        forall|i: int| 0 <= i < k ==> #[trigger] item_at(item, j, k, i),
    decreases k,
{
    if k > 0 {
        lemma_items(item, j, (k - 1) as nat);
        assert forall|i: int| 0 <= i < k implies #[trigger] item_at(item, j, k, i) by {
            if i < k - 1 {
                assert(item_at(item, j, (k - 1) as nat, i));
            }
        }
    }
}

/// An array of two or more items decodes, where every item does, to an array
/// of as many values in the same order.
pub proof fn law_many_items_stay_an_array(item: Item, items: Seq<JsonModel>)
    requires
        items.len() >= 2,
        normal_shape(Shape::Folded(item), JsonModel::Array(items)) is Ok,
    ensures
        normal_shape(Shape::Folded(item), JsonModel::Array(items))->Ok_0 matches JsonModel::Array(
            values,
        ) && values.len() == items.len() && forall|i: int|
            0 <= i < items.len() ==> normal_item(item, items[i]) == Normal::Ok(
                #[trigger] values[i],
            ),
{
    let j = JsonModel::Array(items);
    lemma_items(item, j, items.len());
    let values = normal_items(item, j, items.len())->Ok_0;
    assert forall|i: int| 0 <= i < items.len() implies normal_item(item, items[i])
        == Normal::Ok(#[trigger] values[i]) by {
        assert(item_at(item, j, items.len(), i));
    }
}

/// Whether two objects hold the same value under every key but `key`.
pub open spec fn agree_but_at(a: JsonModel, b: JsonModel, key: Seq<char>) -> bool {
    &&& a is Object
    &&& b is Object
    &&& forall|other: Seq<char>| other != key ==> #[trigger] a.field(other) == b.field(other)
}

/// Two objects that agree under a key decode alike under it.
proof fn lemma_field_agrees(shape: Shape, a: JsonModel, b: JsonModel, key: Seq<char>)
    requires
        a.field(key) == b.field(key),
    ensures
        normal_field(shape, a, key) == normal_field(shape, b, key),
{
    lemma_normal_field(shape, a, key);
    lemma_normal_field(shape, b, key);
}

/// Two objects that agree under the keys of a layout's own fields decode
/// alike as far as those fields go.
proof fn lemma_own_agrees(layout: Layout, a: JsonModel, b: JsonModel, k: nat)
    requires
        k <= own(layout).len(),
        forall|i: int| 0 <= i < own(layout).len() ==> a.field(#[trigger] own(layout)[i].0)
            == b.field(own(layout)[i].0),
    ensures
        normal_own(layout, a, k) == normal_own(layout, b, k),
    decreases k,
{
    reveal(normal_own);
    reveal(normal_field);
    if k > 0 {
        lemma_own_agrees(layout, a, b, (k - 1) as nat);
        let entry = own(layout)[k - 1];
        assert(a.field(entry.0) == b.field(entry.0));
        lemma_field_agrees(entry.1, a, b, entry.0);
    }
}

/// Two objects that agree under the keys of all fields of a layout decode to
/// the same record.
proof fn lemma_record_agrees(layout: Layout, a: JsonModel, b: JsonModel)
    requires
        a is Object,
        b is Object,
        forall|i: int| 0 <= i < entries(layout).len() ==> a.field(#[trigger] entries(layout)[i].0)
            == b.field(entries(layout)[i].0),
    ensures
        normal_record(layout, a) == normal_record(layout, b),
    decreases depth(layout),
{
    reveal(normal_record);
    reveal(normal_own);
    assert forall|i: int| 0 <= i < own(layout).len() implies a.field(#[trigger] own(layout)[i].0)
        == b.field(own(layout)[i].0) by {
        assert(entries(layout)[i] == own(layout)[i]);
    }
    lemma_own_agrees(layout, a, b, own(layout).len());
    match base(layout) {
        Some(below) => {
            assert forall|i: int| 0 <= i < entries(below).len() implies a.field(
                #[trigger] entries(below)[i].0,
            ) == b.field(entries(below)[i].0) by {
                assert(entries(layout)[i + own(layout).len()] == entries(below)[i]);
            }
            lemma_record_agrees(below, a, b);
        },
        None => {},
    }
}

/// A record does not depend on the context beside it: two objects that
/// differ only in what stands under `@context` decode to the same record.
pub proof fn law_record_ignores_context(layout: Layout, a: JsonModel, b: JsonModel)
    requires
        agree_but_at(a, b, context_key()),
    ensures
        normal_record(layout, a) == normal_record(layout, b),
{
    lemma_keys_apart(layout);
    lemma_record_agrees(layout, a, b);
}

/// A tagged payload does not depend on the context beside it: two objects
/// that differ only in what stands under `@context` decode to the same
/// payload, so a context that is changed or spoilt leaves every field of the
/// payload as it was.
pub proof fn law_payload_ignores_context(family: Family, a: JsonModel, b: JsonModel)
    requires
        agree_but_at(a, b, context_key()),
    ensures
        normal_tagged(family, a) == normal_tagged(family, b),
{
    reveal(normal_record);
    lemma_key_signatures();
    assert(signature(type_key()) != signature(context_key()));
    assert(a.field(type_key()) == b.field(type_key()));
    lemma_position_from(a->Object_0, type_key(), 0);
    lemma_position_from(b->Object_0, type_key(), 0);
    match a.field(type_key()) {
        Some(JsonModel::Text(tag)) => {
            match layout_of(family, tag) {
                Some(layout) => {
                    law_record_ignores_context(layout, a, b);
                },
                None => {},
            }
        },
        _ => {},
    }
}

/// An envelope's payload does not depend on its context, nor on the kind of
/// context that the reader expects: two envelopes that differ only in what
/// stands under `@context` decode, where both decode, to the same payload
/// fields, followed by each one's own context.
pub proof fn law_envelope_payload_is_independent<C1: Context, C2: Context>(
    a: JsonModel,
    b: JsonModel,
)
    requires
        agree_but_at(a, b, context_key()),
        normal_envelope::<TaggedObject, C1>(a) is Ok,
        normal_envelope::<TaggedObject, C2>(b) is Ok,
    ensures
        normal_envelope::<TaggedObject, C1>(a)->Ok_0.drop_last() == normal_envelope::<
            TaggedObject,
            C2,
        >(b)->Ok_0.drop_last(),
        normal_envelope::<TaggedObject, C1>(a)->Ok_0.drop_last() == normal_tagged(
            Family::Object,
            a,
        )->Ok_0,
{
    law_payload_ignores_context(Family::Object, a, b);
    let payload = normal_tagged(Family::Object, a)->Ok_0;
    let first = normal_envelope::<TaggedObject, C1>(a)->Ok_0;
    let second = normal_envelope::<TaggedObject, C2>(b)->Ok_0;
    assert(first.drop_last() =~= payload);
    assert(second.drop_last() =~= payload);
}

} // verus!
