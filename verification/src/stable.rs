//! Decoding is stable: what a document decodes to is canonical, and decoding
//! the canonical document again gives it back unchanged.

use vstd::prelude::*;
use crate::distinct::lemma_keys_apart;
use crate::json::{lemma_position_from, lookup, position, Fields, JsonModel};
use crate::laws::{item_at, lemma_items, lemma_own_fields, own_field_at};
use crate::names::{lemma_tag_signatures, signature};
use crate::schema::{
    base, candidates, depth, entries, first_accepting, layout_of, lemma_normal_field,
    normal_field, normal_item, normal_items, normal_language_map, normal_own, normal_plain,
    normal_record, normal_shape, normal_tagged, own, present_value, put, type_key, Family, Item,
    Layout, Normal, NormalFields, NormalItems, Plain, Shape,
};

verus! {

/// Whether a map of strings holds each key once and only strings.
pub open spec fn tidy(map: Fields) -> bool {
    &&& forall|i: int| 0 <= i < map.len() ==> (#[trigger] map[i]).1 is Text
    &&& forall|a: int, b: int|
        0 <= a < b < map.len() ==> (#[trigger] map[a]).0 != (#[trigger] map[b]).0
}

/// Putting a string into a tidy map leaves it tidy.
proof fn lemma_put_keeps_tidy(map: Fields, key: Seq<char>, value: JsonModel)
    requires
        tidy(map),
        value is Text,
    ensures
        tidy(put(map, key, value)),
{
    lemma_position_from(map, key, 0);
    let after = put(map, key, value);
    match position(map, key) {
        Some(i) => {
            assert forall|a: int, b: int| 0 <= a < b < after.len() implies (#[trigger] after[a]).0
                != (#[trigger] after[b]).0 by {
                assert(after[a].0 == map[a].0);
                assert(after[b].0 == map[b].0);
            }
        },
        None => {
            assert forall|a: int, b: int| 0 <= a < b < after.len() implies (#[trigger] after[a]).0
                != (#[trigger] after[b]).0 by {
                if b < map.len() {
                    assert(after[a] == map[a]);
                    assert(after[b] == map[b]);
                } else {
                    assert(after[a] == map[a]);
                }
            }
        },
    }
}

/// What an object decodes to as a map of strings is tidy.
proof fn lemma_language_map_is_tidy(fields: Fields, k: nat)
    requires
        k <= fields.len(),
        normal_language_map(fields, k) is Ok,
    ensures
        tidy(normal_language_map(fields, k)->Ok_0),
    decreases k,
{
    if k > 0 {
        lemma_language_map_is_tidy(fields, (k - 1) as nat);
        lemma_put_keeps_tidy(
            normal_language_map(fields, (k - 1) as nat)->Ok_0,
            fields[k - 1].0,
            fields[k - 1].1,
        );
    }
}

/// A tidy map decodes to itself.
proof fn lemma_tidy_is_stable(map: Fields, k: nat)
    requires
        tidy(map),
        k <= map.len(),
    ensures
        normal_language_map(map, k) == NormalFields::Ok(map.subrange(0, k as int)),
    decreases k,
{
    if k > 0 {
        lemma_tidy_is_stable(map, (k - 1) as nat);
        let before = map.subrange(0, k - 1);
        lemma_position_from(before, map[k - 1].0, 0);
        assert forall|i: int| 0 <= i < before.len() implies (#[trigger] before[i]).0 != map[k
            - 1].0 by {
            assert(before[i] == map[i]);
        }
        assert(before.push(map[k - 1]) =~= map.subrange(0, k as int));
    } else {
        assert(map.subrange(0, 0) =~= Seq::empty());
    }
}

/// A value that decodes without trial decodes to a string, a number, a
/// boolean or an object: never to an array and never to `Null`.
pub proof fn lemma_plain_output(plain: Plain, j: JsonModel)
    requires
        normal_plain(plain, j) is Ok,
    ensures
        !(normal_plain(plain, j)->Ok_0 is Array),
        !(normal_plain(plain, j)->Ok_0 is Null),
{
}

/// One item decodes to a string, a number, a boolean or an object: never to
/// an array and never to `Null`.
pub proof fn lemma_item_output(item: Item, j: JsonModel)
    requires
        normal_item(item, j) is Ok,
    ensures
        !(normal_item(item, j)->Ok_0 is Array),
        !(normal_item(item, j)->Ok_0 is Null),
{
    match item {
        Item::Plain(plain) => {
            lemma_plain_output(plain, j);
        },
        Item::Choice(union) => {
            let k = first_accepting(candidates(union), j, 0)->Some_0;
            lemma_plain_output(candidates(union)[k as int], j);
        },
    }
}

/// The key at `m` finds the field at `m`, where no earlier field has that
/// key.
proof fn lemma_lookup_finds(fields: Fields, m: int)
    requires
        0 <= m < fields.len(),
        forall|earlier: int| 0 <= earlier < m ==> (#[trigger] fields[earlier]).0 != fields[m].0,
    ensures
        lookup(fields, fields[m].0) == Some(fields[m].1),
{
    lemma_position_from(fields, fields[m].0, 0);
}

/// Whether, of the fields that a record decodes to, the one at `i` stands
/// under its key with the value that the field alone decodes to.
pub open spec fn record_field_at(layout: Layout, j: JsonModel, i: int) -> bool {
    &&& normal_field(entries(layout)[i].1, j, entries(layout)[i].0) is Ok
    &&& normal_record(layout, j)->Ok_0[i] == (
        entries(layout)[i].0,
        normal_field(entries(layout)[i].1, j, entries(layout)[i].0)->Ok_0,
    )
}

/// A record decodes, where it does, to one field for each field of its
/// layout, in the declared order, each with the value that the field alone
/// decodes to.
pub proof fn lemma_record_fields(layout: Layout, j: JsonModel)
    requires
        normal_record(layout, j) is Ok,
    ensures
        normal_record(layout, j)->Ok_0.len() == entries(layout).len(),
        forall|i: int| 0 <= i < entries(layout).len() ==> #[trigger] record_field_at(layout, j, i),
    decreases depth(layout),
{
    reveal(normal_record);
    reveal(normal_own);
    let count = own(layout).len();
    lemma_own_fields(layout, j, count);
    let mine = normal_own(layout, j, count)->Ok_0;
    match base(layout) {
        Some(below) => {
            lemma_record_fields(below, j);
            let theirs = normal_record(below, j)->Ok_0;
            assert forall|i: int| 0 <= i < entries(layout).len() implies #[trigger] record_field_at(
                layout,
                j,
                i,
            ) by {
                if i < count {
                    assert(own_field_at(layout, j, count, i));
                    assert(entries(layout)[i] == own(layout)[i]);
                    assert((mine + theirs)[i] == mine[i]);
                } else {
                    assert(record_field_at(below, j, i - count));
                    assert(entries(layout)[i] == entries(below)[i - count]);
                    assert((mine + theirs)[i] == theirs[i - count]);
                }
            }
        },
        None => {
            assert forall|i: int| 0 <= i < entries(layout).len() implies #[trigger] record_field_at(
                layout,
                j,
                i,
            ) by {
                assert(own_field_at(layout, j, count, i));
                assert(entries(layout)[i] == own(layout)[i]);
            }
        },
    }
}

/// Whether the object `c` holds, under the key of each field of a layout,
/// the value that the field decodes to in `j`.
pub open spec fn holds_record(c: JsonModel, layout: Layout, j: JsonModel) -> bool {
    &&& c is Object
    &&& forall|i: int|
        0 <= i < entries(layout).len() ==> c.field((#[trigger] entries(layout)[i]).0) == Some(
            normal_field(entries(layout)[i].1, j, entries(layout)[i].0)->Ok_0,
        )
}

/// Only the discriminator `Link` selects a layout in the family of links,
/// and no other family knows it.
proof fn lemma_link_stands_alone(family: Family, tag: Seq<char>)
    requires
        layout_of(family, tag) is Some,
    ensures
        (family is Link) == (layout_of(Family::Link, tag) is Some),
{
    lemma_tag_signatures();
    if !(family is Link) {
        assert(signature(tag) != signature("Link"@));
    }
}

/// A field that decodes in `j` decodes to the same value in an object that
/// holds that value under the field's key.
proof fn lemma_stable_field(shape: Shape, j: JsonModel, key: Seq<char>, c: JsonModel)
    requires
        normal_field(shape, j, key) is Ok,
        c.field(key) == Some(normal_field(shape, j, key)->Ok_0),
    ensures
        normal_field(shape, c, key) == normal_field(shape, j, key),
    decreases j, 0nat, 0nat,
{
    lemma_normal_field(shape, j, key);
    lemma_normal_field(shape, c, key);
    let value = normal_field(shape, j, key)->Ok_0;
    if !(value is Null) {
        let given = present_value(j, key)->Some_0;
        lemma_stable_shape(shape, given);
    }
}

/// The first `k` own fields of a layout decode alike in `j` and in an object
/// that holds what they decode to.
proof fn lemma_stable_own(layout: Layout, j: JsonModel, c: JsonModel, k: nat)
    requires
        k <= own(layout).len(),
        normal_own(layout, j, k) is Ok,
        forall|i: int|
            0 <= i < own(layout).len() ==> c.field((#[trigger] own(layout)[i]).0) == Some(
                normal_field(own(layout)[i].1, j, own(layout)[i].0)->Ok_0,
            ),
    ensures
        normal_own(layout, c, k) == normal_own(layout, j, k),
    decreases j, 1nat, k,
{
    reveal(normal_own);
    reveal(normal_field);
    if k > 0 {
        lemma_stable_own(layout, j, c, (k - 1) as nat);
        let entry = own(layout)[k - 1];
        assert(c.field(entry.0) == Some(normal_field(entry.1, j, entry.0)->Ok_0));
        lemma_stable_field(entry.1, j, entry.0, c);
    }
}

/// A record decodes alike from `j` and from an object that holds what its
/// fields decode to.
proof fn lemma_stable_record(layout: Layout, j: JsonModel, c: JsonModel)
    requires
        normal_record(layout, j) is Ok,
        holds_record(c, layout, j),
    ensures
        normal_record(layout, c) == normal_record(layout, j),
    decreases j, 2nat, depth(layout),
{
    reveal(normal_record);
    reveal(normal_own);
    let count = own(layout).len();
    assert forall|i: int| 0 <= i < count implies c.field((#[trigger] own(layout)[i]).0) == Some(
        normal_field(own(layout)[i].1, j, own(layout)[i].0)->Ok_0,
    ) by {
        assert(entries(layout)[i] == own(layout)[i]);
    }
    lemma_stable_own(layout, j, c, count);
    match base(layout) {
        Some(below) => {
            assert forall|i: int| 0 <= i < entries(below).len() implies c.field(
                (#[trigger] entries(below)[i]).0,
            ) == Some(normal_field(entries(below)[i].1, j, entries(below)[i].0)->Ok_0) by {
                assert(entries(layout)[i + count] == entries(below)[i]);
            }
            lemma_stable_record(below, j, c);
        },
        None => {},
    }
}

/// What a tagged record decodes to decodes to itself.
proof fn lemma_stable_tagged(family: Family, j: JsonModel)
    requires
        normal_tagged(family, j) is Ok,
    ensures
        normal_tagged(family, JsonModel::Object(normal_tagged(family, j)->Ok_0)) == normal_tagged(
            family,
            j,
        ),
    decreases j, 3nat, 0nat,
{
    reveal(normal_record);
    let out = normal_tagged(family, j)->Ok_0;
    let c = JsonModel::Object(out);
    let fields = j->Object_0;
    let at = position(fields, type_key())->Some_0;
    let tag = fields[at].1->Text_0;
    let layout = layout_of(family, tag)->Some_0;
    let rest = normal_record(layout, j)->Ok_0;
    assert(out == seq![(type_key(), JsonModel::Text(tag))] + rest);
    lemma_record_fields(layout, j);
    lemma_keys_apart(layout);
    assert forall|i: int| 0 <= i < entries(layout).len() implies c.field(
        (#[trigger] entries(layout)[i]).0,
    ) == Some(normal_field(entries(layout)[i].1, j, entries(layout)[i].0)->Ok_0) by {
        assert(record_field_at(layout, j, i));
        assert(out[i + 1] == rest[i]);
        assert forall|earlier: int| 0 <= earlier < i + 1 implies (#[trigger] out[earlier]).0
            != out[i + 1].0 by {
            if earlier > 0 {
                assert(record_field_at(layout, j, earlier - 1));
                assert(out[earlier] == rest[earlier - 1]);
                assert(entries(layout)[earlier - 1].0 != entries(layout)[i].0);
            } else {
                assert(entries(layout)[i].0 != type_key());
            }
        }
        lemma_lookup_finds(out, i + 1);
    }
    lemma_stable_record(layout, j, c);
    assert(position(out, type_key()) == Some(0int));
}

/// What a value decodes to without trial decodes to itself.
proof fn lemma_stable_plain(plain: Plain, j: JsonModel)
    requires
        normal_plain(plain, j) is Ok,
    ensures
        normal_plain(plain, normal_plain(plain, j)->Ok_0) == normal_plain(plain, j),
    decreases j, 4nat, 0nat,
{
    match plain {
        Plain::LanguageMap => {
            let fields = j->Object_0;
            let map = normal_language_map(fields, fields.len())->Ok_0;
            lemma_language_map_is_tidy(fields, fields.len());
            lemma_tidy_is_stable(map, map.len());
            assert(map.subrange(0, map.len() as int) =~= map);
        },
        Plain::Tagged(family) => {
            lemma_stable_tagged(family, j);
        },
        _ => {},
    }
}

/// What one item decodes to decodes to itself.
proof fn lemma_stable_item(item: Item, j: JsonModel)
    requires
        normal_item(item, j) is Ok,
    ensures
        normal_item(item, normal_item(item, j)->Ok_0) == normal_item(item, j),
    decreases j, 6nat, 0nat,
{
    match item {
        Item::Plain(plain) => {
            lemma_stable_plain(plain, j);
        },
        Item::Choice(union) => {
            let k = first_accepting(candidates(union), j, 0)->Some_0;
            let chosen = candidates(union)[k as int];
            let c = normal_plain(chosen, j)->Ok_0;
            lemma_stable_plain(chosen, j);
            reveal_with_fuel(first_accepting, 6);
            if let Plain::Tagged(family) = chosen {
                let tag = c->Object_0[0].1->Text_0;
                assert(position(c->Object_0, type_key()) == Some(0int));
                lemma_link_stands_alone(family, tag);
            }
        },
    }
}

/// Items that decode to themselves make an array that decodes to itself.
pub proof fn lemma_stable_items(item: Item, values: Seq<JsonModel>, k: nat)
    requires
        k <= values.len(),
        forall|i: int|
            0 <= i < values.len() ==> normal_item(item, #[trigger] values[i]) == Normal::Ok(
                values[i],
            ),
    ensures
        normal_items(item, JsonModel::Array(values), k) == NormalItems::Ok(
            values.subrange(0, k as int),
        ),
    decreases k,
{
    if k > 0 {
        lemma_stable_items(item, values, (k - 1) as nat);
        assert(values.subrange(0, k - 1).push(values[k - 1]) =~= values.subrange(0, k as int));
    } else {
        assert(values.subrange(0, 0) =~= Seq::<JsonModel>::empty());
    }
}

/// What a value decodes to under a shape decodes to itself.
proof fn lemma_stable_shape(shape: Shape, j: JsonModel)
    requires
        normal_shape(shape, j) is Ok,
    ensures
        normal_shape(shape, normal_shape(shape, j)->Ok_0) == normal_shape(shape, j),
    decreases j, 8nat, 0nat,
{
    match shape {
        Shape::One(item) => {
            lemma_stable_item(item, j);
        },
        Shape::Folded(item) => {
            match j {
                JsonModel::Array(items) => {
                    let values = normal_items(item, j, items.len())->Ok_0;
                    lemma_items(item, j, items.len());
                    assert forall|i: int| 0 <= i < values.len() implies normal_item(
                        item,
                        #[trigger] values[i],
                    ) == Normal::Ok(values[i]) by {
                        assert(item_at(item, j, items.len(), i));
                        lemma_stable_item(item, items[i]);
                    }
                    if values.len() == 1 {
                        assert(item_at(item, j, items.len(), 0));
                        lemma_item_output(item, items[0]);
                    } else {
                        lemma_stable_items(item, values, values.len());
                        assert(values.subrange(0, values.len() as int) =~= values);
                    }
                },
                _ => {
                    lemma_item_output(item, j);
                    lemma_stable_item(item, j);
                },
            }
        },
    }
}

/// Decoding is stable. What a document decodes to under a shape is the
/// canonical document of the value, and decoding the canonical document gives
/// the same canonical document again. So a value that was decoded, written
/// and decoded once more is written exactly as before, and a document that
/// used a legal but not canonical form, such as an array of one item, is
/// written in the canonical form from the first time on.
pub proof fn law_decoding_is_stable(shape: Shape, j: JsonModel)
    requires
        normal_shape(shape, j) is Ok,
    ensures
        normal_shape(shape, normal_shape(shape, j)->Ok_0) == normal_shape(shape, j),
{
    lemma_stable_shape(shape, j);
}

/// Decoding a tagged record is stable: the object that it decodes to decodes
/// to the same fields again.
pub proof fn law_tagged_decoding_is_stable(family: Family, j: JsonModel)
    requires
        normal_tagged(family, j) is Ok,
    ensures
        normal_tagged(family, JsonModel::Object(normal_tagged(family, j)->Ok_0)) == normal_tagged(
            family,
            j,
        ),
{
    lemma_stable_tagged(family, j);
}

} // verus!
