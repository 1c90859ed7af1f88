//! The keys of every layout are different from one another and from the
//! two keys that the grammar reserves.

use vstd::prelude::*;
use crate::names::{lemma_key_signatures, signature};
use crate::schema::{
    base, context_key, depth, entries, lemma_own_activity, lemma_own_collection,
    lemma_own_collection_page, lemma_own_link, lemma_own_object, lemma_own_ordered_collection,
    lemma_own_ordered_collection_page, lemma_own_place, lemma_own_profile, lemma_own_question,
    lemma_own_relationship, lemma_own_tombstone, own, type_key, Layout,
};

verus! {

/// The signature of the key of the field that a layout declares at `i`.
pub open spec fn own_code(layout: Layout, i: int) -> (nat, char, char, char) {
    match layout {
        Layout::Object => if i == 0 {
            (10nat, 'a', 't', 'n')
        } else if i == 1 {
            (12nat, 'a', 't', 'T')
        } else if i == 2 {
            (8nat, 'a', 'u', 'c')
        } else if i == 3 {
            (7nat, 'c', 'o', 'n')
        } else if i == 4 {
            (10nat, 'c', 'o', 'a')
        } else if i == 5 {
            (7nat, 'c', 'o', 'x')
        } else if i == 6 {
            (4nat, 'n', 'a', 'm')
        } else if i == 7 {
            (7nat, 'n', 'a', 'a')
        } else if i == 8 {
            (7nat, 'e', 'n', 'm')
        } else if i == 9 {
            (9nat, 'g', 'e', 'o')
        } else if i == 10 {
            (4nat, 'i', 'c', 'o')
        } else if i == 11 {
            (5nat, 'i', 'm', 'g')
        } else if i == 12 {
            (9nat, 'i', 'n', 'T')
        } else if i == 13 {
            (8nat, 'l', 'o', 'o')
        } else if i == 14 {
            (7nat, 'p', 'r', 'e')
        } else if i == 15 {
            (9nat, 'p', 'u', 'e')
        } else if i == 16 {
            (7nat, 'r', 'e', 'e')
        } else if i == 17 {
            (9nat, 's', 't', 'm')
        } else if i == 18 {
            (7nat, 's', 'u', 'r')
        } else if i == 19 {
            (10nat, 's', 'u', 'a')
        } else if i == 20 {
            (3nat, 't', 'a', 'a')
        } else if i == 21 {
            (7nat, 'u', 'p', 'e')
        } else if i == 22 {
            (3nat, 'u', 'r', 'r')
        } else if i == 23 {
            (2nat, 't', 'o', 't')
        } else if i == 24 {
            (3nat, 'b', 't', 't')
        } else if i == 25 {
            (2nat, 'c', 'c', 'c')
        } else if i == 26 {
            (3nat, 'b', 'c', 'c')
        } else if i == 27 {
            (9nat, 'm', 'e', 'p')
        } else {
            (8nat, 'd', 'u', 'o')
        },
        Layout::Link => if i == 0 {
            (4nat, 'h', 'r', 'e')
        } else if i == 1 {
            (3nat, 'r', 'e', 'e')
        } else if i == 2 {
            (9nat, 'm', 'e', 'p')
        } else if i == 3 {
            (4nat, 'n', 'a', 'm')
        } else if i == 4 {
            (7nat, 'n', 'a', 'a')
        } else if i == 5 {
            (8nat, 'h', 'r', 'n')
        } else if i == 6 {
            (6nat, 'h', 'e', 'h')
        } else if i == 7 {
            (5nat, 'w', 'i', 't')
        } else {
            (7nat, 'p', 'r', 'e')
        },
        Layout::Activity => if i == 0 {
            (5nat, 'a', 'c', 'o')
        } else if i == 1 {
            (6nat, 'o', 'b', 'c')
        } else if i == 2 {
            (6nat, 't', 'a', 'e')
        } else if i == 3 {
            (6nat, 'r', 'e', 'l')
        } else if i == 4 {
            (6nat, 'o', 'r', 'i')
        } else {
            (10nat, 'i', 'n', 'n')
        },
        Layout::Collection => if i == 0 {
            (10nat, 't', 'o', 'm')
        } else if i == 1 {
            (7nat, 'c', 'u', 'n')
        } else if i == 2 {
            (5nat, 'f', 'i', 's')
        } else if i == 3 {
            (4nat, 'l', 'a', 's')
        } else {
            (5nat, 'i', 't', 'm')
        },
        Layout::OrderedCollection => if i == 0 {
            (10nat, 't', 'o', 'm')
        } else if i == 1 {
            (7nat, 'c', 'u', 'n')
        } else if i == 2 {
            (5nat, 'f', 'i', 's')
        } else if i == 3 {
            (4nat, 'l', 'a', 's')
        } else if i == 4 {
            (5nat, 'i', 't', 'm')
        } else {
            (12nat, 'o', 'r', 'm')
        },
        Layout::CollectionPage => if i == 0 {
            (6nat, 'p', 'a', 'O')
        } else if i == 1 {
            (4nat, 'n', 'e', 'x')
        } else {
            (4nat, 'p', 'r', 'e')
        },
        Layout::OrderedCollectionPage => if i == 0 {
            (10nat, 's', 't', 'e')
        } else if i == 1 {
            (6nat, 'p', 'a', 'O')
        } else if i == 2 {
            (4nat, 'n', 'e', 'x')
        } else {
            (4nat, 'p', 'r', 'e')
        },
        Layout::Question => if i == 0 {
            (5nat, 'o', 'n', 'O')
        } else if i == 1 {
            (5nat, 'a', 'n', 'O')
        } else {
            (6nat, 'c', 'l', 'e')
        },
        Layout::Relationship => if i == 0 {
            (7nat, 's', 'u', 'c')
        } else if i == 1 {
            (6nat, 'o', 'b', 'c')
        } else {
            (12nat, 'r', 'e', 'i')
        },
        Layout::Place => if i == 0 {
            (8nat, 'a', 'c', 'c')
        } else if i == 1 {
            (8nat, 'a', 'l', 'd')
        } else if i == 2 {
            (8nat, 'l', 'a', 'd')
        } else if i == 3 {
            (9nat, 'l', 'o', 'd')
        } else if i == 4 {
            (6nat, 'r', 'a', 'u')
        } else {
            (5nat, 'u', 'n', 't')
        },
        Layout::Profile => {
            (9nat, 'd', 'e', 'e')
        },
        Layout::Tombstone => if i == 0 {
            (10nat, 'f', 'o', 'p')
        } else {
            (7nat, 'd', 'e', 'e')
        },
    }
}

/// The number of fields that a layout declares itself.
pub open spec fn own_count(layout: Layout) -> nat {
    match layout {
        Layout::Object => 29,
        Layout::Link => 9,
        Layout::Activity => 6,
        Layout::Collection => 5,
        Layout::OrderedCollection => 6,
        Layout::CollectionPage => 3,
        Layout::OrderedCollectionPage => 4,
        Layout::Question => 3,
        Layout::Relationship => 3,
        Layout::Place => 6,
        Layout::Profile => 1,
        Layout::Tombstone => 2,
    }
}

/// `own_code` and `own_count` describe the declared fields.
pub proof fn lemma_own_codes(layout: Layout)
    ensures
        own(layout).len() == own_count(layout),
        forall|i: int|
            0 <= i < own(layout).len() ==> signature(#[trigger] own(layout)[i].0) == own_code(
                layout,
                i,
            ),
{
    lemma_key_signatures();
    match layout {
        Layout::Object => {
            lemma_own_object();
            assert forall|i: int| 0 <= i < own(layout).len() implies signature(
                #[trigger] own(layout)[i].0,
            ) == own_code(layout, i) by {
                if i == 0 {
                } else if i == 1 {
                } else if i == 2 {
                } else if i == 3 {
                } else if i == 4 {
                } else if i == 5 {
                } else if i == 6 {
                } else if i == 7 {
                } else if i == 8 {
                } else if i == 9 {
                } else if i == 10 {
                } else if i == 11 {
                } else if i == 12 {
                } else if i == 13 {
                } else if i == 14 {
                } else if i == 15 {
                } else if i == 16 {
                } else if i == 17 {
                } else if i == 18 {
                } else if i == 19 {
                } else if i == 20 {
                } else if i == 21 {
                } else if i == 22 {
                } else if i == 23 {
                } else if i == 24 {
                } else if i == 25 {
                } else if i == 26 {
                } else if i == 27 {
                } else {
                }
            }
        },
        Layout::Link => {
            lemma_own_link();
            assert forall|i: int| 0 <= i < own(layout).len() implies signature(
                #[trigger] own(layout)[i].0,
            ) == own_code(layout, i) by {
                if i == 0 {
                } else if i == 1 {
                } else if i == 2 {
                } else if i == 3 {
                } else if i == 4 {
                } else if i == 5 {
                } else if i == 6 {
                } else if i == 7 {
                } else {
                }
            }
        },
        Layout::Activity => {
            lemma_own_activity();
            assert forall|i: int| 0 <= i < own(layout).len() implies signature(
                #[trigger] own(layout)[i].0,
            ) == own_code(layout, i) by {
                if i == 0 {
                } else if i == 1 {
                } else if i == 2 {
                } else if i == 3 {
                } else if i == 4 {
                } else {
                }
            }
        },
        Layout::Collection => {
            lemma_own_collection();
            assert forall|i: int| 0 <= i < own(layout).len() implies signature(
                #[trigger] own(layout)[i].0,
            ) == own_code(layout, i) by {
                if i == 0 {
                } else if i == 1 {
                } else if i == 2 {
                } else if i == 3 {
                } else {
                }
            }
        },
        Layout::OrderedCollection => {
            lemma_own_ordered_collection();
            assert forall|i: int| 0 <= i < own(layout).len() implies signature(
                #[trigger] own(layout)[i].0,
            ) == own_code(layout, i) by {
                if i == 0 {
                } else if i == 1 {
                } else if i == 2 {
                } else if i == 3 {
                } else if i == 4 {
                } else {
                }
            }
        },
        Layout::CollectionPage => {
            lemma_own_collection_page();
            assert forall|i: int| 0 <= i < own(layout).len() implies signature(
                #[trigger] own(layout)[i].0,
            ) == own_code(layout, i) by {
                if i == 0 {
                } else if i == 1 {
                } else {
                }
            }
        },
        Layout::OrderedCollectionPage => {
            lemma_own_ordered_collection_page();
            assert forall|i: int| 0 <= i < own(layout).len() implies signature(
                #[trigger] own(layout)[i].0,
            ) == own_code(layout, i) by {
                if i == 0 {
                } else if i == 1 {
                } else if i == 2 {
                } else {
                }
            }
        },
        Layout::Question => {
            lemma_own_question();
            assert forall|i: int| 0 <= i < own(layout).len() implies signature(
                #[trigger] own(layout)[i].0,
            ) == own_code(layout, i) by {
                if i == 0 {
                } else if i == 1 {
                } else {
                }
            }
        },
        Layout::Relationship => {
            lemma_own_relationship();
            assert forall|i: int| 0 <= i < own(layout).len() implies signature(
                #[trigger] own(layout)[i].0,
            ) == own_code(layout, i) by {
                if i == 0 {
                } else if i == 1 {
                } else {
                }
            }
        },
        Layout::Place => {
            lemma_own_place();
            assert forall|i: int| 0 <= i < own(layout).len() implies signature(
                #[trigger] own(layout)[i].0,
            ) == own_code(layout, i) by {
                if i == 0 {
                } else if i == 1 {
                } else if i == 2 {
                } else if i == 3 {
                } else if i == 4 {
                } else {
                }
            }
        },
        Layout::Profile => {
            lemma_own_profile();
            assert forall|i: int| 0 <= i < own(layout).len() implies signature(
                #[trigger] own(layout)[i].0,
            ) == own_code(layout, i) by {
                {
                }
            }
        },
        Layout::Tombstone => {
            lemma_own_tombstone();
            assert forall|i: int| 0 <= i < own(layout).len() implies signature(
                #[trigger] own(layout)[i].0,
            ) == own_code(layout, i) by {
                if i == 0 {
                } else {
                }
            }
        },
    }
}

/// The signature of the key of the field that stands at `i` among all fields
/// of a layout.
pub open spec fn entry_code(layout: Layout, i: int) -> (nat, char, char, char)
    decreases depth(layout),
{
    if i < own_count(layout) {
        own_code(layout, i)
    } else {
        match base(layout) {
            Some(below) => if depth(below) < depth(layout) {
                entry_code(below, i - own_count(layout))
            } else {
                own_code(layout, i)
            },
            None => own_code(layout, i),
        }
    }
}

/// The number of all fields of a layout.
pub open spec fn entry_count(layout: Layout) -> nat
    decreases depth(layout),
{
    match base(layout) {
        Some(below) => if depth(below) < depth(layout) {
            own_count(layout) + entry_count(below)
        } else {
            own_count(layout)
        },
        None => own_count(layout),
    }
}

/// `entry_code` and `entry_count` describe all fields of a layout.
pub proof fn lemma_entry_codes(layout: Layout)
    ensures
        entries(layout).len() == entry_count(layout),
        forall|i: int|
            0 <= i < entries(layout).len() ==> signature(#[trigger] entries(layout)[i].0)
                == entry_code(layout, i),
    decreases depth(layout),
{
    lemma_own_codes(layout);
    match base(layout) {
        Some(below) => {
            lemma_entry_codes(below);
            assert forall|i: int| 0 <= i < entries(layout).len() implies signature(
                #[trigger] entries(layout)[i].0,
            ) == entry_code(layout, i) by {
                if i >= own(layout).len() {
                    assert(entries(layout)[i] == entries(below)[i - own(layout).len()]);
                } else {
                    assert(entries(layout)[i] == own(layout)[i]);
                }
            }
        },
        None => {
            assert(entries(layout) =~= own(layout));
        },
    }
}

/// Whether no two fields of a layout share a key and no field has one of
/// the two reserved keys.
pub open spec fn keys_apart(layout: Layout) -> bool {
    &&& forall|a: int, b: int|
        0 <= a < b < entries(layout).len() ==> (#[trigger] entries(layout)[a]).0 != (
        #[trigger] entries(layout)[b]).0
    &&& forall|a: int|
        0 <= a < entries(layout).len() ==> (#[trigger] entries(layout)[a]).0 != type_key()
    &&& forall|a: int|
        0 <= a < entries(layout).len() ==> (#[trigger] entries(layout)[a]).0 != context_key()
}

/// Whether the signatures of a layout's fields differ from one another and
/// from those of the two reserved keys.
pub open spec fn codes_apart(layout: Layout) -> bool {
    &&& forall|a: int, b: int|
        0 <= a < b < entry_count(layout) ==> #[trigger] entry_code(layout, a)
            != #[trigger] entry_code(layout, b)
    &&& forall|a: int|
        0 <= a < entry_count(layout) ==> #[trigger] entry_code(layout, a) != signature(type_key())
    &&& forall|a: int|
        0 <= a < entry_count(layout) ==> #[trigger] entry_code(layout, a) != signature(
            context_key(),
        )
}

/// The signatures of every layout's fields are apart.
pub proof fn lemma_codes_apart(layout: Layout)
    ensures
        codes_apart(layout),
{
    lemma_key_signatures();
    reveal_with_fuel(entry_code, 4);
    reveal_with_fuel(entry_count, 4);
    match layout {
        Layout::Object => {
            assert(codes_apart(Layout::Object));
        },
        Layout::Link => {
            assert(codes_apart(Layout::Link));
        },
        Layout::Activity => {
            assert(codes_apart(Layout::Activity));
        },
        Layout::Collection => {
            assert(codes_apart(Layout::Collection));
        },
        Layout::OrderedCollection => {
            assert(codes_apart(Layout::OrderedCollection));
        },
        Layout::CollectionPage => {
            assert(codes_apart(Layout::CollectionPage));
        },
        Layout::OrderedCollectionPage => {
            assert(codes_apart(Layout::OrderedCollectionPage));
        },
        Layout::Question => {
            assert(codes_apart(Layout::Question));
        },
        Layout::Relationship => {
            assert(codes_apart(Layout::Relationship));
        },
        Layout::Place => {
            assert(codes_apart(Layout::Place));
        },
        Layout::Profile => {
            assert(codes_apart(Layout::Profile));
        },
        Layout::Tombstone => {
            assert(codes_apart(Layout::Tombstone));
        },
    }
}

/// In every layout, no two fields share a key and no field has one of the
/// two reserved keys. This is what makes a lookup by key find the field that
/// was written under it.
pub proof fn lemma_keys_apart(layout: Layout)
    ensures
        keys_apart(layout),
{
    lemma_entry_codes(layout);
    lemma_codes_apart(layout);
    assert forall|a: int, b: int| 0 <= a < b < entries(layout).len() implies (
    #[trigger] entries(layout)[a]).0 != (#[trigger] entries(layout)[b]).0 by {
        assert(entry_code(layout, a) != entry_code(layout, b));
    }
    assert forall|a: int| 0 <= a < entries(layout).len() implies (
    #[trigger] entries(layout)[a]).0 != type_key() by {
        assert(entry_code(layout, a) != signature(type_key()));
    }
    assert forall|a: int| 0 <= a < entries(layout).len() implies (
    #[trigger] entries(layout)[a]).0 != context_key() by {
        assert(entry_code(layout, a) != signature(context_key()));
    }
}

} // verus!
