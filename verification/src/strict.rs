//! Telling which fields of a document a record does not know.
//!
//! Decoding passes over fields that it does not know. A caller that wants to
//! be strict asks here for the first such field and refuses the document
//! where there is one.

use vstd::prelude::*;
use crate::json::{fields_model, same, Fields, Json, JsonModel};
use crate::schema::{
    context_key, depth, is_activity_tag, layout_keys, layout_of, lemma_layout_keys,
    lemma_own_activity, lemma_own_collection, lemma_own_collection_page, lemma_own_link,
    lemma_own_object, lemma_own_ordered_collection, lemma_own_ordered_collection_page,
    lemma_own_place, lemma_own_profile, lemma_own_question, lemma_own_relationship,
    lemma_own_tombstone, own_keys, type_key, Family, Layout,
};

verus! {

/// A list of names as character sequences.
pub open spec fn names_model(names: Seq<&'static str>) -> Seq<Seq<char>> {
    Seq::new(names.len(), |i: int| names[i]@)
}

/// The index of the first field at or after `start` whose key is not among
/// `known`.
pub open spec fn unknown_from(fields: Fields, known: Seq<Seq<char>>, start: int) -> Option<int>
    decreases fields.len() - start,
{
    if start < 0 || start >= fields.len() {
        None
    } else if !known.contains(fields[start].0) {
        Some(start)
    } else {
        unknown_from(fields, known, start + 1)
    }
}

/// The key of the first field of an object that is not among `known`; `None`
/// where every key is known or the document is no object.
pub open spec fn unknown_key(j: JsonModel, known: Seq<Seq<char>>) -> Option<Seq<char>> {
    match j {
        JsonModel::Object(fields) => match unknown_from(fields, known, 0) {
            Some(i) => if 0 <= i < fields.len() {
                Some(fields[i].0)
            } else {
                None
            },
            None => None,
        },
        _ => None,
    }
}

/// The keys that a tagged record knows: the discriminator and the keys of
/// the layout that it selects, and `@context` where the record stands in an
/// envelope. `None` where the document names no layout of the family.
pub open spec fn tagged_keys(family: Family, j: JsonModel, enveloped: bool) -> Option<
    Seq<Seq<char>>,
> {
    match j.field(type_key()) {
        Some(JsonModel::Text(tag)) => match layout_of(family, tag) {
            Some(layout) => if enveloped {
                Some(layout_keys(layout).push(type_key()).push(context_key()))
            } else {
                Some(layout_keys(layout).push(type_key()))
            },
            None => None,
        },
        _ => None,
    }
}

/// Whether `key` is one of the names.
fn is_known(known: &Vec<&'static str>, key: &str) -> (r: bool)
    ensures
        r == names_model(known@).contains(key@),
{
    let ghost model = names_model(known@);
    let mut i: usize = 0;
    while i < known.len()
        invariant
            0 <= i <= known.len(),
            model == names_model(known@),
            forall|k: int| 0 <= k < i ==> model[k] != key@,
        decreases known.len() - i,
    {
        if same(known[i], key) {
            assert(model[i as int] == key@);
            return true;
        }
        i += 1;
    }
    false
}

/// The key of the first field of an object that is not among `known`.
pub fn find_unknown(j: &Json, known: &Vec<&'static str>) -> (r: Option<String>)
    ensures
        match r {
            Some(key) => unknown_key(j@, names_model(known@)) == Some(key@),
            None => unknown_key(j@, names_model(known@)) is None,
        },
{
    match j {
        Json::Object(fields) => {
            let ghost model = fields_model(fields@);
            let ghost names = names_model(known@);
            let mut i: usize = 0;
            while i < fields.len()
                invariant
                    0 <= i <= fields.len(),
                    model == fields_model(fields@),
                    names == names_model(known@),
                    j@ == JsonModel::Object(model),
                    unknown_from(model, names, 0) == unknown_from(model, names, i as int),
                decreases fields.len() - i,
            {
                if !is_known(known, fields[i].0.as_str()) {
                    return Some(fields[i].0.clone());
                }
                i += 1;
            }
            None
        },
        _ => None,
    }
}

/// The keys of all fields of a layout, in their order.
pub fn layout_names(layout: Layout) -> (r: Vec<&'static str>)
    ensures
        names_model(r@) == layout_keys(layout),
    decreases depth(layout),
{
    proof {
        lemma_layout_keys(layout);
    }
    match layout {
        Layout::Object => {
            proof {
                lemma_own_object();
            }
            let names = vec![
                "attachment",
                "attributedTo",
                "audience",
                "content",
                "contentMap",
                "context",
                "name",
                "nameMap",
                "endTime",
                "generator",
                "icon",
                "image",
                "inReplyTo",
                "location",
                "preview",
                "published",
                "replies",
                "startTime",
                "summary",
                "summaryMap",
                "tag",
                "updated",
                "url",
                "to",
                "bto",
                "cc",
                "bcc",
                "mediaType",
                "duration",
            ];
            assert(names_model(names@) =~= own_keys(layout));
            names
        },
        Layout::Link => {
            proof {
                lemma_own_link();
            }
            let names = vec![
                "href",
                "rel",
                "mediaType",
                "name",
                "nameMap",
                "hreflang",
                "height",
                "width",
                "preview",
            ];
            assert(names_model(names@) =~= own_keys(layout));
            names
        },
        Layout::Activity => {
            proof {
                lemma_own_activity();
            }
            let mut names = vec!["actor", "object", "target", "result", "origin", "instrument"];
            let ghost mine = names_model(names@);
            assert(mine =~= own_keys(layout));
            let mut rest = layout_names(Layout::Object);
            names.append(&mut rest);
            assert(names_model(names@) =~= mine + layout_keys(Layout::Object));
            names
        },
        Layout::Collection => {
            proof {
                lemma_own_collection();
            }
            let mut names = vec!["totalItems", "current", "first", "last", "items"];
            let ghost mine = names_model(names@);
            assert(mine =~= own_keys(layout));
            let mut rest = layout_names(Layout::Object);
            names.append(&mut rest);
            assert(names_model(names@) =~= mine + layout_keys(Layout::Object));
            names
        },
        Layout::OrderedCollection => {
            proof {
                lemma_own_ordered_collection();
            }
            let mut names = vec!["totalItems", "current", "first", "last", "items", "orderedItems"];
            let ghost mine = names_model(names@);
            assert(mine =~= own_keys(layout));
            let mut rest = layout_names(Layout::Object);
            names.append(&mut rest);
            assert(names_model(names@) =~= mine + layout_keys(Layout::Object));
            names
        },
        Layout::CollectionPage => {
            proof {
                lemma_own_collection_page();
            }
            let mut names = vec!["partOf", "next", "prev"];
            let ghost mine = names_model(names@);
            assert(mine =~= own_keys(layout));
            let mut rest = layout_names(Layout::Collection);
            names.append(&mut rest);
            assert(names_model(names@) =~= mine + layout_keys(Layout::Collection));
            names
        },
        Layout::OrderedCollectionPage => {
            proof {
                lemma_own_ordered_collection_page();
            }
            let mut names = vec!["startIndex", "partOf", "next", "prev"];
            let ghost mine = names_model(names@);
            assert(mine =~= own_keys(layout));
            let mut rest = layout_names(Layout::OrderedCollection);
            names.append(&mut rest);
            assert(names_model(names@) =~= mine + layout_keys(Layout::OrderedCollection));
            names
        },
        Layout::Question => {
            proof {
                lemma_own_question();
            }
            let mut names = vec!["oneOf", "anyOf", "closed"];
            let ghost mine = names_model(names@);
            assert(mine =~= own_keys(layout));
            let mut rest = layout_names(Layout::Activity);
            names.append(&mut rest);
            assert(names_model(names@) =~= mine + layout_keys(Layout::Activity));
            names
        },
        Layout::Relationship => {
            proof {
                lemma_own_relationship();
            }
            let mut names = vec!["subject", "object", "relationship"];
            let ghost mine = names_model(names@);
            assert(mine =~= own_keys(layout));
            let mut rest = layout_names(Layout::Object);
            names.append(&mut rest);
            assert(names_model(names@) =~= mine + layout_keys(Layout::Object));
            names
        },
        Layout::Place => {
            proof {
                lemma_own_place();
            }
            let mut names = vec![
                "accuracy",
                "altitude",
                "latitude",
                "longitude",
                "radius",
                "units",
            ];
            let ghost mine = names_model(names@);
            assert(mine =~= own_keys(layout));
            let mut rest = layout_names(Layout::Object);
            names.append(&mut rest);
            assert(names_model(names@) =~= mine + layout_keys(Layout::Object));
            names
        },
        Layout::Profile => {
            proof {
                lemma_own_profile();
            }
            let mut names = vec!["describes"];
            let ghost mine = names_model(names@);
            assert(mine =~= own_keys(layout));
            let mut rest = layout_names(Layout::Object);
            names.append(&mut rest);
            assert(names_model(names@) =~= mine + layout_keys(Layout::Object));
            names
        },
        Layout::Tombstone => {
            proof {
                lemma_own_tombstone();
            }
            let mut names = vec!["formerType", "deleted"];
            let ghost mine = names_model(names@);
            assert(mine =~= own_keys(layout));
            let mut rest = layout_names(Layout::Object);
            names.append(&mut rest);
            assert(names_model(names@) =~= mine + layout_keys(Layout::Object));
            names
        },
    }
}

/// Whether the discriminator names an activity that adds no field of its own.
fn is_activity(tag: &str) -> (r: bool)
    ensures
        r == is_activity_tag(tag@),
{
    same(tag, "Accept")
        || same(tag, "TentativeAccept")
        || same(tag, "Add")
        || same(tag, "Arrive")
        || same(tag, "Create")
        || same(tag, "Delete")
        || same(tag, "Follow")
        || same(tag, "Ignore")
        || same(tag, "Join")
        || same(tag, "Leave")
        || same(tag, "Like")
        || same(tag, "Offer")
        || same(tag, "Invite")
        || same(tag, "Reject")
        || same(tag, "TentativeReject")
        || same(tag, "Remove")
        || same(tag, "Undo")
        || same(tag, "Update")
        || same(tag, "View")
        || same(tag, "Listen")
        || same(tag, "Read")
        || same(tag, "Move")
        || same(tag, "Travel")
        || same(tag, "Announce")
        || same(tag, "Block")
        || same(tag, "Flag")
        || same(tag, "Dislike")
}

/// The layout that a discriminator selects in a family.
pub fn layout_of_tag(family: Family, tag: &str) -> (r: Option<Layout>)
    ensures
        r == layout_of(family, tag@),
{
    match family {
        Family::Object => {
            if same(tag, "Object") {
                Some(Layout::Object)
            } else if same(tag, "Activity") {
                Some(Layout::Activity)
            } else if same(tag, "Collection") {
                Some(Layout::Collection)
            } else if same(tag, "OrderedCollection") {
                Some(Layout::OrderedCollection)
            } else if same(tag, "CollectionPage") {
                Some(Layout::CollectionPage)
            } else if same(tag, "OrderedCollectionPage") {
                Some(Layout::OrderedCollectionPage)
            } else if is_activity(tag) {
                Some(Layout::Activity)
            } else if same(tag, "Question") {
                Some(Layout::Question)
            } else if same(tag, "Application")
                || same(tag, "Group")
                || same(tag, "Organization")
                || same(tag, "Person")
                || same(tag, "Service") {
                Some(Layout::Object)
            } else if same(tag, "Relationship") {
                Some(Layout::Relationship)
            } else if same(tag, "Article")
                || same(tag, "Document")
                || same(tag, "Audio")
                || same(tag, "Image")
                || same(tag, "Video")
                || same(tag, "Note")
                || same(tag, "Page")
                || same(tag, "Event") {
                Some(Layout::Object)
            } else if same(tag, "Place") {
                Some(Layout::Place)
            } else if same(tag, "Mention") {
                Some(Layout::Link)
            } else if same(tag, "Profile") {
                Some(Layout::Profile)
            } else if same(tag, "Tombstone") {
                Some(Layout::Tombstone)
            } else {
                None
            }
        },
        Family::Link => {
            if same(tag, "Link") {
                Some(Layout::Link)
            } else {
                None
            }
        },
        Family::Image => {
            if same(tag, "Image") {
                Some(Layout::Object)
            } else {
                None
            }
        },
        Family::Collection => {
            if same(tag, "Collection") {
                Some(Layout::Collection)
            } else if same(tag, "OrderedCollection") {
                Some(Layout::OrderedCollection)
            } else if same(tag, "CollectionPage") {
                Some(Layout::CollectionPage)
            } else if same(tag, "OrderedCollectionPage") {
                Some(Layout::OrderedCollectionPage)
            } else {
                None
            }
        },
        Family::CollectionPage => {
            if same(tag, "CollectionPage") {
                Some(Layout::CollectionPage)
            } else if same(tag, "OrderedCollectionPage") {
                Some(Layout::OrderedCollectionPage)
            } else {
                None
            }
        },
    }
}

/// The first field of an object that a record of the layout does not know.
pub fn unknown_record_field(layout: Layout, j: &Json) -> (r: Option<String>)
    ensures
        match r {
            Some(key) => unknown_key(j@, layout_keys(layout)) == Some(key@),
            None => unknown_key(j@, layout_keys(layout)) is None,
        },
{
    let names = layout_names(layout);
    find_unknown(j, &names)
}

/// The first field of an object that the tagged record which the object
/// names does not know. The discriminator is known, and so is `@context`
/// where the record stands in an envelope. Where the object names no record
/// of the family, nothing is reported: decoding refuses such an object
/// anyway.
pub fn unknown_tagged_field(family: Family, j: &Json, enveloped: bool) -> (r: Option<String>)
    ensures
        match tagged_keys(family, j@, enveloped) {
            Some(known) => match r {
                Some(key) => unknown_key(j@, known) == Some(key@),
                None => unknown_key(j@, known) is None,
            },
            None => r is None,
        },
{
    match j.get("type") {
        Some(Json::Text(tag)) => match layout_of_tag(family, tag.as_str()) {
            Some(layout) => {
                let mut names = layout_names(layout);
                let ghost before = names_model(names@);
                names.push("type");
                assert(names_model(names@) =~= before.push(type_key()));
                if enveloped {
                    let ghost with_type = names_model(names@);
                    names.push("@context");
                    assert(names_model(names@) =~= with_type.push(context_key()));
                }
                find_unknown(j, &names)
            },
            None => None,
        },
        _ => None,
    }
}

} // verus!
