//! The names that stand in documents: the keys of fields and the
//! discriminators of records.
//!
//! Two names with different signatures are different names, so the
//! signatures below tell every pair of names apart.

use vstd::prelude::*;

verus! {

/// A few facts about a name that tell it from the other names of the
/// vocabulary: its length, its first two characters and its last but one.
pub open spec fn signature(name: Seq<char>) -> (nat, char, char, char) {
    (name.len(), name[0], name[1], name[name.len() - 2])
}

/// The signature of every key.
pub proof fn lemma_key_signatures()
    ensures
        signature("attachment"@) == (10nat, 'a', 't', 'n'),
        signature("attributedTo"@) == (12nat, 'a', 't', 'T'),
        signature("audience"@) == (8nat, 'a', 'u', 'c'),
        signature("content"@) == (7nat, 'c', 'o', 'n'),
        signature("contentMap"@) == (10nat, 'c', 'o', 'a'),
        signature("context"@) == (7nat, 'c', 'o', 'x'),
        signature("name"@) == (4nat, 'n', 'a', 'm'),
        signature("nameMap"@) == (7nat, 'n', 'a', 'a'),
        signature("endTime"@) == (7nat, 'e', 'n', 'm'),
        signature("generator"@) == (9nat, 'g', 'e', 'o'),
        signature("icon"@) == (4nat, 'i', 'c', 'o'),
        signature("image"@) == (5nat, 'i', 'm', 'g'),
        signature("inReplyTo"@) == (9nat, 'i', 'n', 'T'),
        signature("location"@) == (8nat, 'l', 'o', 'o'),
        signature("preview"@) == (7nat, 'p', 'r', 'e'),
        signature("published"@) == (9nat, 'p', 'u', 'e'),
        signature("replies"@) == (7nat, 'r', 'e', 'e'),
        signature("startTime"@) == (9nat, 's', 't', 'm'),
        signature("summary"@) == (7nat, 's', 'u', 'r'),
        signature("summaryMap"@) == (10nat, 's', 'u', 'a'),
        signature("tag"@) == (3nat, 't', 'a', 'a'),
        signature("updated"@) == (7nat, 'u', 'p', 'e'),
        signature("url"@) == (3nat, 'u', 'r', 'r'),
        signature("to"@) == (2nat, 't', 'o', 't'),
        signature("bto"@) == (3nat, 'b', 't', 't'),
        signature("cc"@) == (2nat, 'c', 'c', 'c'),
        signature("bcc"@) == (3nat, 'b', 'c', 'c'),
        signature("mediaType"@) == (9nat, 'm', 'e', 'p'),
        signature("duration"@) == (8nat, 'd', 'u', 'o'),
        signature("href"@) == (4nat, 'h', 'r', 'e'),
        signature("rel"@) == (3nat, 'r', 'e', 'e'),
        signature("hreflang"@) == (8nat, 'h', 'r', 'n'),
        signature("height"@) == (6nat, 'h', 'e', 'h'),
        signature("width"@) == (5nat, 'w', 'i', 't'),
        signature("actor"@) == (5nat, 'a', 'c', 'o'),
        signature("object"@) == (6nat, 'o', 'b', 'c'),
        signature("target"@) == (6nat, 't', 'a', 'e'),
        signature("result"@) == (6nat, 'r', 'e', 'l'),
        signature("origin"@) == (6nat, 'o', 'r', 'i'),
        signature("instrument"@) == (10nat, 'i', 'n', 'n'),
        signature("totalItems"@) == (10nat, 't', 'o', 'm'),
        signature("current"@) == (7nat, 'c', 'u', 'n'),
        signature("first"@) == (5nat, 'f', 'i', 's'),
        signature("last"@) == (4nat, 'l', 'a', 's'),
        signature("items"@) == (5nat, 'i', 't', 'm'),
        signature("orderedItems"@) == (12nat, 'o', 'r', 'm'),
        signature("partOf"@) == (6nat, 'p', 'a', 'O'),
        signature("next"@) == (4nat, 'n', 'e', 'x'),
        signature("prev"@) == (4nat, 'p', 'r', 'e'),
        signature("startIndex"@) == (10nat, 's', 't', 'e'),
        signature("oneOf"@) == (5nat, 'o', 'n', 'O'),
        signature("anyOf"@) == (5nat, 'a', 'n', 'O'),
        signature("closed"@) == (6nat, 'c', 'l', 'e'),
        signature("subject"@) == (7nat, 's', 'u', 'c'),
        signature("relationship"@) == (12nat, 'r', 'e', 'i'),
        signature("accuracy"@) == (8nat, 'a', 'c', 'c'),
        signature("altitude"@) == (8nat, 'a', 'l', 'd'),
        signature("latitude"@) == (8nat, 'l', 'a', 'd'),
        signature("longitude"@) == (9nat, 'l', 'o', 'd'),
        signature("radius"@) == (6nat, 'r', 'a', 'u'),
        signature("units"@) == (5nat, 'u', 'n', 't'),
        signature("describes"@) == (9nat, 'd', 'e', 'e'),
        signature("formerType"@) == (10nat, 'f', 'o', 'p'),
        signature("deleted"@) == (7nat, 'd', 'e', 'e'),
        signature("type"@) == (4nat, 't', 'y', 'p'),
        signature("@context"@) == (8nat, '@', 'c', 'x'),
{
    reveal_strlit("attachment");
    reveal_strlit("attributedTo");
    reveal_strlit("audience");
    reveal_strlit("content");
    reveal_strlit("contentMap");
    reveal_strlit("context");
    reveal_strlit("name");
    reveal_strlit("nameMap");
    reveal_strlit("endTime");
    reveal_strlit("generator");
    reveal_strlit("icon");
    reveal_strlit("image");
    reveal_strlit("inReplyTo");
    reveal_strlit("location");
    reveal_strlit("preview");
    reveal_strlit("published");
    reveal_strlit("replies");
    reveal_strlit("startTime");
    reveal_strlit("summary");
    reveal_strlit("summaryMap");
    reveal_strlit("tag");
    reveal_strlit("updated");
    reveal_strlit("url");
    reveal_strlit("to");
    reveal_strlit("bto");
    reveal_strlit("cc");
    reveal_strlit("bcc");
    reveal_strlit("mediaType");
    reveal_strlit("duration");
    reveal_strlit("href");
    reveal_strlit("rel");
    reveal_strlit("hreflang");
    reveal_strlit("height");
    reveal_strlit("width");
    reveal_strlit("actor");
    reveal_strlit("object");
    reveal_strlit("target");
    reveal_strlit("result");
    reveal_strlit("origin");
    reveal_strlit("instrument");
    reveal_strlit("totalItems");
    reveal_strlit("current");
    reveal_strlit("first");
    reveal_strlit("last");
    reveal_strlit("items");
    reveal_strlit("orderedItems");
    reveal_strlit("partOf");
    reveal_strlit("next");
    reveal_strlit("prev");
    reveal_strlit("startIndex");
    reveal_strlit("oneOf");
    reveal_strlit("anyOf");
    reveal_strlit("closed");
    reveal_strlit("subject");
    reveal_strlit("relationship");
    reveal_strlit("accuracy");
    reveal_strlit("altitude");
    reveal_strlit("latitude");
    reveal_strlit("longitude");
    reveal_strlit("radius");
    reveal_strlit("units");
    reveal_strlit("describes");
    reveal_strlit("formerType");
    reveal_strlit("deleted");
    reveal_strlit("type");
    reveal_strlit("@context");
}

/// The signature of every discriminator.
pub proof fn lemma_tag_signatures()
    ensures
        signature("Link"@) == (4nat, 'L', 'i', 'n'),
        signature("Object"@) == (6nat, 'O', 'b', 'c'),
        signature("Activity"@) == (8nat, 'A', 'c', 't'),
        signature("Collection"@) == (10nat, 'C', 'o', 'o'),
        signature("OrderedCollection"@) == (17nat, 'O', 'r', 'o'),
        signature("CollectionPage"@) == (14nat, 'C', 'o', 'g'),
        signature("OrderedCollectionPage"@) == (21nat, 'O', 'r', 'g'),
        signature("Accept"@) == (6nat, 'A', 'c', 'p'),
        signature("TentativeAccept"@) == (15nat, 'T', 'e', 'p'),
        signature("Add"@) == (3nat, 'A', 'd', 'd'),
        signature("Arrive"@) == (6nat, 'A', 'r', 'v'),
        signature("Create"@) == (6nat, 'C', 'r', 't'),
        signature("Delete"@) == (6nat, 'D', 'e', 't'),
        signature("Follow"@) == (6nat, 'F', 'o', 'o'),
        signature("Ignore"@) == (6nat, 'I', 'g', 'r'),
        signature("Join"@) == (4nat, 'J', 'o', 'i'),
        signature("Leave"@) == (5nat, 'L', 'e', 'v'),
        signature("Like"@) == (4nat, 'L', 'i', 'k'),
        signature("Offer"@) == (5nat, 'O', 'f', 'e'),
        signature("Invite"@) == (6nat, 'I', 'n', 't'),
        signature("Reject"@) == (6nat, 'R', 'e', 'c'),
        signature("TentativeReject"@) == (15nat, 'T', 'e', 'c'),
        signature("Remove"@) == (6nat, 'R', 'e', 'v'),
        signature("Undo"@) == (4nat, 'U', 'n', 'd'),
        signature("Update"@) == (6nat, 'U', 'p', 't'),
        signature("View"@) == (4nat, 'V', 'i', 'e'),
        signature("Listen"@) == (6nat, 'L', 'i', 'e'),
        signature("Read"@) == (4nat, 'R', 'e', 'a'),
        signature("Move"@) == (4nat, 'M', 'o', 'v'),
        signature("Travel"@) == (6nat, 'T', 'r', 'e'),
        signature("Announce"@) == (8nat, 'A', 'n', 'c'),
        signature("Block"@) == (5nat, 'B', 'l', 'c'),
        signature("Flag"@) == (4nat, 'F', 'l', 'a'),
        signature("Dislike"@) == (7nat, 'D', 'i', 'k'),
        signature("Question"@) == (8nat, 'Q', 'u', 'o'),
        signature("Application"@) == (11nat, 'A', 'p', 'o'),
        signature("Group"@) == (5nat, 'G', 'r', 'u'),
        signature("Organization"@) == (12nat, 'O', 'r', 'o'),
        signature("Person"@) == (6nat, 'P', 'e', 'o'),
        signature("Service"@) == (7nat, 'S', 'e', 'c'),
        signature("Relationship"@) == (12nat, 'R', 'e', 'i'),
        signature("Article"@) == (7nat, 'A', 'r', 'l'),
        signature("Document"@) == (8nat, 'D', 'o', 'n'),
        signature("Audio"@) == (5nat, 'A', 'u', 'i'),
        signature("Image"@) == (5nat, 'I', 'm', 'g'),
        signature("Video"@) == (5nat, 'V', 'i', 'e'),
        signature("Note"@) == (4nat, 'N', 'o', 't'),
        signature("Page"@) == (4nat, 'P', 'a', 'g'),
        signature("Event"@) == (5nat, 'E', 'v', 'n'),
        signature("Place"@) == (5nat, 'P', 'l', 'c'),
        signature("Mention"@) == (7nat, 'M', 'e', 'o'),
        signature("Profile"@) == (7nat, 'P', 'r', 'l'),
        signature("Tombstone"@) == (9nat, 'T', 'o', 'n'),
{
    reveal_strlit("Link");
    reveal_strlit("Object");
    reveal_strlit("Activity");
    reveal_strlit("Collection");
    reveal_strlit("OrderedCollection");
    reveal_strlit("CollectionPage");
    reveal_strlit("OrderedCollectionPage");
    reveal_strlit("Accept");
    reveal_strlit("TentativeAccept");
    reveal_strlit("Add");
    reveal_strlit("Arrive");
    reveal_strlit("Create");
    reveal_strlit("Delete");
    reveal_strlit("Follow");
    reveal_strlit("Ignore");
    reveal_strlit("Join");
    reveal_strlit("Leave");
    reveal_strlit("Like");
    reveal_strlit("Offer");
    reveal_strlit("Invite");
    reveal_strlit("Reject");
    reveal_strlit("TentativeReject");
    reveal_strlit("Remove");
    reveal_strlit("Undo");
    reveal_strlit("Update");
    reveal_strlit("View");
    reveal_strlit("Listen");
    reveal_strlit("Read");
    reveal_strlit("Move");
    reveal_strlit("Travel");
    reveal_strlit("Announce");
    reveal_strlit("Block");
    reveal_strlit("Flag");
    reveal_strlit("Dislike");
    reveal_strlit("Question");
    reveal_strlit("Application");
    reveal_strlit("Group");
    reveal_strlit("Organization");
    reveal_strlit("Person");
    reveal_strlit("Service");
    reveal_strlit("Relationship");
    reveal_strlit("Article");
    reveal_strlit("Document");
    reveal_strlit("Audio");
    reveal_strlit("Image");
    reveal_strlit("Video");
    reveal_strlit("Note");
    reveal_strlit("Page");
    reveal_strlit("Event");
    reveal_strlit("Place");
    reveal_strlit("Mention");
    reveal_strlit("Profile");
    reveal_strlit("Tombstone");
}

} // verus!
