//! What holds of the stages of pipelines, field by field.

use crate::utils::bson_doc;
use crate::utils::bson_doc::Content;
use crate::utils::stages;
use crate::utils::survey;
use crate::utils::survey::{Permissions, Survey};
use vstd::prelude::*;

verus! {

/// A document with one field has that one and no other.
pub proof fn law_one_field(key: Seq<char>, value: Content, other: Seq<char>)
    ensures
        bson_doc::lookup(bson_doc::one(key, value), other) == if other == key {
            Some(value)
        } else {
            None::<Content>
        },
{
    bson_doc::law_reads_give_back_writes(bson_doc::no_fields(), key, value, other);
}

/// A join names the collection, the field of either side and the field that it fills.
pub proof fn law_joins_name_both_sides(
    from: Seq<char>,
    local: Seq<char>,
    foreign: Seq<char>,
    name: Seq<char>,
    key: Seq<char>,
)
    ensures
        ({
            let stage = stages::lookup_fields(from, local, foreign, name);
            &&& bson_doc::object_field(stage, "$lookup"@) matches Some(join)
            &&& bson_doc::lookup(join, key) == if key == "as"@ {
                Some(Content::Text(name))
            } else if key == "foreignField"@ {
                Some(Content::Text(foreign))
            } else if key == "localField"@ {
                Some(Content::Text(local))
            } else if key == "from"@ {
                Some(Content::Text(from))
            } else {
                None::<Content>
            }
            &&& key != "$lookup"@ ==> bson_doc::lookup(stage, key) is None
        }),
{
    let a = bson_doc::no_fields();
    bson_doc::law_reads_give_back_writes(a, "from"@, Content::Text(from), key);
    let b = bson_doc::with_field(a, "from"@, Content::Text(from));
    bson_doc::law_reads_give_back_writes(b, "localField"@, Content::Text(local), key);
    let c = bson_doc::with_field(b, "localField"@, Content::Text(local));
    bson_doc::law_reads_give_back_writes(c, "foreignField"@, Content::Text(foreign), key);
    let d = bson_doc::with_field(c, "foreignField"@, Content::Text(foreign));
    bson_doc::law_reads_give_back_writes(d, "as"@, Content::Text(name), key);
    let e = bson_doc::with_field(d, "as"@, Content::Text(name));
    law_one_field("$lookup"@, Content::Object(e), "$lookup"@);
    law_one_field("$lookup"@, Content::Object(e), key);
}

/// Alerts are selected by their identifiers, of which none is filled in yet.
pub proof fn law_alerts_are_selected_by_identifier()
    ensures
        ({
            let stage = stages::match_ids_fields();
            &&& bson_doc::object_field(stage, "$match"@) matches Some(m)
            &&& bson_doc::object_field(m, "_id"@) matches Some(id)
            &&& bson_doc::array_field(id, "$in"@) == Some(Seq::<Content>::empty())
        }),
{
    let ids = Content::Array(seq![]);
    law_one_field("$in"@, ids, "$in"@);
    law_one_field("_id"@, bson_doc::wrapped("$in"@, ids), "_id"@);
    law_one_field(
        "$match"@,
        bson_doc::wrapped("_id"@, bson_doc::wrapped("$in"@, ids)),
        "$match"@,
    );
}

/// What may be seen is told by the program of the named field, which is one of those listed:
/// the condition lists all of them, in their order, and no others.
pub proof fn law_programs_are_listed(name: Seq<char>, permissions: Seq<i32>)
    ensures
        bson_doc::array_field(stages::permitted_fields(name, permissions), "$in"@) matches Some(
            sides,
        ) && sides.len() == 2 && sides[0] == Content::Text(name) && (sides[1] matches Content::Array(
            listed,
        ) && listed.len() == permissions.len() && forall|i: int|
            0 <= i < listed.len() ==> #[trigger] listed[i] == Content::Int32(permissions[i])),
{
    law_one_field(
        "$in"@,
        Content::Array(
            seq![Content::Text(name), Content::Array(bson_doc::int_values(permissions))],
        ),
        "$in"@,
    );
}

/// Fields are added as they are given.
pub proof fn law_fields_are_added_as_given(fields: Seq<(Seq<char>, Content)>)
    ensures
        bson_doc::object_field(stages::add_fields_fields(fields), "$addFields"@) == Some(fields),
{
    law_one_field("$addFields"@, Content::Object(fields), "$addFields"@);
}

/// The programs of each survey are its own.
pub proof fn law_programs_are_those_of_the_survey(p: Permissions)
    ensures
        p.ztf is None <==> survey::programs(p, Survey::Ztf) is None,
        p.lsst is None <==> survey::programs(p, Survey::Lsst) is None,
        p.ztf matches Some(list) ==> survey::programs(p, Survey::Ztf) == Some(list@),
        p.lsst matches Some(list) ==> survey::programs(p, Survey::Lsst) == Some(list@),
{
}

} // verus!
