//! Stages of aggregation pipelines that several pipelines share.

use crate::utils::bson_doc;
use crate::utils::bson_doc::{
    empty_list, int_list, new_document, object, pair, single, text_value, with, wrap, Content,
};
use mongodb::bson::Document;
use vstd::prelude::*;

verus! {

/// The stage that selects alerts by their identifiers, which are filled in before it runs.
pub open spec fn match_ids_fields() -> Seq<(Seq<char>, Content)> {
    bson_doc::one(
        "$match"@,
        bson_doc::wrapped("_id"@, bson_doc::wrapped("$in"@, Content::Array(seq![]))),
    )
}

/// The stage that selects alerts by their identifiers, which are filled in before it runs.
pub fn match_ids() -> (r: Document)
    ensures
        bson_doc::document_fields(r) == match_ids_fields(),
{
    single("$match", wrap("_id", wrap("$in", empty_list())))
}

/// The stage that joins another collection on one field.
pub open spec fn lookup_fields(
    from: Seq<char>,
    local: Seq<char>,
    foreign: Seq<char>,
    name: Seq<char>,
) -> Seq<(Seq<char>, Content)> {
    let d = bson_doc::no_fields();
    let d = bson_doc::with_field(d, "from"@, Content::Text(from));
    let d = bson_doc::with_field(d, "localField"@, Content::Text(local));
    let d = bson_doc::with_field(d, "foreignField"@, Content::Text(foreign));
    let d = bson_doc::with_field(d, "as"@, Content::Text(name));
    bson_doc::one("$lookup"@, Content::Object(d))
}

/// The stage that joins another collection on one field.
pub fn lookup(from: &str, local: &str, foreign: &str, name: &str) -> (r: Document)
    ensures
        bson_doc::document_fields(r) == lookup_fields(from@, local@, foreign@, name@),
{
    let d = with(new_document(), "from", text_value(from));
    let d = with(d, "localField", text_value(local));
    let d = with(d, "foreignField", text_value(foreign));
    let d = with(d, "as", text_value(name));
    single("$lookup", object(d))
}

/// The stage that adds fields.
pub open spec fn add_fields_fields(fields: Seq<(Seq<char>, Content)>) -> Seq<(Seq<char>, Content)> {
    bson_doc::one("$addFields"@, Content::Object(fields))
}

/// The stage that adds fields.
pub fn add_fields(fields: Document) -> (r: Document)
    ensures
        bson_doc::document_fields(r) == add_fields_fields(bson_doc::document_fields(fields)),
{
    single("$addFields", object(fields))
}

/// The condition that the field `name` holds one of these program identifiers.
pub open spec fn permitted_fields(name: Seq<char>, permissions: Seq<i32>) -> Seq<
    (Seq<char>, Content),
> {
    bson_doc::one(
        "$in"@,
        Content::Array(
            seq![Content::Text(name), Content::Array(bson_doc::int_values(permissions))],
        ),
    )
}

/// The condition that the field `name` holds one of these program identifiers.
pub fn permitted(name: &str, permissions: &Vec<i32>) -> (r: Document)
    ensures
        bson_doc::document_fields(r) == permitted_fields(name@, permissions@),
{
    single("$in", pair(text_value(name), int_list(permissions)))
}

} // verus!
