//! The pipeline that fetches alerts with their auxiliary data.

use crate::utils::bson_doc;
use crate::utils::bson_doc::{
    boolean, int32, new_document, null, object, pair, single, text_value, with, wrap, Content,
};
use crate::utils::stages;
use crate::utils::stages::{lookup, match_ids};
use mongodb::bson::{Bson, Document};
use vstd::prelude::*;

verus! {

/// An element of a list in a joined document.
pub open spec fn element(list: Content, index: i32) -> Content {
    bson_doc::wrapped("$arrayElemAt"@, Content::Array(seq![list, Content::Int32(index)]))
}

/// An element of a list in a joined document.
fn element_at(list: Bson, index: i32) -> (r: Bson)
    ensures
        bson_doc::bson_value(r) == element(bson_doc::bson_value(list), index),
{
    wrap("$arrayElemAt", pair(list, int32(index)))
}

/// What is kept of the LSST object. Right ascension is stored shifted by 180 degrees.
pub open spec fn lsst_summary_fields() -> Seq<(Seq<char>, Content)> {
    let d = bson_doc::no_fields();
    let d = bson_doc::with_field(d, "objectId"@, element(Content::Text("$lsst_aux._id"@), 0));
    let d = bson_doc::with_field(
        d,
        "prv_candidates"@,
        element(Content::Text("$lsst_aux.prv_candidates"@), 0),
    );
    let d = bson_doc::with_field(d, "fp_hists"@, element(Content::Text("$lsst_aux.fp_hists"@), 0));
    let d = bson_doc::with_field(
        d,
        "ra"@,
        bson_doc::wrapped(
            "$add"@,
            Content::Array(
                seq![
                    element(
                        element(
                            Content::Text("$lsst_aux.coordinates.radec_geojson.coordinates"@),
                            0,
                        ),
                        0,
                    ),
                    Content::Int32(180),
                ],
            ),
        ),
    );
    bson_doc::with_field(
        d,
        "dec"@,
        element(element(Content::Text("$lsst_aux.coordinates.radec_geojson.coordinates"@), 0), 1),
    )
}

/// What is kept of the LSST object. Right ascension is stored shifted by 180 degrees.
fn lsst_summary() -> (r: Document)
    ensures
        bson_doc::document_fields(r) == lsst_summary_fields(),
{
    let d = new_document();
    let d = with(d, "objectId", element_at(text_value("$lsst_aux._id"), 0));
    let d = with(d, "prv_candidates", element_at(text_value("$lsst_aux.prv_candidates"), 0));
    let d = with(d, "fp_hists", element_at(text_value("$lsst_aux.fp_hists"), 0));
    let d = with(
        d,
        "ra",
        wrap(
            "$add",
            pair(
                element_at(
                    element_at(text_value("$lsst_aux.coordinates.radec_geojson.coordinates"), 0),
                    0,
                ),
                int32(180),
            ),
        ),
    );
    with(
        d,
        "dec",
        element_at(element_at(text_value("$lsst_aux.coordinates.radec_geojson.coordinates"), 0), 1),
    )
}

/// The LSST object where there is one, and null where there is none.
pub open spec fn lsst_condition_fields() -> Seq<(Seq<char>, Content)> {
    let d = bson_doc::no_fields();
    let d = bson_doc::with_field(
        d,
        "if"@,
        bson_doc::wrapped(
            "$gt"@,
            Content::Array(
                seq![bson_doc::wrapped("$size"@, Content::Text("$lsst_aux"@)), Content::Int32(0)],
            ),
        ),
    );
    let d = bson_doc::with_field(d, "then"@, Content::Object(lsst_summary_fields()));
    bson_doc::with_field(d, "else"@, Content::Null)
}

/// The LSST object where there is one, and null where there is none.
fn lsst_condition() -> (r: Document)
    ensures
        bson_doc::document_fields(r) == lsst_condition_fields(),
{
    let d = new_document();
    let d = with(d, "if", wrap("$gt", pair(wrap("$size", text_value("$lsst_aux")), int32(0))));
    let d = with(d, "then", object(lsst_summary()));
    with(d, "else", null())
}

/// How the auxiliary document is taken out of its list.
pub open spec fn unwind_aux_fields() -> Seq<(Seq<char>, Content)> {
    let d = bson_doc::no_fields();
    let d = bson_doc::with_field(d, "path"@, Content::Text("$aux"@));
    bson_doc::with_field(d, "preserveNullAndEmptyArrays"@, Content::Bool(false))
}

/// How the auxiliary document is taken out of its list.
fn unwind_aux() -> (r: Document)
    ensures
        bson_doc::document_fields(r) == unwind_aux_fields(),
{
    let d = new_document();
    let d = with(d, "path", text_value("$aux"));
    with(d, "preserveNullAndEmptyArrays", boolean(false))
}

/// What is fetched of an alert.
pub open spec fn projection_fields() -> Seq<(Seq<char>, Content)> {
    let d = bson_doc::no_fields();
    let d = bson_doc::with_field(d, "objectId"@, Content::Int32(1));
    let d = bson_doc::with_field(d, "candidate"@, Content::Int32(1));
    let d = bson_doc::with_field(d, "prv_candidates"@, Content::Text("$aux.prv_candidates"@));
    let d = bson_doc::with_field(d, "prv_nondetections"@, Content::Text("$aux.prv_nondetections"@));
    let d = bson_doc::with_field(d, "fp_hists"@, Content::Text("$aux.fp_hists"@));
    bson_doc::with_field(
        d,
        "survey_matches"@,
        bson_doc::wrapped(
            "lsst"@,
            bson_doc::wrapped("$cond"@, Content::Object(lsst_condition_fields())),
        ),
    )
}

/// What is fetched of an alert.
fn projection() -> (r: Document)
    ensures
        bson_doc::document_fields(r) == projection_fields(),
{
    let d = new_document();
    let d = with(d, "objectId", int32(1));
    let d = with(d, "candidate", int32(1));
    let d = with(d, "prv_candidates", text_value("$aux.prv_candidates"));
    let d = with(d, "prv_nondetections", text_value("$aux.prv_nondetections"));
    let d = with(d, "fp_hists", text_value("$aux.fp_hists"));
    with(d, "survey_matches", wrap("lsst", wrap("$cond", object(lsst_condition()))))
}

/// What is fetched of an alert, with its classifications where they are asked for.
pub open spec fn projected_fields(include_classifications: bool) -> Seq<(Seq<char>, Content)> {
    if include_classifications {
        bson_doc::with_field(projection_fields(), "classifications"@, Content::Int32(1))
    } else {
        projection_fields()
    }
}

/// The stages that fetch alerts: select them, join their auxiliary data and the LSST object
/// that goes by the alias of that data, and keep what is read.
pub open spec fn alert_pipeline(include_classifications: bool) -> Seq<Seq<(Seq<char>, Content)>> {
    seq![
        stages::match_ids_fields(),
        stages::lookup_fields("ZTF_alerts_aux"@, "objectId"@, "_id"@, "aux"@),
        bson_doc::one("$unwind"@, Content::Object(unwind_aux_fields())),
        stages::lookup_fields("LSST_alerts_aux"@, "aux.aliases.LSST.0"@, "_id"@, "lsst_aux"@),
        bson_doc::one("$project"@, Content::Object(projected_fields(include_classifications))),
    ]
}

/// The pipeline that fetches alerts with their auxiliary data.
pub fn create_ztf_alert_pipeline(include_classifications: bool) -> (r: Vec<Document>)
    ensures
        bson_doc::documents(r@) == alert_pipeline(include_classifications),
{
    let mut project = projection();
    if include_classifications {
        project = with(project, "classifications", int32(1));
    }
    let mut pipeline: Vec<Document> = Vec::new();
    pipeline.push(match_ids());
    pipeline.push(lookup("ZTF_alerts_aux", "objectId", "_id", "aux"));
    pipeline.push(single("$unwind", object(unwind_aux())));
    pipeline.push(lookup("LSST_alerts_aux", "aux.aliases.LSST.0", "_id", "lsst_aux"));
    pipeline.push(single("$project", object(project)));
    assert(bson_doc::documents(pipeline@) =~= alert_pipeline(include_classifications));
    pipeline
}

} // verus!
