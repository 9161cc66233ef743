//! What holds of the pipeline that fetches alerts: what is read, and from where.

use crate::enrichment::pipeline;
use crate::utils::bson_doc;
use crate::utils::bson_doc::Content;
use crate::utils::stage_laws;
use crate::utils::stages;
use vstd::prelude::*;

verus! {

/// The expression for an element of a list.
pub open spec fn element_of(list: Content, index: i32) -> Content {
    Content::Object(
        bson_doc::one("$arrayElemAt"@, Content::Array(seq![list, Content::Int32(index)])),
    )
}

/// Alerts are selected by their identifiers, joined with the auxiliary document of their object
/// and with the LSST object that goes by its first alias, and cut down to what is read, in that
/// order; an alert without an auxiliary document is dropped.
pub proof fn law_alerts_are_fetched_with_their_object(include_classifications: bool, key: Seq<char>)
    ensures
        ({
            let p = pipeline::alert_pipeline(include_classifications);
            &&& p.len() == 5
            &&& p[0] == stages::match_ids_fields()
            &&& p[1] == stages::lookup_fields("ZTF_alerts_aux"@, "objectId"@, "_id"@, "aux"@)
            &&& bson_doc::object_field(p[2], "$unwind"@) matches Some(taken)
            &&& bson_doc::lookup(taken, key) == if key == "preserveNullAndEmptyArrays"@ {
                Some(Content::Bool(false))
            } else if key == "path"@ {
                Some(Content::Text("$aux"@))
            } else {
                None::<Content>
            }
            &&& p[3] == stages::lookup_fields(
                "LSST_alerts_aux"@,
                "aux.aliases.LSST.0"@,
                "_id"@,
                "lsst_aux"@,
            )
            &&& bson_doc::object_field(p[4], "$project"@) == Some(
                pipeline::projected_fields(include_classifications),
            )
        }),
{
    let d = bson_doc::no_fields();
    let v = Content::Text("$aux"@);
    bson_doc::law_reads_give_back_writes(d, "path"@, v, key);
    let d = bson_doc::with_field(d, "path"@, v);
    let v = Content::Bool(false);
    bson_doc::law_reads_give_back_writes(d, "preserveNullAndEmptyArrays"@, v, key);
    let taken = Content::Object(pipeline::unwind_aux_fields());
    stage_laws::law_one_field("$unwind"@, taken, "$unwind"@);
    let kept = Content::Object(pipeline::projected_fields(include_classifications));
    stage_laws::law_one_field("$project"@, kept, "$project"@);
}

/// The light curves of an alert.
pub open spec fn is_light_curve(name: Seq<char>) -> bool {
    name == "prv_candidates"@ || name == "prv_nondetections"@ || name == "fp_hists"@
}

proof fn lemma_names()
    ensures
        "$aux."@ + "prv_candidates"@ == "$aux.prv_candidates"@,
        "$aux."@ + "prv_nondetections"@ == "$aux.prv_nondetections"@,
        "$aux."@ + "fp_hists"@ == "$aux.fp_hists"@,
        "$lsst_aux."@ + "prv_candidates"@ == "$lsst_aux.prv_candidates"@,
        "$lsst_aux."@ + "fp_hists"@ == "$lsst_aux.fp_hists"@,
        "prv_candidates"@.len() == 14,
        "prv_nondetections"@.len() == 17,
        "fp_hists"@.len() == 8,
        "classifications"@.len() == 15,
        "survey_matches"@.len() == 14,
        "survey_matches"@[0] == 's',
        "prv_candidates"@[0] == 'p',
{
    reveal_strlit("$aux.");
    reveal_strlit("$lsst_aux.");
    reveal_strlit("prv_candidates");
    reveal_strlit("prv_nondetections");
    reveal_strlit("fp_hists");
    reveal_strlit("classifications");
    reveal_strlit("survey_matches");
    reveal_strlit("$aux.prv_candidates");
    reveal_strlit("$aux.prv_nondetections");
    reveal_strlit("$aux.fp_hists");
    reveal_strlit("$lsst_aux.prv_candidates");
    reveal_strlit("$lsst_aux.fp_hists");
    assert("$aux."@ + "prv_candidates"@ =~= "$aux.prv_candidates"@);
    assert("$aux."@ + "prv_nondetections"@ =~= "$aux.prv_nondetections"@);
    assert("$aux."@ + "fp_hists"@ =~= "$aux.fp_hists"@);
    assert("$lsst_aux."@ + "prv_candidates"@ =~= "$lsst_aux.prv_candidates"@);
    assert("$lsst_aux."@ + "fp_hists"@ =~= "$lsst_aux.fp_hists"@);
}

proof fn lemma_projection(key: Seq<char>)
    ensures
        bson_doc::lookup(pipeline::projection_fields(), key) == if key == "survey_matches"@ {
            Some(
                bson_doc::wrapped(
                    "lsst"@,
                    bson_doc::wrapped(
                        "$cond"@,
                        Content::Object(pipeline::lsst_condition_fields()),
                    ),
                ),
            )
        } else if key == "fp_hists"@ {
            Some(Content::Text("$aux.fp_hists"@))
        } else if key == "prv_nondetections"@ {
            Some(Content::Text("$aux.prv_nondetections"@))
        } else if key == "prv_candidates"@ {
            Some(Content::Text("$aux.prv_candidates"@))
        } else if key == "candidate"@ || key == "objectId"@ {
            Some(Content::Int32(1))
        } else {
            None::<Content>
        },
{
    let d = bson_doc::no_fields();
    let v = Content::Int32(1);
    bson_doc::law_reads_give_back_writes(d, "objectId"@, v, key);
    let d = bson_doc::with_field(d, "objectId"@, v);
    let v = Content::Int32(1);
    bson_doc::law_reads_give_back_writes(d, "candidate"@, v, key);
    let d = bson_doc::with_field(d, "candidate"@, v);
    let v = Content::Text("$aux.prv_candidates"@);
    bson_doc::law_reads_give_back_writes(d, "prv_candidates"@, v, key);
    let d = bson_doc::with_field(d, "prv_candidates"@, v);
    let v = Content::Text("$aux.prv_nondetections"@);
    bson_doc::law_reads_give_back_writes(d, "prv_nondetections"@, v, key);
    let d = bson_doc::with_field(d, "prv_nondetections"@, v);
    let v = Content::Text("$aux.fp_hists"@);
    bson_doc::law_reads_give_back_writes(d, "fp_hists"@, v, key);
    let d = bson_doc::with_field(d, "fp_hists"@, v);
    let v = bson_doc::wrapped(
        "lsst"@,
        bson_doc::wrapped("$cond"@, Content::Object(pipeline::lsst_condition_fields())),
    );
    bson_doc::law_reads_give_back_writes(d, "survey_matches"@, v, key);
}

/// Each light curve of an alert is read from the field of its own name in the auxiliary
/// document; the object and the candidate are those of the alert itself, the classifications
/// are read where they are asked for, and nothing else is read but the LSST object.
pub proof fn law_light_curves_are_fetched_by_name(include_classifications: bool, key: Seq<char>)
    ensures
        ({
            let found = bson_doc::lookup(pipeline::projected_fields(include_classifications), key);
            &&& is_light_curve(key) ==> found == Some(Content::Text("$aux."@ + key))
            &&& key == "classifications"@ ==> found == if include_classifications {
                Some(Content::Int32(1))
            } else {
                None::<Content>
            }
            &&& key == "survey_matches"@ ==> found == Some(
                bson_doc::wrapped(
                    "lsst"@,
                    bson_doc::wrapped(
                        "$cond"@,
                        Content::Object(pipeline::lsst_condition_fields()),
                    ),
                ),
            )
            &&& !is_light_curve(key) && key != "classifications"@ && key != "survey_matches"@
                ==> found == if key == "objectId"@ || key == "candidate"@ {
                Some(Content::Int32(1))
            } else {
                None::<Content>
            }
        }),
{
    lemma_names();
    lemma_projection(key);
    reveal_strlit("objectId");
    reveal_strlit("candidate");
    bson_doc::law_reads_give_back_writes(
        pipeline::projection_fields(),
        "classifications"@,
        Content::Int32(1),
        key,
    );
}

/// The LSST object is there where one was joined, and null where none was.
pub proof fn law_lsst_objects_may_be_missing(key: Seq<char>)
    ensures
        bson_doc::lookup(pipeline::lsst_condition_fields(), key) == if key == "else"@ {
            Some(Content::Null)
        } else if key == "then"@ {
            Some(Content::Object(pipeline::lsst_summary_fields()))
        } else if key == "if"@ {
            Some(
                bson_doc::wrapped(
                    "$gt"@,
                    Content::Array(
                        seq![
                            bson_doc::wrapped("$size"@, Content::Text("$lsst_aux"@)),
                            Content::Int32(0),
                        ],
                    ),
                ),
            )
        } else {
            None::<Content>
        },
{
    let d = bson_doc::no_fields();
    let v = bson_doc::wrapped(
        "$gt"@,
        Content::Array(
            seq![
                bson_doc::wrapped("$size"@, Content::Text("$lsst_aux"@)),
                Content::Int32(0),
            ],
        ),
    );
    bson_doc::law_reads_give_back_writes(d, "if"@, v, key);
    let d = bson_doc::with_field(d, "if"@, v);
    let v = Content::Object(pipeline::lsst_summary_fields());
    bson_doc::law_reads_give_back_writes(d, "then"@, v, key);
    let d = bson_doc::with_field(d, "then"@, v);
    let v = Content::Null;
    bson_doc::law_reads_give_back_writes(d, "else"@, v, key);
}

/// Of the LSST object the light curves are read from the fields of their own names, the object
/// by its identifier, and the position from the two coordinates in their order, of which the
/// right ascension was stored less 180 degrees.
pub proof fn law_lsst_objects_are_read_by_name(key: Seq<char>)
    ensures
        bson_doc::lookup(pipeline::lsst_summary_fields(), key) == if key == "dec"@ {
            Some(
                element_of(
                    element_of(
                        Content::Text("$lsst_aux.coordinates.radec_geojson.coordinates"@),
                        0,
                    ),
                    1,
                ),
            )
        } else if key == "ra"@ {
            Some(
                bson_doc::wrapped(
                    "$add"@,
                    Content::Array(
                        seq![
                            element_of(
                                element_of(
                                    Content::Text(
                                        "$lsst_aux.coordinates.radec_geojson.coordinates"@,
                                    ),
                                    0,
                                ),
                                0,
                            ),
                            Content::Int32(180),
                        ],
                    ),
                ),
            )
        } else if key == "fp_hists"@ || key == "prv_candidates"@ {
            Some(element_of(Content::Text("$lsst_aux."@ + key), 0))
        } else if key == "objectId"@ {
            Some(element_of(Content::Text("$lsst_aux._id"@), 0))
        } else {
            None::<Content>
        },
{
    lemma_names();
    let d = bson_doc::no_fields();
    let v = pipeline::element(Content::Text("$lsst_aux._id"@), 0);
    bson_doc::law_reads_give_back_writes(d, "objectId"@, v, key);
    let d = bson_doc::with_field(d, "objectId"@, v);
    let v = pipeline::element(Content::Text("$lsst_aux.prv_candidates"@), 0);
    bson_doc::law_reads_give_back_writes(d, "prv_candidates"@, v, key);
    let d = bson_doc::with_field(d, "prv_candidates"@, v);
    let v = pipeline::element(Content::Text("$lsst_aux.fp_hists"@), 0);
    bson_doc::law_reads_give_back_writes(d, "fp_hists"@, v, key);
    let d = bson_doc::with_field(d, "fp_hists"@, v);
    let v = bson_doc::wrapped(
        "$add"@,
        Content::Array(
            seq![
                pipeline::element(pipeline::element(
                    Content::Text("$lsst_aux.coordinates.radec_geojson.coordinates"@),
                    0,
                ), 0),
                Content::Int32(180),
            ],
        ),
    );
    bson_doc::law_reads_give_back_writes(d, "ra"@, v, key);
    let d = bson_doc::with_field(d, "ra"@, v);
    let v = pipeline::element(
        pipeline::element(
            Content::Text("$lsst_aux.coordinates.radec_geojson.coordinates"@),
            0,
        ),
        1,
    );
    bson_doc::law_reads_give_back_writes(d, "dec"@, v, key);
}

} // verus!
