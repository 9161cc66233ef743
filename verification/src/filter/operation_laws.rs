//! What the operations of filtering do, in terms of what they are given and what they return.

use crate::enrichment::alert::AlertCutout;
use crate::filter::alerts;
use crate::filter::alerts::{Alert, FilterResults, FilterWorkerError, ZtfAlertEnriched};
use crate::filter::pipeline;
use crate::filter::pipeline::{FieldUses, FilterError, LsstAux};
use crate::filter::pipeline_laws;
use crate::filter::worker;
use crate::filter::worker::LoadedFilter;
use crate::utils::bson_doc;
use crate::utils::bson_doc::Content;
use crate::utils::double::Double;
use crate::utils::survey;
use crate::utils::survey::{Permissions, Survey};
use mongodb::bson::{Bson, Document};
use std::collections::HashMap;
use vstd::prelude::*;

verus! {

/// Where a stage of a filter uses one of the three light curves, the pipeline adds it in front of
/// that stage, under its own name, and reads it from the field of that same name in the joined
/// auxiliary document: from `aux.` and the name. Two light curves that are used are read from
/// two places.
pub proof fn law_filters_get_each_light_curve_from_its_own_field<
    T: Fn(&str, &str, i32, Vec<Document>) -> Bson,
    E: Fn(&str) -> Bson,
>(
    filter_pipeline: Vec<serde_json::Value>,
    permissions: Vec<i32>,
    uses: FieldUses,
    lsst: LsstAux,
    max_separation: Double,
    timeseries: T,
    first: E,
    r: Vec<Document>,
    name: Seq<char>,
    other: Seq<char>,
    at: usize,
)
    requires
        call_ensures(
            pipeline::pipeline_for::<T, E>,
            (
                &filter_pipeline,
                Some(&permissions),
                uses,
                &lsst,
                max_separation,
                &timeseries,
                &first,
            ),
            Ok::<Vec<Document>, FilterError>(r),
        ),
        pipeline_laws::is_light_curve(name),
        pipeline_laws::is_light_curve(other),
        name != other,
        pipeline_laws::used_at(uses, name) == Some(at),
        at < filter_pipeline@.len(),
    ensures
        exists|k: int, j: int| #[trigger]
            pipeline_laws::is_joined(
                bson_doc::documents(r@),
                k,
                j,
                name,
                permissions@,
                timeseries,
            ) && Some(bson_doc::document_fields(r@[j])) == pipeline::json_document(
                filter_pipeline@[at as int],
            ),
        "aux."@ + name != "aux."@ + other,
{
    pipeline_laws::law_used_light_curves_are_there(
        Ok(r),
        filter_pipeline@,
        Some(permissions@),
        uses,
        lsst,
        max_separation,
        timeseries,
        first,
        name,
        at,
    );
    pipeline_laws::law_no_two_fields_are_read_from_one_place(name, other);
    let p = bson_doc::documents(r@);
    let (k, j) = choose|k: int, j: int| #[trigger]
        pipeline_laws::is_joined(p, k, j, name, permissions@, timeseries) && Some(p[j])
            == pipeline::json_document(filter_pipeline@[at as int]);
    assert(p[j] == bson_doc::document_fields(r@[j]));
    assert(pipeline_laws::is_joined(p, k, j, name, permissions@, timeseries));
}

/// A filter that is valid, but has no entry for ZTF among its permissions, is refused; and one
/// that is not valid is refused for that reason.
pub proof fn law_filters_need_permission_for_ztf<
    V: Fn(&Vec<serde_json::Value>) -> Result<(), FilterError>,
    U: Fn(&Vec<serde_json::Value>, &str) -> Option<usize>,
    L: Fn(Option<usize>, &Vec<serde_json::Value>) -> LsstAux,
    T: Fn(&str, &str, i32, Vec<Document>) -> Bson,
    E: Fn(&str) -> Bson,
>(
    filter_pipeline: Vec<serde_json::Value>,
    permissions: Permissions,
    max_separation: Double,
    validate: V,
    uses_field: U,
    lsst_aux: L,
    timeseries: T,
    first: E,
    r: Result<Vec<Document>, FilterError>,
)
    requires
        call_ensures(
            pipeline::build_ztf_filter_pipeline::<V, U, L, T, E>,
            (
                &filter_pipeline,
                &permissions,
                max_separation,
                &validate,
                &uses_field,
                &lsst_aux,
                &timeseries,
                &first,
            ),
            r,
        ),
        forall|verdict: Result<(), FilterError>| #[trigger]
            validate.ensures((&filter_pipeline,), verdict) ==> verdict is Ok,
    ensures
        permissions.ztf is None ==> (r matches Err(FilterError::InvalidFilterPipeline(why)) && why@
            == "No ZTF permissions found for the filter"@),
{
    let verdict = choose|verdict: Result<(), FilterError>| #[trigger]
        pipeline::is_verdict(verdict, filter_pipeline, validate) && match verdict {
            Err(e) => r == Err::<Vec<Document>, FilterError>(e),
            Ok(_) => exists|uses: FieldUses, lsst: LsstAux|
                pipeline::are_uses(uses, filter_pipeline, uses_field)
                    && #[trigger] pipeline::is_lsst_aux(lsst, uses, filter_pipeline, lsst_aux)
                    && pipeline::is_pipeline(
                    r,
                    filter_pipeline@,
                    survey::programs(permissions, Survey::Ztf),
                    uses,
                    lsst,
                    max_separation,
                    timeseries,
                    first,
                ),
        };
    assert(validate.ensures((&filter_pipeline,), verdict));
}

/// A document that passed a filter is reported for the alert that its identifier names, with
/// the filter's own identifier and name, the time, and its annotations; one without an
/// identifier is an error.
pub proof fn law_passed_documents_are_reported_for_their_alert(
    filter: LoadedFilter,
    doc: Document,
    passed_at: Double,
    r: Result<(i64, FilterResults), FilterWorkerError>,
)
    requires
        call_ensures(worker::filter_result, (&filter, &doc, passed_at), r),
    ensures
        r matches Ok((candid, result)) ==> {
            &&& bson_doc::lookup(bson_doc::document_fields(doc), "_id"@) == Some(
                Content::Int64(candid),
            )
            &&& result.filter_id@ == filter.id@
            &&& result.filter_name@ == filter.name@
            &&& result.passed_at == passed_at
            &&& bson_doc::object_field(
                bson_doc::document_fields(doc),
                "annotations"@,
            ) matches Some(a) ==> worker::json_text(a) == Some(result.annotations@)
        },
        !(bson_doc::lookup(bson_doc::document_fields(doc), "_id"@) matches Some(Content::Int64(_)))
            ==> r matches Err(FilterWorkerError::MissingCandid),
{
}

/// Alerts are published one for one and in their order, each with its own cutouts and the
/// results that were found for its own identifier; without results nothing is published.
pub proof fn law_alerts_are_published_one_for_one(
    results: HashMap<i64, Vec<FilterResults>>,
    alerts: Vec<ZtfAlertEnriched>,
    cutouts: HashMap<i64, AlertCutout>,
    out: Vec<Alert>,
    k: int,
)
    requires
        call_ensures(
            alerts::build_ztf_alerts,
            (&results, alerts, cutouts),
            Ok::<Vec<Alert>, FilterWorkerError>(out),
        ),
        0 <= k < alerts@.len(),
    ensures
        results@.len() == 0 ==> out@.len() == 0,
        results@.len() > 0 ==> {
            &&& out@.len() == alerts@.len()
            &&& out@[k].candid == alerts@[k].candid
            &&& out@[k].object_id@ == alerts@[k].object_id@
            &&& cutouts@.contains_key(alerts@[k].candid)
            &&& out@[k].cutout_science@ == cutouts@[alerts@[k].candid].cutout_science@
            &&& out@[k].cutout_template@ == cutouts@[alerts@[k].candid].cutout_template@
            &&& out@[k].cutout_difference@ == cutouts@[alerts@[k].candid].cutout_difference@
            &&& results@.contains_key(alerts@[k].candid) ==> out@[k].filters@
                == results@[alerts@[k].candid]@
            &&& out@[k].jd == alerts@[k].candidate.candidate.jd
            &&& out@[k].ra == alerts@[k].candidate.candidate.ra
            &&& out@[k].dec == alerts@[k].candidate.candidate.dec
        },
{
    if results@.len() > 0 {
        assert(alerts@[k].candid == out@[k]@.candid);
        assert(alerts::is_supplied(alerts@, cutouts@, k));
        assert(out@[k]@ == alerts::published(
            alerts@[k],
            alerts::results_for(results@, alerts@[k].candid),
            cutouts@[alerts@[k].candid],
        ));
    }
}

} // verus!
