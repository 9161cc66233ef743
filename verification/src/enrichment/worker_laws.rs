//! What holds of what the enrichment worker writes and hands over.

use crate::enrichment::alert::{AlertCutout, ZtfAlertClassifications, ZtfAlertForEnrichment};
use crate::enrichment::photometry::EnrichmentWorkerError;
use crate::enrichment::worker;
use crate::enrichment::worker::{AlertWork, Enriched};
use crate::utils::bson_doc;
use crate::utils::bson_doc::Content;
use crate::utils::double::Double;
use crate::utils::stage_laws;
use crate::utils::text;
use mongodb::bson::Document;
use vstd::prelude::*;

verus! {

/// An update is that of the alert with this identifier and of no other, and sets these fields.
pub proof fn law_updates_are_of_their_alert(
    candid: i64,
    fields: Seq<(Seq<char>, Content)>,
    key: Seq<char>,
)
    ensures
        bson_doc::lookup(worker::setting(candid, fields).filter, key) == if key == "_id"@ {
            Some(Content::Int64(candid))
        } else {
            None::<Content>
        },
        bson_doc::lookup(worker::setting(candid, fields).update, key) == if key == "$set"@ {
            Some(Content::Object(fields))
        } else {
            None::<Content>
        },
{
    stage_laws::law_one_field("_id"@, Content::Int64(candid), key);
    stage_laws::law_one_field("$set"@, Content::Object(fields), key);
}

/// An enriched alert is written with its properties, its classifications where it has any, and
/// the time of writing, each under its own name, and nothing else of it is touched.
pub proof fn law_enriched_alerts_are_written_by_name(e: Enriched, now: Double, key: Seq<char>)
    ensures
        bson_doc::lookup(worker::enriched_fields(e, now), key) == if key == "updated_at"@ {
            Some(Content::Double(now.bits))
        } else if key == "properties"@ {
            Some(Content::Object(bson_doc::document_fields(e.properties)))
        } else if key == "classifications"@ && e.classifications is Some {
            Some(Content::Object(bson_doc::document_fields(e.classifications->0)))
        } else {
            None::<Content>
        },
{
    let d = match e.classifications {
        Some(c) => {
            stage_laws::law_one_field(
                "classifications"@,
                Content::Object(bson_doc::document_fields(c)),
                key,
            );
            bson_doc::one("classifications"@, Content::Object(bson_doc::document_fields(c)))
        },
        None => bson_doc::no_fields(),
    };
    let v = Content::Object(bson_doc::document_fields(e.properties));
    bson_doc::law_reads_give_back_writes(d, "properties"@, v, key);
    let d = bson_doc::with_field(d, "properties"@, v);
    bson_doc::law_reads_give_back_writes(d, "updated_at"@, Content::Double(now.bits), key);
}

/// An alert is handed over as its program, a comma, and its identifier, in that order.
pub proof fn law_handovers_name_the_program_first(e: Enriched)
    ensures
        ({
            let h = worker::handover(e);
            let program = text::signed_decimal(e.programid as int);
            let n = program.len() as int;
            &&& n < h.len()
            &&& h.take(n) == program
            &&& h[n] == ','
            &&& h.skip(n + 1) == text::signed_decimal(e.candid as int)
        }),
{
    reveal_strlit(",");
    let h = worker::handover(e);
    let program = text::signed_decimal(e.programid as int);
    let n = program.len() as int;
    assert(h.take(n) =~= program);
    assert(h.skip(n + 1) =~= text::signed_decimal(e.candid as int));
}

/// Every alert that was evaluated is worked on, with what was made of it and its own cutouts,
/// and the others are passed over.
pub proof fn law_every_evaluated_alert_is_worked_on<P, B, L>(
    alerts: Seq<ZtfAlertForEnrichment>,
    cutouts: Map<i64, AlertCutout>,
    outcomes: Seq<Result<(P, B, i32, L), EnrichmentWorkerError>>,
    k: int,
    j: int,
)
    requires
        0 <= j < k,
        outcomes[j] is Ok,
    ensures
        worker::work_on(alerts, cutouts, outcomes, k).contains(
            (AlertWork {
                candid: alerts[j].candid,
                programid: outcomes[j]->Ok_0.2,
                properties: outcomes[j]->Ok_0.0,
                cutouts: cutouts[alerts[j].candid],
                alert: alerts[j],
            }),
        ),
        worker::curves_of(alerts, outcomes, k).contains(
            (alerts[j].candid, outcomes[j]->Ok_0.3),
        ),
    decreases k,
{
    let w = worker::work_on(alerts, cutouts, outcomes, k);
    let c = worker::curves_of(alerts, outcomes, k);
    let work = AlertWork {
        candid: alerts[j].candid,
        programid: outcomes[j]->Ok_0.2,
        properties: outcomes[j]->Ok_0.0,
        cutouts: cutouts[alerts[j].candid],
        alert: alerts[j],
    };
    let curve = (alerts[j].candid, outcomes[j]->Ok_0.3);
    if j == k - 1 {
        assert(w.last() == work && w[w.len() - 1] == work);
        assert(c.last() == curve && c[c.len() - 1] == curve);
    } else {
        law_every_evaluated_alert_is_worked_on::<P, B, L>(alerts, cutouts, outcomes, k - 1, j);
        let w0 = worker::work_on(alerts, cutouts, outcomes, k - 1);
        let c0 = worker::curves_of(alerts, outcomes, k - 1);
        let p = choose|p: int| 0 <= p < w0.len() && w0[p] == work;
        let q = choose|q: int| 0 <= q < c0.len() && c0[q] == curve;
        assert(w[p] == work);
        assert(c[q] == curve);
    }
}

/// An enriched alert keeps its own identifier and program, has the properties of its own work,
/// and has classifications exactly where it was scored.
pub proof fn law_enriched_alerts_are_of_their_work<
    P,
    F: Fn(&P) -> Document,
    C: Fn(ZtfAlertClassifications) -> Document,
>(
    e: Enriched,
    work: AlertWork<P>,
    scores: Option<ZtfAlertClassifications>,
    properties: F,
    classifications: C,
)
    requires
        worker::is_enriched(e, work, scores, properties, classifications),
    ensures
        e.candid == work.candid,
        e.programid == work.programid,
        properties.ensures((&work.properties,), e.properties),
        e.classifications is Some <==> scores is Some,
        scores matches Some(c) ==> classifications.ensures((c,), e.classifications->0),
{
}

/// Work is reached where every alert before it has cutouts of its own, and was evaluated or
/// has an empty light curve; no two alerts share cutouts.
pub proof fn law_work_needs_cutouts_of_its_own<P, B, L>(
    alerts: Seq<ZtfAlertForEnrichment>,
    cutouts: Map<i64, AlertCutout>,
    outcomes: Seq<Result<(P, B, i32, L), EnrichmentWorkerError>>,
    k: int,
    i: int,
    j: int,
)
    requires
        worker::is_reached(alerts, cutouts, outcomes, k),
        0 <= i < j < k,
    ensures
        cutouts.contains_key(alerts[i].candid) && cutouts.contains_key(alerts[j].candid),
        alerts[i].candid != alerts[j].candid,
        outcomes[i] matches Err(e) ==> e is EmptyLightcurve,
        outcomes[j] matches Err(e) ==> e is EmptyLightcurve,
{
    assert(worker::is_supplied(alerts, cutouts, i)) by {
        assert(alerts[i] == alerts[i]);
    }
    assert(worker::is_supplied(alerts, cutouts, j));
}

} // verus!
