//! What the operations of enrichment do, in terms of what they are given and what they return.

use crate::enrichment::alert::{Candidate, ZtfAlertClassifications, ZtfAlertForEnrichment};
use crate::enrichment::association;
use crate::enrichment::association::{Point, ZtfSsoAssociation};
use crate::enrichment::association_laws;
use crate::enrichment::classification_laws;
use crate::enrichment::classify;
use crate::enrichment::classify::{ModelScores, Outcome, Row};
use crate::enrichment::photometry::{EnrichmentWorkerError, PhotometryMag, ZtfPhotometry};
use crate::enrichment::photometry_laws;
use crate::enrichment::properties;
use crate::enrichment::property_laws;
use crate::enrichment::villar;
use crate::enrichment::villar::VillarFit;
use crate::enrichment::worker;
use crate::enrichment::worker::{AlertWork, Enriched, Update};
use crate::enrichment::worker_laws;
use crate::utils::bson_doc;
use crate::utils::bson_doc::Content;
use crate::utils::double;
use crate::utils::double::Double;
use crate::utils::sso_geometry;
use crate::utils::sso_geometry::{Geometry, OrbitalElements};
use mongodb::bson::Document;
use vstd::hash_map::*;
use vstd::prelude::*;

verus! {

/// Where a detection is scored, its point has the distance from the Sun, the distance from the
/// observer and the phase angle of the association, and the magnitude, uncertainty and band of
/// the candidate. Where a stored alert is made of that candidate and that association, reading
/// it back gives the very same point, at the time of the candidate.
pub proof fn law_detections_are_scored_as_they_are_read_back(
    sso: ZtfSsoAssociation,
    candidate: Candidate,
    histories: StringHashMap<Vec<(Double, Point)>>,
    max_separation: Double,
    scored: (Vec<(Double, Point)>, Point),
    doc: Document,
    name: Seq<char>,
    stored: Seq<(Seq<char>, Content)>,
    properties: Seq<(Seq<char>, Content)>,
    stored_sso: Seq<(Seq<char>, Content)>,
    read: Option<(String, Double, Point)>,
)
    requires
        call_ensures(
            association::scoring_for,
            (&sso, &candidate, &histories, max_separation),
            Some(scored),
        ),
        call_ensures(association::history_point, (&doc,), read),
        0 <= candidate.fid <= 255,
        bson_doc::lookup(bson_doc::document_fields(doc), "candidate"@) == Some(
            Content::Object(stored),
        ),
        bson_doc::lookup(bson_doc::document_fields(doc), "properties"@) == Some(
            Content::Object(properties),
        ),
        bson_doc::lookup(properties, "sso"@) == Some(Content::Object(stored_sso)),
        bson_doc::lookup(stored, "ssnamenr"@) == Some(Content::Text(name)),
        bson_doc::lookup(stored, "jd"@) == Some(Content::Double(candidate.jd.bits)),
        bson_doc::lookup(stored, "magpsf"@) == Some(Content::Double(candidate.magpsf.bits)),
        bson_doc::lookup(stored, "sigmapsf"@) == Some(Content::Double(candidate.sigmapsf.bits)),
        bson_doc::lookup(stored, "fid"@) == Some(Content::Int32(candidate.fid)),
        sso.helio_dist matches Some(d) ==> bson_doc::lookup(stored_sso, "helio_dist"@) == Some(
            Content::Double(d.bits),
        ),
        sso.topo_dist matches Some(d) ==> bson_doc::lookup(stored_sso, "topo_dist"@) == Some(
            Content::Double(d.bits),
        ),
        sso.phase_angle matches Some(d) ==> bson_doc::lookup(stored_sso, "phase_angle"@) == Some(
            Content::Double(d.bits),
        ),
    ensures
        sso.helio_dist == Some(scored.1.rh),
        sso.topo_dist == Some(scored.1.delta),
        sso.phase_angle == Some(scored.1.phase),
        scored.1.mag == candidate.magpsf,
        scored.1.mag_err == candidate.sigmapsf,
        scored.1.band == candidate.fid,
        read matches Some((n, jd, point)) && n@ == name && jd == candidate.jd && point == scored.1,
{
    association_laws::law_detections_are_scored_at_their_geometry(
        sso,
        candidate,
        histories@,
        max_separation,
    );
    association_laws::law_live_and_stored_points_agree(
        sso,
        candidate,
        name,
        bson_doc::document_fields(doc),
        stored,
        properties,
        stored_sso,
        histories@,
        max_separation,
    );
}

/// The absolute value of a number, by its bits.
pub open spec fn absolute(d: Double) -> Double {
    Double { bits: d.bits % 0x8000_0000_0000_0000 }
}

/// A complete point is kept exactly where its signal, taken without its sign, is not below the
/// threshold. So a signal of at least a threshold above zero is kept, a point and the same point
/// with the opposite signal are both kept or both dropped, and of two points the one with the
/// stronger signal is kept where the other is.
pub proof fn law_points_are_kept_by_the_strength_of_their_signal(
    p: ZtfPhotometry,
    q: ZtfPhotometry,
    t: Double,
    r: Option<PhotometryMag>,
    s: Option<PhotometryMag>,
)
    requires
        call_ensures(ZtfPhotometry::to_photometry_mag, (&p, Some(t)), r),
        call_ensures(ZtfPhotometry::to_photometry_mag, (&q, Some(t)), s),
        p.snr_psf is Some && p.magpsf is Some && p.sigmapsf is Some,
        q.snr_psf is Some && q.magpsf is Some && q.sigmapsf is Some,
    ensures
        r is Some <==> !double::lt(absolute(p.snr_psf->0), t),
        double::lt(double::of_integer(0), t) && double::le(t, p.snr_psf->0) ==> r is Some,
        absolute(p.snr_psf->0) == absolute(q.snr_psf->0) ==> (r is Some <==> s is Some),
        double::le(absolute(p.snr_psf->0), absolute(q.snr_psf->0)) && r is Some ==> s is Some,
        r matches Some(m) ==> m.time == p.jd && m.band@ == p.band@,
{
    photometry_laws::law_points_are_kept_by_their_strength(p, t);
    photometry_laws::law_points_are_kept_by_their_strength(q, t);
    if r is Some {
        photometry_laws::law_kept_points_are_the_measured_ones(p, Some(t));
        if double::le(absolute(p.snr_psf->0), absolute(q.snr_psf->0)) {
            photometry_laws::law_stronger_points_are_kept(p, q, Some(t));
        }
    }
}

/// The flag holds where any one of the three neighbours is a bright star: the nearest, the
/// second or the third. To exchange the second with the nearest leaves it as it is, where
/// neither has the score that only the nearest is asked for.
pub proof fn law_any_of_three_neighbours_may_be_the_bright_one(c: Candidate, r: bool, e: bool)
    requires
        call_ensures(properties::is_near_brightstar, (&c,), r),
        call_ensures(
            properties::is_near_brightstar,
            (&(Candidate {
                sgscore1: c.sgscore2,
                distpsnr1: c.distpsnr2,
                srmag1: c.srmag2,
                sgscore2: c.sgscore1,
                distpsnr2: c.distpsnr1,
                srmag2: c.srmag1,
                ..c
            }),),
            e,
        ),
    ensures
        property_laws::is_bright(c.sgscore1, c.distpsnr1, c.srmag1) ==> r && e,
        property_laws::is_bright(c.sgscore2, c.distpsnr2, c.srmag2) ==> r && e,
        property_laws::is_bright(c.sgscore3, c.distpsnr3, c.srmag3) ==> r && e,
        !property_laws::is_even(c) && !(c.sgscore2 matches Some(s) && double::eq(
            s,
            property_laws::score_05(),
        )) ==> r == e,
{
    let x = Candidate {
        sgscore1: c.sgscore2,
        distpsnr1: c.distpsnr2,
        srmag1: c.srmag2,
        sgscore2: c.sgscore1,
        distpsnr2: c.distpsnr1,
        srmag2: c.srmag1,
        ..c
    };
    property_laws::law_any_bright_neighbour_is_near(c);
    property_laws::law_any_bright_neighbour_is_near(x);
    property_laws::law_neighbours_may_be_exchanged(c);
}

/// What is published of an alert are the alert and its own properties, in the order of the
/// work.
pub proof fn law_alerts_are_published_with_their_properties<P>(
    work: Vec<AlertWork<P>>,
    r: Vec<(ZtfAlertForEnrichment, P)>,
    i: int,
)
    requires
        call_ensures(worker::to_publish::<P>, (work,), r),
        0 <= i < work@.len(),
    ensures
        r@.len() == work@.len(),
        r@[i].0 == work@[i].alert,
        r@[i].1 == work@[i].properties,
{
}

/// Every enriched alert is written under its own identifier, with its own properties, and is
/// handed over by its own program and identifier, in the same order.
pub proof fn law_enriched_alerts_are_written_and_handed_over(
    items: Vec<Enriched>,
    now: Double,
    r: (Vec<Update>, Vec<String>),
    i: int,
)
    requires
        call_ensures(worker::enrichment_results, (&items, now), r),
        0 <= i < items@.len(),
    ensures
        r.0@.len() == items@.len() && r.1@.len() == items@.len(),
        bson_doc::lookup(bson_doc::document_fields(r.0@[i].filter), "_id"@) == Some(
            Content::Int64(items@[i].candid),
        ),
        bson_doc::object_field(bson_doc::document_fields(r.0@[i].update), "$set"@) matches Some(set)
            && bson_doc::lookup(set, "properties"@) == Some(
            Content::Object(bson_doc::document_fields(items@[i].properties)),
        ) && bson_doc::lookup(set, "updated_at"@) == Some(Content::Double(now.bits)),
        r.1@[i]@ == worker::handover(items@[i]),
{
    reveal_strlit("properties");
    reveal_strlit("updated_at");
    assert("properties"@[0] == 'p' && "updated_at"@[0] == 'u');
    let e = items@[i];
    let set = worker::enriched_fields(e, now);
    assert(r.0@[i]@ == worker::setting(e.candid, set));
    worker_laws::law_updates_are_of_their_alert(e.candid, set, "_id"@);
    worker_laws::law_updates_are_of_their_alert(e.candid, set, "$set"@);
    worker_laws::law_enriched_alerts_are_written_by_name(e, now, "properties"@);
    worker_laws::law_enriched_alerts_are_written_by_name(e, now, "updated_at"@);
}

/// An alert of a known orbit gets the geometry of that orbit at the time of the alert, the
/// distance from the Sun, the distance from the observer and the two angles each in its place
/// and in single precision, and the time of perihelion of the orbit; without an orbit nothing
/// changes. What was identified stays.
pub proof fn law_geometry_is_that_of_the_orbit<G: Fn(OrbitalElements, Double) -> Geometry>(
    a: ZtfSsoAssociation,
    e: OrbitalElements,
    jd: Double,
    geometry_at: G,
    with: ZtfSsoAssociation,
    without: ZtfSsoAssociation,
)
    requires
        call_ensures(
            ZtfSsoAssociation::with_geometry::<G>,
            (a, Some(&e), jd, &geometry_at),
            with,
        ),
        call_ensures(
            ZtfSsoAssociation::with_geometry::<G>,
            (a, None::<&OrbitalElements>, jd, &geometry_at),
            without,
        ),
    ensures
        without == a,
        exists|g: Geometry|
            {
                &&& #[trigger] geometry_at.ensures((e, jd), g)
                &&& with.helio_dist == Some(double::narrowed(g.helio_dist))
                &&& with.topo_dist == Some(double::narrowed(g.topo_dist))
                &&& with.phase_angle == Some(double::narrowed(g.phase_angle))
                &&& with.true_anomaly == Some(double::narrowed(g.true_anomaly))
            },
        with.perihelion_time == Some(e.tp),
        with.is_sso == a.is_sso && with.designation == a.designation && with.source == a.source,
        with.separation_arcsec == a.separation_arcsec && with.predicted_mag == a.predicted_mag,
{
    let g = choose|g: Geometry|
        geometry_at.ensures((e, jd), g) && with == association::with_geometry_of(
            a,
            #[trigger] sso_geometry::timed(g, e),
        );
    assert(geometry_at.ensures((e, jd), g));
}

/// A history is asked for from thirty days before the first alert of the batch on, for the
/// objects that the batch names; a batch that names none asks for nothing.
pub proof fn law_histories_are_asked_for_thirty_days_back<M: Fn(Double, Double) -> Double>(
    alerts: Vec<ZtfAlertForEnrichment>,
    max_separation: Double,
    minus: M,
    r: Option<Document>,
)
    requires
        call_ensures(association::history_query::<M>, (&alerts, max_separation, &minus), r),
    ensures
        r is None <==> association::names_in(alerts@).len() == 0,
        r matches Some(filter) ==> exists|from: Double|
            {
                &&& #[trigger] minus.ensures(
                    (association::earliest(alerts@), double::of_integer(30)),
                    from,
                )
                &&& bson_doc::lookup(bson_doc::document_fields(filter), "candidate.jd"@) == Some(
                    bson_doc::wrapped("$gte"@, Content::Double(from.bits)),
                )
            },
{
    association_laws::law_the_window_is_thirty_days();
    if r is Some {
        let fields = bson_doc::document_fields(r->0);
        let from = choose|from: Double|
            minus.ensures(
                (association::earliest(alerts@), association::history_window_days()),
                from,
            ) && fields == #[trigger] association::history_filter_fields(
                association::names_in(alerts@),
                from,
                max_separation,
            );
        reveal_strlit("candidate.jd");
        reveal_strlit("candidate.ssdistnr");
        assert("candidate.jd"@.len() == 12 && "candidate.ssdistnr"@.len() == 18);
        association_laws::law_history_queries_ask_by_name(
            association::names_in(alerts@),
            from,
            max_separation,
            "candidate.jd"@,
        );
        assert(minus.ensures((association::earliest(alerts@), double::of_integer(30)), from));
    }
}

/// Alerts that cannot be fitted come first, each with the placeholder; behind them each fitted
/// alert has its own fit, or the placeholder where nothing was fitted.
pub proof fn law_fits_go_to_their_alerts(
    unfittable: Vec<i64>,
    fittable: Vec<i64>,
    fits: Vec<VillarFit>,
    placeholder: VillarFit,
    fitted: Vec<Update>,
    failed: Vec<Update>,
    i: int,
)
    requires
        call_ensures(
            villar::villar_updates,
            (&unfittable, &fittable, Some(&fits), &placeholder),
            fitted,
        ),
        call_ensures(
            villar::villar_updates,
            (&unfittable, &fittable, None::<&Vec<VillarFit>>, &placeholder),
            failed,
        ),
        fits@.len() == fittable@.len(),
    ensures
        fitted@.len() == unfittable@.len() + fittable@.len(),
        failed@.len() == unfittable@.len() + fittable@.len(),
        0 <= i < unfittable@.len() ==> {
            &&& fitted@[i]@ == worker::setting(unfittable@[i], villar::fit_fields(placeholder))
            &&& failed@[i]@ == worker::setting(unfittable@[i], villar::fit_fields(placeholder))
        },
        0 <= i < fittable@.len() ==> {
            &&& fitted@[unfittable@.len() + i]@ == worker::setting(
                fittable@[i],
                villar::fit_fields(fits@[i]),
            )
            &&& failed@[unfittable@.len() + i]@ == worker::setting(
                fittable@[i],
                villar::fit_fields(placeholder),
            )
        },
{
    if 0 <= i < fittable@.len() {
        let k = unfittable@.len() + i;
        assert(villar::is_fit_update(fitted@[k]@, fittable@[i], Some(fits@[i]), placeholder));
        assert(villar::is_fit_update(failed@[k]@, fittable@[i], None, placeholder));
    }
}

/// An alert has scores only where it has cutouts and the features of both families of models,
/// and there are as many answers as alerts.
pub proof fn law_only_alerts_with_all_inputs_are_scored<
    F: Fn(&Vec<Row>) -> Result<ModelScores, EnrichmentWorkerError>,
>(
    n: usize,
    triplet_indices: Vec<usize>,
    acai_indices: Vec<usize>,
    bts_indices: Vec<usize>,
    batch_size: usize,
    predict: F,
    out: Vec<Option<ZtfAlertClassifications>>,
    item: usize,
)
    requires
        call_ensures(
            classify::classify_gpu_batch::<F>,
            (n, &triplet_indices, &acai_indices, &bts_indices, batch_size, &predict),
            Ok::<Vec<Option<ZtfAlertClassifications>>, EnrichmentWorkerError>(out),
        ),
        item < n,
    ensures
        out@.len() == n,
        out@[item as int] is Some <==> triplet_indices@.contains(item) && acai_indices@.contains(
            item,
        ) && bts_indices@.contains(item),
{
    let triplet = classify::positions(triplet_indices@);
    let acai = classify::positions(acai_indices@);
    let btsbot = classify::positions(bts_indices@);
    assert(triplet_indices.len() == triplet_indices@.len());
    assert(acai_indices.len() == acai_indices@.len());
    assert(bts_indices.len() == bts_indices@.len());
    classify::law_positions_lead_to_their_index(triplet_indices@, item);
    classify::law_positions_lead_to_their_index(acai_indices@, item);
    classify::law_positions_lead_to_their_index(bts_indices@, item);
    let selected = classify::rows(n as int, triplet, acai, btsbot);
    let batches = choose|batches: Seq<ModelScores>| #[trigger]
        classify::are_predictions(batches, selected, batch_size, predict) && batches.len()
            * batch_size >= selected.len() && out@ == classify::scored(
            n as nat,
            selected,
            batches,
            batch_size as int,
            selected.len() as int,
        );
    classify::law_each_alert_gets_its_own_scores(
        n as nat,
        triplet,
        acai,
        btsbot,
        batches,
        batch_size as int,
        selected.len() as int,
        item as int,
    );
    classification_laws::law_alerts_with_all_inputs_have_a_row(
        n as int,
        triplet,
        acai,
        btsbot,
        item,
    );
    let row = Row { item, triplet: triplet[item], acai: acai[item], btsbot: btsbot[item] };
    if selected.contains(row) {
        let p = choose|p: int| 0 <= p < selected.len() && selected[p] == row;
        assert(selected[p].item == item);
    }
    if exists|p: int| 0 <= p < selected.len() && (#[trigger] selected[p]).item == item {
        let p = choose|p: int| 0 <= p < selected.len() && (#[trigger] selected[p]).item == item;
        classification_laws::lemma_rows(n as int, triplet, acai, btsbot);
        assert(selected[p] == row);
    }
}

/// Alerts that are scored one by one keep their order, each with what came of it; the first
/// failure of a model is the failure of all.
pub proof fn law_the_first_failure_stops_scoring(
    outcomes: Vec<Outcome>,
    r: Result<Vec<Option<ZtfAlertClassifications>>, EnrichmentWorkerError>,
    i: int,
)
    requires
        call_ensures(classify::classify_per_item, (&outcomes,), r),
        0 <= i < outcomes@.len(),
    ensures
        r matches Ok(out) ==> {
            &&& out@.len() == outcomes@.len()
            &&& !(outcomes@[i] is Failed)
            &&& out@[i] is Some <==> outcomes@[i] is Scores
        },
        outcomes@[i] is Failed && (forall|k: int|
            0 <= k < i ==> !((#[trigger] outcomes@[k]) is Failed)) ==> r == Err::<
            Vec<Option<ZtfAlertClassifications>>,
            EnrichmentWorkerError,
        >(EnrichmentWorkerError::Service(outcomes@[i]->Failed_0)),
{
    if r is Ok {
        assert(!(outcomes@[i] is Failed));
    }
    if outcomes@[i] is Failed && (forall|k: int|
        0 <= k < i ==> !((#[trigger] outcomes@[k]) is Failed)) {
        assert(r is Err);
        let j = choose|j: int|
            0 <= j < outcomes@.len() && classify::none_failed(outcomes@, j)
                && match #[trigger] outcomes@[j] {
                Outcome::Failed(why) => r->Err_0 == EnrichmentWorkerError::Service(why),
                _ => false,
            };
        assert(j == i) by {
            if j < i {
                assert(!(outcomes@[j] is Failed));
            }
            if i < j {
                assert(!(outcomes@[i] is Failed));
            }
        }
    }
}

} // verus!
