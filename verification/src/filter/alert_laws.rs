//! What holds of published alerts: what they carry, and from where.

use crate::enrichment::alert;
use crate::enrichment::alert::{
    AlertCutout, Candidate, LsstMatch, LsstPhotometry, ZtfAlertClassifications,
};
use crate::enrichment::photometry::ZtfPhotometry;
use crate::filter::alerts;
use crate::filter::alerts::{
    Alert, Classification, FilterResults, Origin, Photometry, PointView, ScoreView, Source,
    SurveyMatch, ZtfAlertEnriched,
};
use crate::utils::double;
use crate::utils::double::Double;
use crate::utils::sorting;
use crate::utils::survey::Survey;
use vstd::prelude::*;

verus! {

/// What contracts say of a published point, score, match or alert, they say of its own fields.
pub proof fn law_what_is_said_is_said_of_the_fields(
    p: Photometry,
    c: Classification,
    m: SurveyMatch,
    a: Alert,
)
    ensures
        p@.jd == p.jd && p@.flux == p.flux && p@.flux_err == p.flux_err && p@.band == p.band@,
        p@.origin == p.origin && p@.programid == p.programid && p@.survey == p.survey,
        p@.ra == p.ra && p@.dec == p.dec,
        c@.classifier == c.classifier@ && c@.score == c.score,
        c@.distance_arcsec == c.distance_arcsec,
        m@.object_id == m.object_id@ && m@.ra == m.ra && m@.dec == m.dec,
        m@.photometry.len() == m.photometry@.len(),
        forall|i: int|
            0 <= i < m.photometry@.len() ==> (#[trigger] m@.photometry[i]) == m.photometry@[i]@,
        a@.candid == a.candid && a@.object_id == a.object_id@ && a@.jd == a.jd,
        a@.ra == a.ra && a@.dec == a.dec && a@.filters == a.filters@ && a@.survey == a.survey,
        a@.cutout_science == a.cutout_science@ && a@.cutout_template == a.cutout_template@,
        a@.cutout_difference == a.cutout_difference@,
        a@.classifications.len() == a.classifications@.len(),
        forall|i: int|
            0 <= i < a.classifications@.len() ==> (#[trigger] a@.classifications[i])
                == a.classifications@[i]@,
        a@.photometry.len() == a.photometry@.len(),
        forall|i: int|
            0 <= i < a.photometry@.len() ==> (#[trigger] a@.photometry[i]) == a.photometry@[i]@,
        a@.ztf_match is Some <==> a.survey_matches.ztf is Some,
        a@.lsst_match is Some <==> a.survey_matches.lsst is Some,
        a.survey_matches.ztf matches Some(x) ==> a@.ztf_match == Some(x@),
        a.survey_matches.lsst matches Some(x) ==> a@.lsst_match == Some(x@),
{
}

/// An alert is published as itself: with its own identifier, object, time and position, the
/// filters that it passed, and each of its own cutouts in its place.
pub proof fn law_alerts_are_published_as_themselves(
    a: ZtfAlertEnriched,
    filters: Seq<FilterResults>,
    cutouts: AlertCutout,
)
    ensures
        ({
            let r = alerts::published(a, filters, cutouts);
            let c = a.candidate.candidate;
            &&& r.candid == a.candid && r.object_id == a.object_id@
            &&& r.jd == c.jd && r.ra == c.ra && r.dec == c.dec
            &&& r.filters == filters
            &&& r.cutout_science == cutouts.cutout_science@
            &&& r.cutout_template == cutouts.cutout_template@
            &&& r.cutout_difference == cutouts.cutout_difference@
            &&& r.survey == Survey::Ztf
            &&& r.ztf_match is None
        }),
{
}

/// The filters that an alert passed are those that were found for its identifier.
pub proof fn law_alerts_have_their_own_filters(
    results: Map<i64, Vec<FilterResults>>,
    candid: i64,
)
    ensures
        results.contains_key(candid) ==> alerts::results_for(results, candid) == results[candid]@,
        !results.contains_key(candid) ==> alerts::results_for(results, candid).len() == 0,
{
}

/// `p` is the point that a detection of ZTF becomes.
pub open spec fn is_detection(p: PointView, z: ZtfPhotometry) -> bool {
    &&& p.jd == z.jd && p.flux == z.flux && p.flux_err == z.flux_err
    &&& p.band == "ztf"@ + z.band@
    &&& p.programid == z.programid && p.survey == Survey::Ztf && p.origin == Origin::Alert
    &&& p.ra == z.ra && p.dec == z.dec
}

/// `p` is the point that a limit of ZTF becomes: it has neither a flux nor a position.
pub open spec fn is_limit(p: PointView, z: ZtfPhotometry) -> bool {
    &&& p.jd == z.jd && p.flux is None && p.flux_err == z.flux_err
    &&& p.band == "ztf"@ + z.band@
    &&& p.programid == z.programid && p.survey == Survey::Ztf && p.origin == Origin::Alert
    &&& p.ra is None && p.dec is None
}

/// `p` is the point that forced photometry of ZTF becomes: it has a flux and no position.
pub open spec fn is_forced(p: PointView, z: ZtfPhotometry) -> bool {
    &&& p.jd == z.jd && p.flux == z.flux && p.flux_err == z.flux_err
    &&& p.band == "ztf"@ + z.band@
    &&& p.programid == z.programid && p.survey == Survey::Ztf && p.origin == Origin::ForcedPhot
    &&& p.ra is None && p.dec is None
}

/// `p` is the point that photometry of LSST becomes, which is public and has a position unless
/// it is forced.
pub open spec fn is_of_lsst(p: PointView, l: LsstPhotometry, forced: bool) -> bool {
    &&& p.jd == l.jd && p.flux == l.flux && p.flux_err == l.flux_err
    &&& p.band == "lsst"@ + l.band@
    &&& p.programid == 1 && p.survey == Survey::Lsst
    &&& forced ==> p.origin == Origin::ForcedPhot && p.ra is None && p.dec is None
    &&& !forced ==> p.origin == Origin::Alert && p.ra == l.ra && p.dec == l.dec
}

proof fn lemma_in_time(s: Seq<PointView>, p: PointView)
    ensures
        alerts::in_time(s).contains(p) <==> s.contains(p),
{
    broadcast use vstd::seq_lib::group_to_multiset_ensures;

    sorting::law_sorting_is_stable(s, alerts::point_time(), 0);
    let kept = alerts::in_time(s);
    assert(kept.contains(p) <==> kept.to_multiset().count(p) > 0);
    assert(s.contains(p) <==> s.to_multiset().count(p) > 0);
}

/// A published light curve holds every detection, every limit and every forced measurement of
/// the alert, and nothing else.
pub proof fn law_light_curves_hold_every_measurement(
    a: ZtfAlertEnriched,
    filters: Seq<FilterResults>,
    cutouts: AlertCutout,
    p: PointView,
)
    ensures
        alerts::published(a, filters, cutouts).photometry.contains(p) <==> {
            ||| exists|i: int|
                0 <= i < a.prv_candidates@.len() && is_detection(
                    p,
                    #[trigger] a.prv_candidates@[i],
                )
            ||| exists|i: int|
                0 <= i < a.prv_nondetections@.len() && is_limit(
                    p,
                    #[trigger] a.prv_nondetections@[i],
                )
            ||| exists|i: int|
                0 <= i < a.fp_hists@.len() && is_forced(p, #[trigger] a.fp_hists@[i])
        },
{
    let all = alerts::all_points(a);
    lemma_in_time(all, p);
    let x = alerts::ztf_points(a.prv_candidates@, Source::Detection);
    let y = alerts::ztf_points(a.prv_nondetections@, Source::NonDetection);
    let z = alerts::ztf_points(a.fp_hists@, Source::Forced);
    if all.contains(p) {
        let k = choose|k: int| 0 <= k < all.len() && all[k] == p;
        if k < x.len() {
            assert(x[k] == p);
            assert(is_detection(p, a.prv_candidates@[k]));
        } else if k < x.len() + y.len() {
            let i = k - x.len();
            assert(y[i] == p);
            assert(is_limit(p, a.prv_nondetections@[i]));
        } else {
            let i = k - x.len() - y.len();
            assert(z[i] == p);
            assert(is_forced(p, a.fp_hists@[i]));
        }
    }
    if exists|i: int|
        0 <= i < a.prv_candidates@.len() && is_detection(p, #[trigger] a.prv_candidates@[i]) {
        let i = choose|i: int|
            0 <= i < a.prv_candidates@.len() && is_detection(p, #[trigger] a.prv_candidates@[i]);
        assert(x[i] == p);
        assert(all[i] == p);
    }
    if exists|i: int|
        0 <= i < a.prv_nondetections@.len() && is_limit(p, #[trigger] a.prv_nondetections@[i]) {
        let i = choose|i: int|
            0 <= i < a.prv_nondetections@.len() && is_limit(
                p,
                #[trigger] a.prv_nondetections@[i],
            );
        assert(y[i] == p);
        assert(all[x.len() + i] == p);
    }
    if exists|i: int| 0 <= i < a.fp_hists@.len() && is_forced(p, #[trigger] a.fp_hists@[i]) {
        let i = choose|i: int|
            0 <= i < a.fp_hists@.len() && is_forced(p, #[trigger] a.fp_hists@[i]);
        assert(z[i] == p);
        assert(all[x.len() + y.len() + i] == p);
    }
}

/// A matched object of LSST is published as itself, with all of its light curve and nothing
/// else, in the order of time; an alert without one has none.
pub proof fn law_matches_are_published_as_themselves(
    a: ZtfAlertEnriched,
    filters: Seq<FilterResults>,
    cutouts: AlertCutout,
    p: PointView,
)
    ensures
        ({
            let matched = alert::lsst_match(a.survey_matches);
            let r = alerts::published(a, filters, cutouts).lsst_match;
            &&& r is Some <==> matched is Some
            &&& matched matches Some(m) ==> {
                &&& r->0.object_id == m.object_id@ && r->0.ra == m.ra && r->0.dec == m.dec
                &&& sorting::is_sorted(r->0.photometry, |q: PointView| double::order(q.jd))
                &&& r->0.photometry.contains(p) <==> {
                    ||| exists|i: int|
                        0 <= i < m.prv_candidates@.len() && is_of_lsst(
                            p,
                            #[trigger] m.prv_candidates@[i],
                            false,
                        )
                    ||| exists|i: int|
                        0 <= i < m.fp_hists@.len() && is_of_lsst(
                            p,
                            #[trigger] m.fp_hists@[i],
                            true,
                        )
                }
            }
        }),
{
    if alert::lsst_match(a.survey_matches) is Some {
        lemma_lsst_points(alert::lsst_match(a.survey_matches)->0, p);
    }
}

proof fn lemma_lsst_points(m: LsstMatch, p: PointView)
    ensures
        sorting::is_sorted(
            alerts::in_time(alerts::all_lsst_points(m)),
            |q: PointView| double::order(q.jd),
        ),
        alerts::in_time(alerts::all_lsst_points(m)).contains(p) <==> {
            ||| exists|i: int|
                0 <= i < m.prv_candidates@.len() && is_of_lsst(
                    p,
                    #[trigger] m.prv_candidates@[i],
                    false,
                )
            ||| exists|i: int|
                0 <= i < m.fp_hists@.len() && is_of_lsst(p, #[trigger] m.fp_hists@[i], true)
        },
{
    let all = alerts::all_lsst_points(m);
    lemma_in_time(all, p);
    sorting::law_sorting_is_stable(all, alerts::point_time(), 0);
    let kept = alerts::in_time(all);
    let key = |q: PointView| double::order(q.jd);
    assert forall|i: int, j: int| 0 <= i <= j < kept.len() implies key(#[trigger] kept[i]) <= key(
        #[trigger] kept[j],
    ) by {
        assert(alerts::point_time()(kept[i]) <= alerts::point_time()(kept[j]));
    }
    let x = alerts::lsst_points(m.prv_candidates@, false);
    let y = alerts::lsst_points(m.fp_hists@, true);
    if all.contains(p) {
        let k = choose|k: int| 0 <= k < all.len() && all[k] == p;
        if k < x.len() {
            assert(x[k] == p);
            assert(is_of_lsst(p, m.prv_candidates@[k], false));
        } else {
            let i = k - x.len();
            assert(y[i] == p);
            assert(is_of_lsst(p, m.fp_hists@[i], true));
        }
    }
    if exists|i: int|
        0 <= i < m.prv_candidates@.len() && is_of_lsst(p, #[trigger] m.prv_candidates@[i], false) {
        let i = choose|i: int|
            0 <= i < m.prv_candidates@.len() && is_of_lsst(
                p,
                #[trigger] m.prv_candidates@[i],
                false,
            );
        assert(x[i] == p);
        assert(all[i] == p);
    }
    if exists|i: int|
        0 <= i < m.fp_hists@.len() && is_of_lsst(p, #[trigger] m.fp_hists@[i], true) {
        let i = choose|i: int|
            0 <= i < m.fp_hists@.len() && is_of_lsst(p, #[trigger] m.fp_hists@[i], true);
        assert(y[i] == p);
        assert(all[x.len() + i] == p);
    }
}

/// `s` is a score that a candidate carries: under the name of its classifier, and with the
/// distance of the neighbour where it is that of the nearest neighbour.
pub open spec fn is_candidate_score(s: ScoreView, c: Candidate) -> bool {
    ||| s.classifier == "rb"@ && c.rb == Some(s.score) && s.distance_arcsec is None
    ||| s.classifier == "drb"@ && c.drb == Some(s.score) && s.distance_arcsec is None
    ||| s.classifier == "sgscore1"@ && c.sgscore1 == Some(s.score) && c.distpsnr1 is Some
        && s.distance_arcsec == c.distpsnr1
}

/// `s` is the score of a model, under the name of that model.
pub open spec fn is_model_score(s: ScoreView, c: ZtfAlertClassifications) -> bool {
    s.distance_arcsec is None && {
        ||| s.classifier == "acai_h"@ && s.score == c.acai_h
        ||| s.classifier == "acai_n"@ && s.score == c.acai_n
        ||| s.classifier == "acai_v"@ && s.score == c.acai_v
        ||| s.classifier == "acai_o"@ && s.score == c.acai_o
        ||| s.classifier == "acai_b"@ && s.score == c.acai_b
        ||| s.classifier == "btsbot"@ && s.score == c.btsbot
    }
}

proof fn lemma_plain(name: Seq<char>, score: Option<Double>, s: ScoreView)
    ensures
        alerts::plain_score(name, score).contains(s) <==> s.classifier == name && score == Some(
            s.score,
        ) && s.distance_arcsec is None,
{
    let all = alerts::plain_score(name, score);
    if score is Some {
        assert(all.len() == 1);
        assert(all[0].classifier == name);
        if s.classifier == name && score == Some(s.score) && s.distance_arcsec is None {
            assert(all[0] == s);
        }
    }
}

proof fn lemma_either(a: Seq<ScoreView>, b: Seq<ScoreView>, s: ScoreView)
    ensures
        (a + b).contains(s) <==> a.contains(s) || b.contains(s),
{
    let all = a + b;
    if a.contains(s) {
        let i = choose|i: int| 0 <= i < a.len() && a[i] == s;
        assert(all[i] == s);
    }
    if b.contains(s) {
        let i = choose|i: int| 0 <= i < b.len() && b[i] == s;
        assert(all[a.len() + i] == s);
    }
    if all.contains(s) {
        let i = choose|i: int| 0 <= i < all.len() && all[i] == s;
        if i < a.len() {
            assert(a[i] == s);
        } else {
            assert(b[i - a.len()] == s);
        }
    }
}

/// An alert is published with every score that it has, each under the name of what gave it,
/// and with no other.
pub proof fn law_scores_are_published_by_name(
    a: ZtfAlertEnriched,
    filters: Seq<FilterResults>,
    cutouts: AlertCutout,
    s: ScoreView,
)
    ensures
        alerts::published(a, filters, cutouts).classifications.contains(s) <==> {
            ||| is_candidate_score(s, a.candidate.candidate)
            ||| a.classifications matches Some(m) && is_model_score(s, m)
        },
{
    let c = a.candidate.candidate;
    lemma_either(alerts::candidate_scores(c), alerts::model_scores(a.classifications), s);
    let rb = alerts::plain_score("rb"@, c.rb);
    let drb = alerts::plain_score("drb"@, c.drb);
    let near = match (c.sgscore1, c.distpsnr1) {
        (Some(score), Some(distance)) => seq![
            ScoreView { classifier: "sgscore1"@, score, distance_arcsec: Some(distance) },
        ],
        _ => seq![],
    };
    lemma_either(rb, drb, s);
    lemma_either(rb + drb, near, s);
    lemma_plain("rb"@, c.rb, s);
    lemma_plain("drb"@, c.drb, s);
    assert(near.contains(s) <==> s.classifier == "sgscore1"@ && c.sgscore1 == Some(s.score)
        && c.distpsnr1 is Some && s.distance_arcsec == c.distpsnr1) by {
        if near.len() > 0 && s.classifier == "sgscore1"@ && c.sgscore1 == Some(s.score)
            && s.distance_arcsec == c.distpsnr1 {
            assert(near[0] == s);
        }
    }
    if a.classifications is Some {
        let m = a.classifications->0;
        let h = alerts::plain_score("acai_h"@, Some(m.acai_h));
        let n = alerts::plain_score("acai_n"@, Some(m.acai_n));
        let o = alerts::plain_score("acai_o"@, Some(m.acai_o));
        let v = alerts::plain_score("acai_v"@, Some(m.acai_v));
        let b = alerts::plain_score("acai_b"@, Some(m.acai_b));
        let t = alerts::plain_score("btsbot"@, Some(m.btsbot));
        lemma_plain("acai_h"@, Some(m.acai_h), s);
        lemma_plain("acai_n"@, Some(m.acai_n), s);
        lemma_plain("acai_o"@, Some(m.acai_o), s);
        lemma_plain("acai_v"@, Some(m.acai_v), s);
        lemma_plain("acai_b"@, Some(m.acai_b), s);
        lemma_plain("btsbot"@, Some(m.btsbot), s);
        lemma_either(h, n, s);
        lemma_either(h + n, o, s);
        lemma_either(h + n + o, v, s);
        lemma_either(h + n + o + v, b, s);
        lemma_either(h + n + o + v + b, t, s);
    }
}

} // verus!
