//! The alerts that passed filters, put together for publication.

use crate::enrichment::alert;
use crate::enrichment::alert::{
    lsst_match_of, AlertCutout, Candidate, LsstMatch, LsstPhotometry, ZtfAlertClassifications,
    ZtfCandidate, ZtfSurveyMatches,
};
use crate::enrichment::photometry::ZtfPhotometry;
use crate::utils::double;
use crate::utils::double::Double;
use crate::utils::sorting;
use crate::utils::sorting::{sort_by_key, Keyed};
use crate::utils::survey::Survey;
use std::collections::HashMap;
use vstd::prelude::*;
use vstd::std_specs::hash::*;
use vstd::string::*;

verus! {

/// Why alerts could not be run through filters or put together.
#[derive(Debug)]
pub enum FilterWorkerError {
    MissingCutouts(i64),
    MissingCutoutsBatch(usize),
    /// A document that a filter returned has no candid.
    MissingCandid,
    /// Annotations that cannot be written as JSON.
    Serialization,
}

/// That an alert passed a filter.
#[derive(Debug)]
pub struct FilterResults {
    pub filter_id: String,
    pub filter_name: String,
    /// Milliseconds since the epoch.
    pub passed_at: Double,
    /// The annotations of the filter, as JSON.
    pub annotations: String,
}

impl Clone for FilterResults {
    fn clone(&self) -> (r: Self)
        ensures
            r == *self,
    {
        FilterResults {
            filter_id: self.filter_id.clone(),
            filter_name: self.filter_name.clone(),
            passed_at: self.passed_at,
            annotations: self.annotations.clone(),
        }
    }
}

#[derive(Debug, Clone, Copy, PartialEq, Eq, Structural)]
pub enum Origin {
    Alert,
    ForcedPhot,
}

/// A score of a classifier.
#[derive(Debug, Clone)]
pub struct Classification {
    pub classifier: String,
    pub score: Double,
    pub distance_arcsec: Option<Double>,
}

/// A point of a published light curve.
#[derive(Debug, Clone)]
pub struct Photometry {
    pub jd: Double,
    pub flux: Option<Double>,
    pub flux_err: Double,
    pub band: String,
    pub origin: Origin,
    pub programid: i32,
    pub survey: Survey,
    pub ra: Option<Double>,
    pub dec: Option<Double>,
}

/// An object of another survey.
#[derive(Debug, Clone)]
pub struct SurveyMatch {
    pub object_id: String,
    pub ra: Double,
    pub dec: Double,
    pub photometry: Vec<Photometry>,
}

#[derive(Debug, Clone)]
pub struct SurveyMatches {
    pub ztf: Option<SurveyMatch>,
    pub lsst: Option<SurveyMatch>,
}

/// An alert that passed filters.
#[derive(Debug, Clone)]
pub struct Alert {
    pub candid: i64,
    pub object_id: String,
    pub jd: Double,
    pub ra: Double,
    pub dec: Double,
    pub filters: Vec<FilterResults>,
    pub classifications: Vec<Classification>,
    pub photometry: Vec<Photometry>,
    pub cutout_science: Vec<u8>,
    pub cutout_template: Vec<u8>,
    pub cutout_difference: Vec<u8>,
    pub survey: Survey,
    pub survey_matches: SurveyMatches,
}

/// A ZTF alert as it is stored, with its auxiliary data.
#[derive(Debug, Clone)]
pub struct ZtfAlertEnriched {
    pub candid: i64,
    pub object_id: String,
    pub candidate: ZtfCandidate,
    pub classifications: Option<ZtfAlertClassifications>,
    pub prv_candidates: Vec<ZtfPhotometry>,
    pub prv_nondetections: Vec<ZtfPhotometry>,
    pub fp_hists: Vec<ZtfPhotometry>,
    pub survey_matches: Option<ZtfSurveyMatches>,
}

/// A score, by the text of its classifier.
pub ghost struct ScoreView {
    pub classifier: Seq<char>,
    pub score: Double,
    pub distance_arcsec: Option<Double>,
}

/// A point of a light curve, by the text of its band.
pub ghost struct PointView {
    pub jd: Double,
    pub flux: Option<Double>,
    pub flux_err: Double,
    pub band: Seq<char>,
    pub origin: Origin,
    pub programid: i32,
    pub survey: Survey,
    pub ra: Option<Double>,
    pub dec: Option<Double>,
}

/// An object of another survey.
pub ghost struct MatchView {
    pub object_id: Seq<char>,
    pub ra: Double,
    pub dec: Double,
    pub photometry: Seq<PointView>,
}

/// An alert that passed filters.
pub ghost struct AlertView {
    pub candid: i64,
    pub object_id: Seq<char>,
    pub jd: Double,
    pub ra: Double,
    pub dec: Double,
    pub filters: Seq<FilterResults>,
    pub classifications: Seq<ScoreView>,
    pub photometry: Seq<PointView>,
    pub cutout_science: Seq<u8>,
    pub cutout_template: Seq<u8>,
    pub cutout_difference: Seq<u8>,
    pub survey: Survey,
    pub ztf_match: Option<MatchView>,
    pub lsst_match: Option<MatchView>,
}

impl View for Classification {
    type V = ScoreView;

    open spec fn view(&self) -> ScoreView {
        ScoreView {
            classifier: self.classifier@,
            score: self.score,
            distance_arcsec: self.distance_arcsec,
        }
    }
}

impl View for Photometry {
    type V = PointView;

    open spec fn view(&self) -> PointView {
        PointView {
            jd: self.jd,
            flux: self.flux,
            flux_err: self.flux_err,
            band: self.band@,
            origin: self.origin,
            programid: self.programid,
            survey: self.survey,
            ra: self.ra,
            dec: self.dec,
        }
    }
}

/// The points of a light curve.
pub open spec fn points(s: Seq<Photometry>) -> Seq<PointView> {
    s.map_values(|p: Photometry| p@)
}

/// The scores of a list.
pub open spec fn scores(s: Seq<Classification>) -> Seq<ScoreView> {
    s.map_values(|c: Classification| c@)
}

impl View for SurveyMatch {
    type V = MatchView;

    open spec fn view(&self) -> MatchView {
        MatchView {
            object_id: self.object_id@,
            ra: self.ra,
            dec: self.dec,
            photometry: points(self.photometry@),
        }
    }
}

/// An optional object of another survey.
pub open spec fn match_view(m: Option<SurveyMatch>) -> Option<MatchView> {
    match m {
        Some(x) => Some(x@),
        None => None,
    }
}

impl View for Alert {
    type V = AlertView;

    open spec fn view(&self) -> AlertView {
        AlertView {
            candid: self.candid,
            object_id: self.object_id@,
            jd: self.jd,
            ra: self.ra,
            dec: self.dec,
            filters: self.filters@,
            classifications: scores(self.classifications@),
            photometry: points(self.photometry@),
            cutout_science: self.cutout_science@,
            cutout_template: self.cutout_template@,
            cutout_difference: self.cutout_difference@,
            survey: self.survey,
            ztf_match: match_view(self.survey_matches.ztf),
            lsst_match: match_view(self.survey_matches.lsst),
        }
    }
}

impl Keyed for Photometry {
    open spec fn key(&self) -> int {
        double::order(self.jd)
    }

    fn sort_key(&self) -> (r: i64) {
        self.jd.order()
    }
}

/// A score without a distance, where there is one.
pub open spec fn plain_score(classifier: Seq<char>, score: Option<Double>) -> Seq<ScoreView> {
    match score {
        Some(s) => seq![ScoreView { classifier, score: s, distance_arcsec: None }],
        None => seq![],
    }
}

/// The scores that an alert arrived with: real/bogus, and star/galaxy with the distance of
/// the nearest source.
pub open spec fn candidate_scores(c: Candidate) -> Seq<ScoreView> {
    plain_score("rb"@, c.rb) + plain_score("drb"@, c.drb) + match (c.sgscore1, c.distpsnr1) {
        (Some(score), Some(distance)) => seq![
            ScoreView { classifier: "sgscore1"@, score, distance_arcsec: Some(distance) },
        ],
        _ => seq![],
    }
}

/// The scores that enrichment gave an alert.
pub open spec fn model_scores(c: Option<ZtfAlertClassifications>) -> Seq<ScoreView> {
    match c {
        Some(s) => plain_score("acai_h"@, Some(s.acai_h)) + plain_score("acai_n"@, Some(s.acai_n))
            + plain_score("acai_o"@, Some(s.acai_o)) + plain_score("acai_v"@, Some(s.acai_v))
            + plain_score("acai_b"@, Some(s.acai_b)) + plain_score("btsbot"@, Some(s.btsbot)),
        None => seq![],
    }
}

/// Add a score without a distance, where there is one.
fn push_score(out: &mut Vec<Classification>, classifier: &str, score: Option<Double>)
    ensures
        scores(final(out)@) == scores(old(out)@) + plain_score(classifier@, score),
{
    match score {
        Some(s) => {
            let ghost before = out@;
            let c = Classification {
                classifier: classifier.to_owned(),
                score: s,
                distance_arcsec: None,
            };
            out.push(c);
            assert(scores(out@) =~= scores(before) + seq![c@]);
        },
        None => {
            assert(scores(out@) =~= scores(out@) + seq![]);
        },
    }
}

/// The scores of an alert: those that it arrived with, then those of the models.
pub fn classifications_of(
    candidate: &Candidate,
    classifications: Option<ZtfAlertClassifications>,
) -> (r: Vec<Classification>)
    ensures
        scores(r@) == candidate_scores(*candidate) + model_scores(classifications),
{
    let mut out: Vec<Classification> = Vec::new();
    assert(scores(out@) =~= seq![]);
    push_score(&mut out, "rb", candidate.rb);
    push_score(&mut out, "drb", candidate.drb);
    if let (Some(sgscore), Some(distance)) = (candidate.sgscore1, candidate.distpsnr1) {
        let ghost before = out@;
        let c = Classification {
            classifier: "sgscore1".to_owned(),
            score: sgscore,
            distance_arcsec: Some(distance),
        };
        out.push(c);
        assert(scores(out@) =~= scores(before) + seq![c@]);
    }
    assert(scores(out@) =~= candidate_scores(*candidate));
    if let Some(s) = classifications {
        push_score(&mut out, "acai_h", Some(s.acai_h));
        push_score(&mut out, "acai_n", Some(s.acai_n));
        push_score(&mut out, "acai_o", Some(s.acai_o));
        push_score(&mut out, "acai_v", Some(s.acai_v));
        push_score(&mut out, "acai_b", Some(s.acai_b));
        push_score(&mut out, "btsbot", Some(s.btsbot));
    }
    assert(scores(out@) =~= candidate_scores(*candidate) + model_scores(classifications));
    out
}

/// Where a point of a ZTF light curve comes from.
pub enum Source {
    Detection,
    NonDetection,
    Forced,
}

/// A point of a ZTF light curve. A non-detection has no flux, and only a detection has a
/// position.
pub open spec fn ztf_point(p: ZtfPhotometry, source: Source) -> PointView {
    PointView {
        jd: p.jd,
        flux: if source is NonDetection {
            None
        } else {
            p.flux
        },
        flux_err: p.flux_err,
        band: "ztf"@ + p.band@,
        origin: if source is Forced {
            Origin::ForcedPhot
        } else {
            Origin::Alert
        },
        programid: p.programid,
        survey: Survey::Ztf,
        ra: if source is Detection {
            p.ra
        } else {
            None
        },
        dec: if source is Detection {
            p.dec
        } else {
            None
        },
    }
}

/// The points of a part of a ZTF light curve.
pub open spec fn ztf_points(s: Seq<ZtfPhotometry>, source: Source) -> Seq<PointView> {
    s.map_values(|p: ZtfPhotometry| ztf_point(p, source))
}

/// A point of an LSST light curve. Only a detection has a position.
pub open spec fn lsst_point(p: LsstPhotometry, forced: bool) -> PointView {
    PointView {
        jd: p.jd,
        flux: p.flux,
        flux_err: p.flux_err,
        band: "lsst"@ + p.band@,
        origin: if forced {
            Origin::ForcedPhot
        } else {
            Origin::Alert
        },
        programid: 1,
        survey: Survey::Lsst,
        ra: if forced {
            None
        } else {
            p.ra
        },
        dec: if forced {
            None
        } else {
            p.dec
        },
    }
}

/// The points of a part of an LSST light curve.
pub open spec fn lsst_points(s: Seq<LsstPhotometry>, forced: bool) -> Seq<PointView> {
    s.map_values(|p: LsstPhotometry| lsst_point(p, forced))
}

/// The time of a point.
pub open spec fn point_time() -> spec_fn(PointView) -> int {
    |p: PointView| double::order(p.jd)
}

/// Points in the order of time; those of the same time keep their order.
pub open spec fn in_time(s: Seq<PointView>) -> Seq<PointView> {
    sorting::sorted(s, point_time())
}

/// All points of an alert's ZTF light curve: detections, non-detections, forced photometry.
pub open spec fn all_points(a: ZtfAlertEnriched) -> Seq<PointView> {
    ztf_points(a.prv_candidates@, Source::Detection) + ztf_points(
        a.prv_nondetections@,
        Source::NonDetection,
    ) + ztf_points(a.fp_hists@, Source::Forced)
}

/// All points of an LSST light curve.
pub open spec fn all_lsst_points(m: LsstMatch) -> Seq<PointView> {
    lsst_points(m.prv_candidates@, false) + lsst_points(m.fp_hists@, true)
}

/// The times can be compared: there is nothing to compare, or all of them are numbers.
pub open spec fn is_sortable(s: Seq<PointView>) -> bool {
    s.len() < 2 || forall|i: int| 0 <= i < s.len() ==> !double::is_nan((#[trigger] s[i]).jd)
}

/// The light curves of an alert can be sorted.
pub open spec fn has_times(a: ZtfAlertEnriched) -> bool {
    is_sortable(all_points(a)) && (alert::lsst_match(a.survey_matches) matches Some(m)
        ==> is_sortable(all_lsst_points(m)))
}

/// The LSST object of an alert as it is published.
pub open spec fn published_match(m: Option<LsstMatch>) -> Option<MatchView> {
    match m {
        Some(l) => Some(
            MatchView {
                object_id: l.object_id@,
                ra: l.ra,
                dec: l.dec,
                photometry: in_time(all_lsst_points(l)),
            },
        ),
        None => None,
    }
}

/// An alert as it is published.
pub open spec fn published(
    a: ZtfAlertEnriched,
    filters: Seq<FilterResults>,
    cutouts: AlertCutout,
) -> AlertView {
    let c = a.candidate.candidate;
    AlertView {
        candid: a.candid,
        object_id: a.object_id@,
        jd: c.jd,
        ra: c.ra,
        dec: c.dec,
        filters,
        classifications: candidate_scores(c) + model_scores(a.classifications),
        photometry: in_time(all_points(a)),
        cutout_science: cutouts.cutout_science@,
        cutout_template: cutouts.cutout_template@,
        cutout_difference: cutouts.cutout_difference@,
        survey: Survey::Ztf,
        ztf_match: None,
        lsst_match: published_match(alert::lsst_match(a.survey_matches)),
    }
}

/// Add a part of a ZTF light curve.
fn push_ztf(out: &mut Vec<Photometry>, part: &Vec<ZtfPhotometry>, source: &Source)
    ensures
        points(final(out)@) == points(old(out)@) + ztf_points(part@, *source),
{
    let ghost before = out@;
    let mut i: usize = 0;
    assert(points(out@) =~= points(before) + ztf_points(part@.take(0), *source));
    while i < part.len()
        invariant
            i <= part.len(),
            points(out@) == points(before) + ztf_points(part@.take(i as int), *source),
        decreases part.len() - i,
    {
        let p = &part[i];
        let (flux, origin, ra, dec) = match source {
            Source::Detection => (p.flux, Origin::Alert, p.ra, p.dec),
            Source::NonDetection => (None, Origin::Alert, None, None),
            Source::Forced => (p.flux, Origin::ForcedPhot, None, None),
        };
        let point = Photometry {
            jd: p.jd,
            flux,
            flux_err: p.flux_err,
            band: "ztf".to_owned().concat(p.band.as_str()),
            origin,
            programid: p.programid,
            survey: Survey::Ztf,
            ra,
            dec,
        };
        assert(point@ == ztf_point(part@[i as int], *source));
        let ghost so_far = out@;
        out.push(point);
        proof {
            assert(points(out@) =~= points(so_far).push(point@));
            assert(ztf_points(part@.take(i + 1), *source) =~= ztf_points(
                part@.take(i as int),
                *source,
            ).push(point@));
            assert(points(out@) =~= points(before) + ztf_points(part@.take(i + 1), *source));
        }
        i = i + 1;
    }
    assert(part@.take(i as int) =~= part@);
}

/// Add a part of an LSST light curve.
fn push_lsst(out: &mut Vec<Photometry>, part: &Vec<LsstPhotometry>, forced: bool)
    ensures
        points(final(out)@) == points(old(out)@) + lsst_points(part@, forced),
{
    let ghost before = out@;
    let mut i: usize = 0;
    assert(points(out@) =~= points(before) + lsst_points(part@.take(0), forced));
    while i < part.len()
        invariant
            i <= part.len(),
            points(out@) == points(before) + lsst_points(part@.take(i as int), forced),
        decreases part.len() - i,
    {
        let p = &part[i];
        let point = Photometry {
            jd: p.jd,
            flux: p.flux,
            flux_err: p.flux_err,
            band: "lsst".to_owned().concat(p.band.as_str()),
            origin: if forced {
                Origin::ForcedPhot
            } else {
                Origin::Alert
            },
            programid: 1,
            survey: Survey::Lsst,
            ra: if forced {
                None
            } else {
                p.ra
            },
            dec: if forced {
                None
            } else {
                p.dec
            },
        };
        assert(point@ == lsst_point(part@[i as int], forced));
        let ghost so_far = out@;
        out.push(point);
        proof {
            assert(points(out@) =~= points(so_far).push(point@));
            assert(lsst_points(part@.take(i + 1), forced) =~= lsst_points(
                part@.take(i as int),
                forced,
            ).push(point@));
            assert(points(out@) =~= points(before) + lsst_points(part@.take(i + 1), forced));
        }
        i = i + 1;
    }
    assert(part@.take(i as int) =~= part@);
}

/// Sort a light curve by time.
fn sort_points(v: Vec<Photometry>) -> (r: Vec<Photometry>)
    requires
        is_sortable(points(v@)),
    ensures
        points(r@) == in_time(points(v@)),
{
    let r = sort_by_key(v);
    proof {
        sorting::lemma_sorted_map(
            v@,
            |p: Photometry| p@,
            |p: Photometry| p.key(),
            point_time(),
        );
    }
    r
}

/// The ZTF light curve of an alert.
pub fn photometry_of(a: &ZtfAlertEnriched) -> (r: Vec<Photometry>)
    requires
        is_sortable(all_points(*a)),
    ensures
        points(r@) == in_time(all_points(*a)),
{
    let mut out: Vec<Photometry> = Vec::new();
    assert(points(out@) =~= seq![]);
    push_ztf(&mut out, &a.prv_candidates, &Source::Detection);
    push_ztf(&mut out, &a.prv_nondetections, &Source::NonDetection);
    push_ztf(&mut out, &a.fp_hists, &Source::Forced);
    assert(points(out@) =~= all_points(*a));
    sort_points(out)
}

/// The LSST object of an alert, as it is published.
pub fn survey_match_of(m: &LsstMatch) -> (r: SurveyMatch)
    requires
        is_sortable(all_lsst_points(*m)),
    ensures
        Some(r@) == published_match(Some(*m)),
{
    let mut out: Vec<Photometry> = Vec::new();
    assert(points(out@) =~= seq![]);
    push_lsst(&mut out, &m.prv_candidates, false);
    push_lsst(&mut out, &m.fp_hists, true);
    assert(points(out@) =~= all_lsst_points(*m));
    SurveyMatch {
        object_id: m.object_id.clone(),
        ra: m.ra,
        dec: m.dec,
        photometry: sort_points(out),
    }
}

/// The results of the filters that an alert passed.
pub open spec fn results_for(results: Map<i64, Vec<FilterResults>>, candid: i64) -> Seq<
    FilterResults,
> {
    if results.contains_key(candid) {
        results[candid]@
    } else {
        Seq::empty()
    }
}

/// The results of the filters that an alert passed.
fn filters_of(results: &HashMap<i64, Vec<FilterResults>>, candid: i64) -> (r: Vec<FilterResults>)
    ensures
        r@ == results_for(results@, candid),
{
    broadcast use group_hash_axioms;

    let mut out: Vec<FilterResults> = Vec::new();
    match results.get(&candid) {
        Some(list) => {
            let mut i: usize = 0;
            while i < list.len()
                invariant
                    i <= list.len(),
                    out@ =~= list@.take(i as int),
                decreases list.len() - i,
            {
                out.push(list[i].clone());
                i = i + 1;
            }
            assert(list@.take(i as int) =~= list@);
        },
        None => {},
    }
    out
}

/// Put an alert together.
pub fn build_alert(
    a: &ZtfAlertEnriched,
    filters: Vec<FilterResults>,
    cutouts: AlertCutout,
) -> (r: Alert)
    requires
        has_times(*a),
    ensures
        r@ == published(*a, filters@, cutouts),
{
    let c = &a.candidate.candidate;
    let classifications = classifications_of(c, a.classifications);
    let photometry = photometry_of(a);
    let lsst = match lsst_match_of(&a.survey_matches) {
        Some(m) => Some(survey_match_of(m)),
        None => None,
    };
    Alert {
        candid: a.candid,
        object_id: a.object_id.clone(),
        jd: c.jd,
        ra: c.ra,
        dec: c.dec,
        filters,
        classifications,
        photometry,
        cutout_science: cutouts.cutout_science,
        cutout_template: cutouts.cutout_template,
        cutout_difference: cutouts.cutout_difference,
        survey: Survey::Ztf,
        survey_matches: SurveyMatches { ztf: None, lsst },
    }
}

/// There are cutouts for the `k`-th alert, and no earlier alert took them.
pub open spec fn is_supplied(
    alerts: Seq<ZtfAlertEnriched>,
    cutouts: Map<i64, AlertCutout>,
    k: int,
) -> bool {
    cutouts.contains_key(alerts[k].candid) && forall|j: int|
        0 <= j < k ==> (#[trigger] alerts[j]).candid != alerts[k].candid
}

/// Every alert before the `k`-th has its cutouts.
pub open spec fn is_reached(
    alerts: Seq<ZtfAlertEnriched>,
    cutouts: Map<i64, AlertCutout>,
    k: int,
) -> bool {
    forall|j: int| #![trigger alerts[j]] 0 <= j < k ==> is_supplied(alerts, cutouts, j)
}

/// The alerts without cutouts.
pub open spec fn without_cutouts(
    alerts: Seq<ZtfAlertEnriched>,
    cutouts: Map<i64, AlertCutout>,
) -> Seq<ZtfAlertEnriched> {
    alerts.filter(|a: ZtfAlertEnriched| !cutouts.contains_key(a.candid))
}

/// Count the alerts without cutouts.
fn count_without_cutouts(
    alerts: &Vec<ZtfAlertEnriched>,
    cutouts: &HashMap<i64, AlertCutout>,
) -> (r: usize)
    ensures
        r == without_cutouts(alerts@, cutouts@).len(),
{
    broadcast use group_hash_axioms;

    let ghost p = |a: ZtfAlertEnriched| !cutouts@.contains_key(a.candid);
    let mut n: usize = 0;
    let mut i: usize = 0;
    proof {
        reveal(Seq::filter);
        assert(alerts@.take(0).filter(p).len() == 0);
    }
    while i < alerts.len()
        invariant
            i <= alerts.len(),
            n <= i,
            p == (|a: ZtfAlertEnriched| !cutouts@.contains_key(a.candid)),
            n == alerts@.take(i as int).filter(p).len(),
        decreases alerts.len() - i,
    {
        proof {
            reveal(Seq::filter);
            assert(alerts@.take(i + 1).drop_last() =~= alerts@.take(i as int));
        }
        if !cutouts.contains_key(&alerts[i].candid) {
            n = n + 1;
        }
        i = i + 1;
    }
    assert(alerts@.take(i as int) =~= alerts@);
    n
}

/// Builds alerts from the results of filters, the alerts that were fetched for them, and the
/// cutouts that were retrieved.
///
/// Without results there is nothing to build. An alert takes its cutouts, so that each set
/// of cutouts is published once.
pub fn build_ztf_alerts(
    alerts_with_filter_results: &HashMap<i64, Vec<FilterResults>>,
    alerts: Vec<ZtfAlertEnriched>,
    cutouts: HashMap<i64, AlertCutout>,
) -> (r: Result<Vec<Alert>, FilterWorkerError>)
    requires
        alerts_with_filter_results@.len() > 0 && cutouts@.len() == alerts@.len() ==> forall|k: int|
            0 <= k < alerts@.len() && is_reached(alerts@, cutouts@, k) ==> has_times(
                #[trigger] alerts@[k],
            ),
    ensures
        if alerts_with_filter_results@.len() == 0 {
            r matches Ok(out) && out@.len() == 0
        } else if cutouts@.len() != alerts@.len() {
            r matches Err(FilterWorkerError::MissingCutoutsBatch(n)) && n == without_cutouts(
                alerts@,
                cutouts@,
            ).len()
        } else {
            match r {
                Ok(out) => is_reached(alerts@, cutouts@, alerts@.len() as int) && out@.len()
                    == alerts@.len() && forall|k: int|
                    0 <= k < alerts@.len() ==> (#[trigger] out@[k])@ == published(
                        alerts@[k],
                        results_for(alerts_with_filter_results@, alerts@[k].candid),
                        cutouts@[alerts@[k].candid],
                    ),
                Err(FilterWorkerError::MissingCutouts(candid)) => exists|k: int|
                    0 <= k < alerts@.len() && is_reached(alerts@, cutouts@, k) && !is_supplied(
                        alerts@,
                        cutouts@,
                        k,
                    ) && candid == (#[trigger] alerts@[k]).candid,
                Err(_) => false,
            }
        },
{
    broadcast use group_hash_axioms;

    if alerts_with_filter_results.len() == 0 {
        return Ok(Vec::new());
    }
    if cutouts.len() != alerts.len() {
        return Err(
            FilterWorkerError::MissingCutoutsBatch(count_without_cutouts(&alerts, &cutouts)),
        );
    }
    let ghost all = cutouts@;
    let mut left = cutouts;
    let mut out: Vec<Alert> = Vec::new();
    let mut i: usize = 0;
    while i < alerts.len()
        invariant
            i <= alerts.len(),
            all == cutouts@,
            all.len() == alerts@.len(),
            alerts_with_filter_results@.len() != 0,
            is_reached(alerts@, all, i as int),
            forall|k: int|
                0 <= k < alerts@.len() && is_reached(alerts@, all, k) ==> has_times(
                    #[trigger] alerts@[k],
                ),
            forall|c: i64|
                left@.contains_key(c) <==> all.contains_key(c) && (forall|j: int|
                    0 <= j < i ==> (#[trigger] alerts@[j]).candid != c),
            forall|c: i64| left@.contains_key(c) ==> #[trigger] left@[c] == all[c],
            out@.len() == i,
            forall|k: int|
                0 <= k < i ==> (#[trigger] out@[k])@ == published(
                    alerts@[k],
                    results_for(alerts_with_filter_results@, alerts@[k].candid),
                    all[alerts@[k].candid],
                ),
        decreases alerts.len() - i,
    {
        let a = &alerts[i];
        assert(has_times(alerts@[i as int]));
        let ghost before = left@;
        let taken = match left.remove(&a.candid) {
            Some(t) => t,
            None => {
                assert(!is_supplied(alerts@, all, i as int));
                return Err(FilterWorkerError::MissingCutouts(a.candid));
            },
        };
        proof {
            assert(is_supplied(alerts@, all, i as int));
            assert(is_reached(alerts@, all, i + 1));
            assert forall|x: i64|
                left@.contains_key(x) <==> all.contains_key(x) && (forall|j: int|
                    0 <= j < i + 1 ==> (#[trigger] alerts@[j]).candid != x) by {
                if left@.contains_key(x) {
                    assert(before.contains_key(x));
                }
                if all.contains_key(x) && (forall|j: int|
                    0 <= j < i + 1 ==> (#[trigger] alerts@[j]).candid != x) {
                    assert(before.contains_key(x));
                    assert(alerts@[i as int].candid != x);
                }
            }
        }
        let filters = filters_of(alerts_with_filter_results, a.candid);
        out.push(build_alert(a, filters, taken));
        i = i + 1;
    }
    Ok(out)
}

/// A published light curve is in the order of time and holds every point of the alert once:
/// its detections, its non-detections without a flux, and its forced photometry.
pub proof fn law_published_light_curves_are_in_time(
    a: ZtfAlertEnriched,
    filters: Seq<FilterResults>,
    cutouts: AlertCutout,
)
    ensures
        ({
            let curve = published(a, filters, cutouts).photometry;
            &&& sorting::is_sorted(curve, point_time())
            &&& curve.to_multiset() == all_points(a).to_multiset()
            &&& curve.len() == a.prv_candidates@.len() + a.prv_nondetections@.len()
                + a.fp_hists@.len()
        }),
{
    sorting::law_sorting_is_stable(all_points(a), point_time(), 0);
}

/// Where all alerts are published, no two of them are of the same detection.
pub proof fn law_each_alert_is_published_once(
    alerts: Seq<ZtfAlertEnriched>,
    cutouts: Map<i64, AlertCutout>,
    i: int,
    j: int,
)
    requires
        is_reached(alerts, cutouts, alerts.len() as int),
        0 <= i < j < alerts.len(),
    ensures
        alerts[i].candid != alerts[j].candid,
{
    assert(is_supplied(alerts, cutouts, j));
}

} // verus!
