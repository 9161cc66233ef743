//! What the properties of an alert say of it.

use crate::enrichment::alert;
use crate::enrichment::alert::{
    Candidate, LsstMatch, LsstPhotometry, ZtfAlertForEnrichment, ZtfSurveyMatches,
};
use crate::enrichment::association;
use crate::enrichment::association::{Point, ZtfSsoAssociation};
use crate::enrichment::photometry;
use crate::enrichment::photometry::{EnrichmentWorkerError, PhotometryMag, ZtfPhotometry};
use crate::enrichment::photometry_laws;
use crate::enrichment::properties;
use crate::enrichment::properties::{Curves, ZtfAlertProperties};
use crate::utils::double;
use crate::utils::double::Double;
use crate::utils::double_laws;
use crate::utils::sso_geometry;
use crate::utils::sso_geometry::{Geometry, OrbitalElements};
use std::collections::HashMap;
use vstd::arithmetic::power2::*;
use vstd::prelude::*;

verus! {

/// From 0 up to `most`.
pub open spec fn reaches(d: Option<Double>, most: int) -> bool {
    d matches Some(v) && double::le(double::of_integer(0), v) && double::le(
        v,
        double::of_integer(most),
    )
}

/// Above 0, or not known.
pub open spec fn is_up(d: Option<Double>) -> bool {
    d matches Some(v) ==> double::lt(double::of_integer(0), v)
}

/// 0.76, 0.2 and 0.49 in single precision.
pub open spec fn score_076() -> Double {
    Double { bits: 0x3fe8_51eb_8000_0000 }
}

pub open spec fn score_02() -> Double {
    Double { bits: 0x3fc9_9999_a000_0000 }
}

pub open spec fn score_049() -> Double {
    Double { bits: 0x3fdf_5c29_0000_0000 }
}

pub open spec fn score_05() -> Double {
    Double { bits: 0x3fe0_0000_0000_0000 }
}

/// A known object makes a rock of an alert from 0" and less than 12" away, unless its
/// magnitude is a sentinel; without a distance there is no rock.
pub proof fn law_rocks_lie_within_twelve_arcseconds(c: Candidate)
    ensures
        properties::rock(c) <==> {
            &&& c.ssdistnr matches Some(d)
            &&& double::le(double::of_integer(0), d)
            &&& double::lt(d, double::of_integer(12))
            &&& c.ssmagnr matches Some(m) ==> double::le(double::of_integer(0), m)
        },
{
    double_laws::lemma_named_numbers();
}

/// The nearest source is a star where its score is above 0.76 within 2"; a score above 0.2
/// within 1" needs a red colour too, r less z or r less i above 3, in magnitudes above 0. It is
/// none without a score or a distance, beyond 2", or up to a score of 0.2.
pub proof fn law_stars_are_told_by_score_distance_and_colour(
    c: Candidate,
    r_minus_z: Double,
    r_minus_i: Double,
)
    ensures
        ({
            let star = properties::star(c, r_minus_z, r_minus_i);
            let red = is_up(c.srmag1) && (is_up(c.szmag1) && double::lt(
                double::of_integer(3),
                r_minus_z,
            ) || is_up(c.simag1) && double::lt(double::of_integer(3), r_minus_i));
            &&& c.sgscore1 is None || c.distpsnr1 is None ==> !star
            &&& !reaches(c.distpsnr1, 2) ==> !star
            &&& c.sgscore1 matches Some(s) ==> {
                &&& double::lt(score_076(), s) && reaches(c.distpsnr1, 2) ==> star
                &&& double::lt(score_02(), s) && reaches(c.distpsnr1, 1) && red ==> star
                &&& !double::lt(score_02(), s) ==> !star
                &&& !double::lt(score_076(), s) && (!red || !reaches(c.distpsnr1, 1)) ==> !star
            }
        }),
{
    double_laws::lemma_named_numbers();
}

/// A better score never makes less of a star.
pub proof fn law_better_scores_keep_stars(c: Candidate, s: Double, z: Double, i: Double)
    requires
        c.sgscore1 matches Some(old_score) && double::le(old_score, s),
        properties::star(c, z, i),
    ensures
        properties::star((Candidate { sgscore1: Some(s), ..c }), z, i),
{
}

/// A neighbour is a bright star: a score above 0.49, at most 20" away, with an r magnitude
/// above 0 and up to 15.
pub open spec fn is_bright(
    score: Option<Double>,
    distance: Option<Double>,
    mag: Option<Double>,
) -> bool {
    &&& score matches Some(s) && double::lt(score_049(), s)
    &&& distance matches Some(d) && double::le(d, double::of_integer(20))
    &&& mag matches Some(m) && double::lt(double::of_integer(0), m) && double::le(
        m,
        double::of_integer(15),
    )
}

/// A magnitude below 17.
pub open spec fn below_17(mag: Option<Double>) -> bool {
    mag matches Some(m) && double::lt(m, double::of_integer(17))
}

/// The flag holds wherever one of the three catalogued neighbours is a bright star, whichever
/// it is; where Gaia has a star of magnitude 12 at most within 20"; and where the nearest
/// source, of score 0.5 and within 0.5", is brighter than 17 in one band. It holds nowhere
/// else.
pub proof fn law_any_bright_neighbour_is_near(c: Candidate)
    ensures
        is_bright(c.sgscore1, c.distpsnr1, c.srmag1) ==> properties::near_brightstar(c),
        is_bright(c.sgscore2, c.distpsnr2, c.srmag2) ==> properties::near_brightstar(c),
        is_bright(c.sgscore3, c.distpsnr3, c.srmag3) ==> properties::near_brightstar(c),
        reaches(c.neargaiabright, 20) && reaches(c.maggaiabright, 12) && is_up(c.maggaiabright)
            ==> properties::near_brightstar(c),
        c.sgscore1 matches Some(s) && double::eq(s, score_05()) && (c.distpsnr1 matches Some(d)
            && double::lt(d, score_05())) && (below_17(c.sgmag1) || below_17(c.srmag1)
            || below_17(c.simag1)) ==> properties::near_brightstar(c),
        properties::near_brightstar(c) ==> {
            ||| is_bright(c.sgscore1, c.distpsnr1, c.srmag1)
            ||| is_bright(c.sgscore2, c.distpsnr2, c.srmag2)
            ||| is_bright(c.sgscore3, c.distpsnr3, c.srmag3)
            ||| reaches(c.neargaiabright, 20) && reaches(c.maggaiabright, 12) && is_up(
                c.maggaiabright,
            )
            ||| (c.sgscore1 matches Some(s) && double::eq(s, score_05())) && (
            c.distpsnr1 matches Some(d) && double::lt(d, score_05())) && (below_17(c.sgmag1)
                || below_17(c.srmag1) || below_17(c.simag1))
        },
{
    double_laws::lemma_named_numbers();
}

/// The nearest score is 0.5.
pub open spec fn is_even(c: Candidate) -> bool {
    c.sgscore1 matches Some(s) && double::eq(s, score_05())
}

/// Which of the neighbours is the bright one does not matter: to exchange two of them leaves
/// the flag as it is, where neither has the score that only the nearest is asked for.
pub proof fn law_neighbours_may_be_exchanged(c: Candidate)
    ensures
        ({
            let e = Candidate {
                sgscore1: c.sgscore2,
                distpsnr1: c.distpsnr2,
                srmag1: c.srmag2,
                sgscore2: c.sgscore1,
                distpsnr2: c.distpsnr1,
                srmag2: c.srmag1,
                ..c
            };
            !is_even(c) && !is_even(e) ==> properties::near_brightstar(e)
                == properties::near_brightstar(c)
        }),
        ({
            let e = Candidate {
                sgscore1: c.sgscore3,
                distpsnr1: c.distpsnr3,
                srmag1: c.srmag3,
                sgscore3: c.sgscore1,
                distpsnr3: c.distpsnr1,
                srmag3: c.srmag1,
                ..c
            };
            !is_even(c) && !is_even(e) ==> properties::near_brightstar(e)
                == properties::near_brightstar(c)
        }),
        ({
            let e = Candidate {
                sgscore2: c.sgscore3,
                distpsnr2: c.distpsnr3,
                srmag2: c.srmag3,
                sgscore3: c.sgscore2,
                distpsnr3: c.distpsnr2,
                srmag3: c.srmag2,
                ..c
            };
            properties::near_brightstar(e) == properties::near_brightstar(c)
        }),
{
    let a = Candidate {
        sgscore1: c.sgscore2,
        distpsnr1: c.distpsnr2,
        srmag1: c.srmag2,
        sgscore2: c.sgscore1,
        distpsnr2: c.distpsnr1,
        srmag2: c.srmag1,
        ..c
    };
    let b = Candidate {
        sgscore1: c.sgscore3,
        distpsnr1: c.distpsnr3,
        srmag1: c.srmag3,
        sgscore3: c.sgscore1,
        distpsnr3: c.distpsnr1,
        srmag3: c.srmag1,
        ..c
    };
    law_any_bright_neighbour_is_near(c);
    law_any_bright_neighbour_is_near(a);
    law_any_bright_neighbour_is_near(b);
}

/// A point of a light curve up to a time: complete, and not weaker than a threshold.
pub open spec fn is_usable(jd: Double, least: Option<Double>) -> spec_fn(ZtfPhotometry) -> bool {
    |p: ZtfPhotometry|
        double::le(p.jd, jd) && photometry_laws::is_complete(p) && (least matches Some(t)
            ==> !double::lt(photometry_laws::strength(p.snr_psf->0), t))
}

/// A point as its magnitude.
pub open spec fn as_magnitude() -> spec_fn(ZtfPhotometry) -> PhotometryMag {
    |p: ZtfPhotometry|
        PhotometryMag {
            time: p.jd,
            mag: double::narrowed(p.magpsf->0),
            mag_err: double::narrowed(p.sigmapsf->0),
            band: p.band,
        }
}

proof fn lemma_magnitudes(points: Seq<ZtfPhotometry>, jd: Double, least: Option<Double>)
    ensures
        properties::magnitudes(points, jd, least) == points.filter(
            is_usable(jd, least),
        ).map_values(as_magnitude()),
    decreases points.len(),
{
    let f = is_usable(jd, least);
    let g = as_magnitude();
    reveal(Seq::filter);
    if points.len() == 0 {
        assert(points.filter(f).map_values(g) =~= Seq::empty());
    } else {
        let front = points.drop_last();
        let p = points.last();
        lemma_magnitudes(front, jd, least);
        match least {
            Some(t) => {
                photometry_laws::law_points_are_kept_by_their_strength(p, t);
            },
            None => {
                photometry_laws::law_points_are_kept_by_their_strength(p, jd);
            },
        }
        if f(p) {
            photometry_laws::law_kept_points_are_the_measured_ones(p, least);
            assert(photometry::photometry_mag(p, least)->0 == g(p));
            assert(points.filter(f) == front.filter(f).push(p));
            assert(front.filter(f).push(p).map_values(g) =~= front.filter(f).map_values(g).push(
                g(p),
            ));
        }
    }
}

/// The light curve of an alert are all its usable detections up to the alert, and behind them
/// its usable forced photometry up to the alert of at least three times the noise, each in
/// its order and as it was measured; nothing else.
pub proof fn law_light_curves_hold_what_was_measured(a: ZtfAlertForEnrichment)
    ensures
        properties::light_curve(a) == a.prv_candidates@.filter(
            is_usable(a.candidate.candidate.jd, None),
        ).map_values(as_magnitude()) + a.fp_hists@.filter(
            is_usable(a.candidate.candidate.jd, Some(double::of_integer(3))),
        ).map_values(as_magnitude()),
{
    double_laws::lemma_named_numbers();
    let jd = a.candidate.candidate.jd;
    lemma_magnitudes(a.prv_candidates@, jd, None);
    lemma_magnitudes(a.fp_hists@, jd, Some(double::of_integer(3)));
}

/// The light curve of an LSST match are its detections up to the alert that have a magnitude,
/// and behind them its forced photometry up to the alert that has a significant one.
pub proof fn law_lsst_light_curves_hold_what_was_measured(m: LsstMatch, jd: Double)
    ensures
        properties::lsst_light_curve(m, jd) == m.prv_candidates@.filter(
            |p: LsstPhotometry| double::le(p.jd, jd) && p.point is Some,
        ).map_values(|p: LsstPhotometry| p.point->0) + m.fp_hists@.filter(
            |p: LsstPhotometry| double::le(p.jd, jd) && p.significant_point is Some,
        ).map_values(|p: LsstPhotometry| p.significant_point->0),
{
    lemma_lsst_detections(m.prv_candidates@, jd);
    lemma_lsst_forced(m.fp_hists@, jd);
}

proof fn lemma_lsst_detections(points: Seq<LsstPhotometry>, jd: Double)
    ensures
        properties::lsst_magnitudes(points, jd, false) == points.filter(
            |p: LsstPhotometry| double::le(p.jd, jd) && p.point is Some,
        ).map_values(|p: LsstPhotometry| p.point->0),
    decreases points.len(),
{
    let f = |p: LsstPhotometry| double::le(p.jd, jd) && p.point is Some;
    let g = |p: LsstPhotometry| p.point->0;
    reveal(Seq::filter);
    if points.len() == 0 {
        assert(points.filter(f).map_values(g) =~= Seq::empty());
    } else {
        let front = points.drop_last();
        lemma_lsst_detections(front, jd);
        if f(points.last()) {
            assert(front.filter(f).push(points.last()).map_values(g) =~= front.filter(f).map_values(
                g,
            ).push(g(points.last())));
        }
    }
}

proof fn lemma_lsst_forced(points: Seq<LsstPhotometry>, jd: Double)
    ensures
        properties::lsst_magnitudes(points, jd, true) == points.filter(
            |p: LsstPhotometry| double::le(p.jd, jd) && p.significant_point is Some,
        ).map_values(|p: LsstPhotometry| p.significant_point->0),
    decreases points.len(),
{
    let f = |p: LsstPhotometry| double::le(p.jd, jd) && p.significant_point is Some;
    let g = |p: LsstPhotometry| p.significant_point->0;
    reveal(Seq::filter);
    if points.len() == 0 {
        assert(points.filter(f).map_values(g) =~= Seq::empty());
    } else {
        let front = points.drop_last();
        lemma_lsst_forced(front, jd);
        if f(points.last()) {
            assert(front.filter(f).push(points.last()).map_values(g) =~= front.filter(f).map_values(
                g,
            ).push(g(points.last())));
        }
    }
}

/// A detection counts as negative exactly where its flux is a number below 0, as positive
/// where it is any other number, and as neither where it has none; its time is its own, and
/// the detections keep their order.
pub proof fn law_detections_count_by_the_sign_of_their_flux(points: Seq<ZtfPhotometry>, i: int)
    requires
        0 <= i < points.len(),
    ensures
        ({
            let (jd, negative) = properties::flux_signs(points)[i];
            let p = points[i];
            let measured = p.flux is Some && !double::is_nan(p.flux->0);
            &&& properties::flux_signs(points).len() == points.len()
            &&& jd == p.jd
            &&& negative is Some <==> measured
            &&& negative == Some(true) <==> measured && double::lt(
                p.flux->0,
                double::of_integer(0),
            )
        }),
{
    double_laws::lemma_named_numbers();
}

/// The statistics of an alert are of its own prepared light curve, which is not empty. The
/// light curve that is handed on starts with it; where there is no LSST match it is nothing
/// more, and where there is one what follows is the match's prepared light curve, and the
/// statistics over surveys are of all of it. An empty light curve is an error that names the
/// alert.
pub proof fn law_statistics_are_of_the_prepared_light_curve<
    S: Clone,
    B,
    P: Fn(Vec<PhotometryMag>) -> Vec<PhotometryMag>,
    N: Fn(&Vec<PhotometryMag>) -> (S, B, bool),
>(
    r: Result<Curves<S, B>, EnrichmentWorkerError>,
    a: ZtfAlertForEnrichment,
    prepare: P,
    analyze: N,
)
    requires
        properties::are_curves(r, a, prepare, analyze),
    ensures
        exists|own: Vec<PhotometryMag>, raw: Vec<PhotometryMag>|
            {
                &&& raw@ == properties::light_curve(a)
                &&& #[trigger] prepare.ensures((raw,), own)
                &&& r is Ok <==> own@.len() > 0
                &&& r matches Err(e) ==> e == EnrichmentWorkerError::EmptyLightcurve(a.candid)
                &&& r matches Ok(c) ==> {
                    &&& exists|v: &Vec<PhotometryMag>|
                        v@ == own@ && #[trigger] analyze.ensures(
                            (v,),
                            (c.photstats, c.all_bands, c.stationary),
                        )
                    &&& own@.len() <= c.lightcurve@.len()
                    &&& c.lightcurve@.take(own@.len() as int) == own@
                    &&& match a.survey_matches {
                        Some(ZtfSurveyMatches { lsst: Some(m) }) => {
                            &&& exists|more: Vec<PhotometryMag>, from: Vec<PhotometryMag>|
                                from@ == properties::lsst_light_curve(
                                    m,
                                    a.candidate.candidate.jd,
                                ) && #[trigger] prepare.ensures((from,), more)
                                    && c.lightcurve@.skip(own@.len() as int) == more@
                            &&& exists|v: &Vec<PhotometryMag>, found: (S, B, bool)|
                                v@ == c.lightcurve@ && #[trigger] analyze.ensures((v,), found)
                                    && c.multisurvey_photstats == found.0
                        },
                        _ => c.lightcurve@ == own@,
                    }
                }
            },
{
    let own = choose|own: Vec<PhotometryMag>| #[trigger]
        properties::is_prepared(own, properties::light_curve(a), prepare) && match r {
            Ok(c) => own@.len() > 0 && properties::is_analysis(
                (c.photstats, c.all_bands, c.stationary),
                own@,
                analyze,
            ) && properties::are_multisurvey(
                c.multisurvey_photstats,
                c.lightcurve@,
                c.photstats,
                own@,
                alert::lsst_match(a.survey_matches),
                a.candidate.candidate.jd,
                prepare,
                analyze,
            ),
            Err(e) => own@.len() == 0 && e == EnrichmentWorkerError::EmptyLightcurve(a.candid),
        };
    let raw = choose|v: Vec<PhotometryMag>|
        v@ == properties::light_curve(a) && #[trigger] prepare.ensures((v,), own);
    if let Ok(c) = r {
        match a.survey_matches {
            Some(ZtfSurveyMatches { lsst: Some(m) }) => {
                let jd = a.candidate.candidate.jd;
                let (more, found) = choose|more: Vec<PhotometryMag>, found: (S, B, bool)|
                    properties::is_prepared(more, properties::lsst_light_curve(m, jd), prepare)
                        && c.lightcurve@ == own@ + more@ && properties::is_analysis(
                        found,
                        c.lightcurve@,
                        analyze,
                    ) && #[trigger] properties::are_statistics_of(
                        c.multisurvey_photstats,
                        found,
                        more,
                    );
                let from = choose|v: Vec<PhotometryMag>|
                    v@ == properties::lsst_light_curve(m, jd) && #[trigger] prepare.ensures(
                        (v,),
                        more,
                    );
                let v = choose|v: &Vec<PhotometryMag>|
                    v@ == c.lightcurve@ && #[trigger] analyze.ensures((v,), found);
                assert(prepare.ensures((from,), more));
                assert(analyze.ensures((v,), found));
                assert(c.lightcurve@.take(own@.len() as int) =~= own@);
                assert(c.lightcurve@.skip(own@.len() as int) =~= more@);
            },
            _ => {
                assert(c.lightcurve@.take(own@.len() as int) =~= own@);
            },
        }
    }
    assert(prepare.ensures((raw,), own));
}

/// The properties of an alert are its own: its program, the summary of its detections up to
/// its time, and the activity from its two magnitudes.
pub proof fn law_properties_are_of_the_alert<
    S: Clone,
    B,
    C,
    O,
    A,
    H,
    P: Fn(Vec<PhotometryMag>) -> Vec<PhotometryMag>,
    N: Fn(&Vec<PhotometryMag>) -> (S, B, bool),
    F: Fn(&Vec<(Double, Point)>, Point, Double, Option<&C>) -> Option<O>,
    V: Fn(Double, Option<Double>, Option<O>) -> A,
    D: Fn(Vec<(Double, Option<bool>)>, Double) -> H,
    G: Fn(OrbitalElements, Double) -> Geometry,
    M: Fn(Double, Double) -> Double,
>(
    r: Result<(ZtfAlertProperties<S, A, H>, B, i32, Vec<PhotometryMag>), EnrichmentWorkerError>,
    a: ZtfAlertForEnrichment,
    orbits: Map<Seq<char>, OrbitalElements>,
    sso_history: Map<Seq<char>, Vec<(Double, Point)>>,
    baselines: Map<Seq<char>, HashMap<u8, C>>,
    max_separation: Double,
    prepare: P,
    analyze: N,
    from_history: F,
    activity: V,
    summarize: D,
    geometry_at: G,
    minus: M,
)
    requires
        properties::are_properties(
            r,
            a,
            orbits,
            sso_history,
            baselines,
            max_separation,
            prepare,
            analyze,
            from_history,
            activity,
            summarize,
            geometry_at,
            minus,
        ),
        r is Ok,
    ensures
        ({
            let p = r->Ok_0.0;
            let c = a.candidate.candidate;
            &&& r->Ok_0.2 == c.programid
            &&& p.rock == properties::rock(c)
            &&& p.near_brightstar == properties::near_brightstar(c)
            &&& p.multisurvey_photstats is Some
            &&& p.detection_history is Some && exists|v: Vec<(Double, Option<bool>)>|
                {
                    &&& #[trigger] summarize.ensures((v, c.jd), p.detection_history->0)
                    &&& v@.len() == a.prv_candidates@.len()
                    &&& forall|i: int|
                        0 <= i < v@.len() ==> (#[trigger] v@[i]).0 == a.prv_candidates@[i].jd
                }
            &&& p.activity is Some && exists|o: Option<O>| #[trigger]
                activity.ensures((c.magpsf, c.magap, o), p.activity->0)
            &&& p.sso is Some && p.sso->0.is_sso == c.ssnamenr is Some && p.sso->0.designation
                == c.ssnamenr
            &&& exists|z: Double, i: Double|
                {
                    &&& c.srmag1 is Some && c.szmag1 is Some ==> minus.ensures(
                        (c.srmag1->0, c.szmag1->0),
                        z,
                    )
                    &&& c.srmag1 is Some && c.simag1 is Some ==> minus.ensures(
                        (c.srmag1->0, c.simag1->0),
                        i,
                    )
                    &&& p.star == #[trigger] properties::star(c, z, i)
                }
        }),
{
    let p = r->Ok_0.0;
    let c = a.candidate.candidate;
    let v = choose|v: Vec<(Double, Option<bool>)>|
        v@ == properties::flux_signs(a.prv_candidates@) && #[trigger] summarize.ensures(
            (v, c.jd),
            p.detection_history->0,
        );
    assert(summarize.ensures((v, c.jd), p.detection_history->0));
}

/// An alert of a known object is associated with it, and has the geometry of that object's own
/// orbit at its own time, in single precision but for the time of perihelion, which is that of
/// the orbit; an alert of no known orbit has none.
pub proof fn law_geometry_is_of_the_object_at_the_alert<
    G: Fn(OrbitalElements, Double) -> Geometry,
>(
    sso: ZtfSsoAssociation,
    c: Candidate,
    orbits: Map<Seq<char>, OrbitalElements>,
    geometry_at: G,
)
    requires
        properties::is_association_of(sso, c, orbits, geometry_at),
    ensures
        sso.is_sso <==> c.ssnamenr is Some,
        sso.designation == c.ssnamenr,
        c.ssnamenr matches Some(name) && orbits.contains_key(name@) ==> exists|g: Geometry|
            {
                &&& #[trigger] geometry_at.ensures((orbits[c.ssnamenr->0@], c.jd), g)
                &&& sso.helio_dist == Some(double::narrowed(g.helio_dist))
                &&& sso.topo_dist == Some(double::narrowed(g.topo_dist))
                &&& sso.phase_angle == Some(double::narrowed(g.phase_angle))
                &&& sso.true_anomaly == Some(double::narrowed(g.true_anomaly))
                &&& sso.perihelion_time == Some(orbits[c.ssnamenr->0@].tp)
            },
        !(c.ssnamenr matches Some(name) && orbits.contains_key(name@)) ==> sso.helio_dist is None
            && sso.topo_dist is None && sso.phase_angle is None && sso.true_anomaly is None
            && sso.perihelion_time is None,
{
    if c.ssnamenr is Some && orbits.contains_key(c.ssnamenr->0@) {
        let e = orbits[c.ssnamenr->0@];
        let plain = choose|plain: ZtfSsoAssociation| #[trigger]
            association::is_association(plain, c.ssnamenr, c.ssdistnr, c.ssmagnr) && exists|
                g: Geometry,
            |
                geometry_at.ensures((e, c.jd), g) && sso == association::with_geometry_of(
                    plain,
                    #[trigger] sso_geometry::timed(g, e),
                );
        let g = choose|g: Geometry|
            geometry_at.ensures((e, c.jd), g) && sso == association::with_geometry_of(
                plain,
                #[trigger] sso_geometry::timed(g, e),
            );
        assert(geometry_at.ensures((e, c.jd), g));
    }
}

/// The activity of an alert is judged by its own magnitudes, that of the point source first and
/// that of the aperture behind it, and by the outburst that its own association shows.
pub proof fn law_activity_is_judged_by_the_own_outburst<
    C,
    O,
    A,
    F: Fn(&Vec<(Double, Point)>, Point, Double, Option<&C>) -> Option<O>,
    V: Fn(Double, Option<Double>, Option<O>) -> A,
>(
    a: A,
    sso: ZtfSsoAssociation,
    c: Candidate,
    histories: Map<Seq<char>, Vec<(Double, Point)>>,
    baselines: Map<Seq<char>, HashMap<u8, C>>,
    max_separation: Double,
    from_history: F,
    activity: V,
)
    requires
        properties::is_activity(
            a,
            sso,
            c,
            histories,
            baselines,
            max_separation,
            from_history,
            activity,
        ),
    ensures
        exists|o: Option<O>| #[trigger]
            activity.ensures((c.magpsf, c.magap, o), a) && association::is_outburst(
                o,
                sso,
                c,
                histories,
                baselines,
                max_separation,
                from_history,
            ),
{
}

proof fn lemma_units(bits: u64)
    requires
        0x3fc0_0000_0000_0000 <= bits < 0x3ff0_0000_0000_0000,
    ensures
        double_laws::units(Double { bits }) == (bits % 0x10_0000_0000_0000 + 0x10_0000_0000_0000)
            * pow2((bits / 0x10_0000_0000_0000 - 1) as nat),
{
}

/// The scores that stars are told by are 0.76, 0.49, 0.2 and 0.5 to single precision: each is
/// within half a step of a single of what it stands for.
pub proof fn law_scores_are_the_nearest_singles()
    ensures
        -100 * pow2(1049) <= 100 * double_laws::units(score_076()) - 76 * pow2(1074) <= 100 * pow2(
            1049,
        ),
        -100 * pow2(1048) <= 100 * double_laws::units(score_049()) - 49 * pow2(1074) <= 100 * pow2(
            1048,
        ),
        -10 * pow2(1047) <= 10 * double_laws::units(score_02()) - 2 * pow2(1074) <= 10 * pow2(1047),
        2 * double_laws::units(score_05()) == pow2(1074),
{
    lemma_units(score_076().bits);
    lemma_units(score_049().bits);
    lemma_units(score_02().bits);
    lemma_units(score_05().bits);
    lemma_pow2_adds(1021, 53);
    lemma_pow2_adds(1021, 28);
    lemma_pow2_adds(1020, 54);
    lemma_pow2_adds(1020, 28);
    lemma_pow2_adds(1019, 55);
    lemma_pow2_adds(1019, 28);
    lemma2_to64();
    lemma2_to64_rest();
    lemma_pow2_pos(1021);
    lemma_pow2_pos(1020);
    lemma_pow2_pos(1019);
}

} // verus!
