//! The properties that enrichment computes for an alert.

use crate::enrichment::alert;
use crate::enrichment::alert::{
    lsst_match_of, Candidate, LsstMatch, LsstPhotometry, ZtfAlertForEnrichment,
};
use crate::enrichment::association;
use crate::enrichment::association::{outburst_for, Point, ZtfSsoAssociation};
use crate::enrichment::photometry;
use crate::enrichment::photometry::{EnrichmentWorkerError, PhotometryMag, ZtfPhotometry};
use crate::utils::designation;
use crate::utils::double;
use crate::utils::double::Double;
use crate::utils::sso_geometry;
use crate::utils::sso_geometry::{Geometry, OrbitalElements};
use std::collections::HashMap;
use vstd::hash_map::StringHashMap;
use vstd::pervasive::cloned;
use vstd::prelude::*;

verus! {

/// ZTF alert properties computed during enrichment and inserted back into the alert document
///
/// `S` are statistics of a light curve, `A` measures of activity and `H` a summary of
/// detections.
#[derive(Debug, Clone)]
pub struct ZtfAlertProperties<S, A, H> {
    /// Deprecated alias for `sso.is_sso`, retained so existing filters keep
    /// working. Unlike `sso.is_sso` this is thresholded at a hardcoded 12", so it
    /// silently loses objects as the upstream ephemeris degrades. Prefer
    /// `sso.is_sso`, optionally with an explicit `sso.separation_arcsec` cut.
    pub rock: bool,
    pub star: bool,
    pub near_brightstar: bool,
    pub stationary: bool,
    pub photstats: S,
    pub multisurvey_photstats: Option<S>,
    /// `None` on alerts enriched before this field existed — those were never
    /// evaluated for a solar system association, which is different from having
    /// been evaluated and found not to be one (`Some` with `is_sso: false`).
    /// Consumers must not read `None` as "not an asteroid".
    pub sso: Option<ZtfSsoAssociation>,
    /// `None` on alerts enriched before this existed.
    pub activity: Option<A>,
    /// Per-object detection-history summary for history-aware filters (pos/neg
    /// detection counts, first/last negative epoch, rolling 30-day counts).
    /// `None` on alerts enriched before this field existed.
    pub detection_history: Option<H>,
}

/// A number, or infinity where there is none.
pub open spec fn or_infinity(d: Option<Double>) -> Double {
    match d {
        Some(v) => v,
        None => Double { bits: 0x7ff0_0000_0000_0000 },
    }
}

/// A number, or 0 where there is none.
pub open spec fn or_zero(d: Option<Double>) -> Double {
    match d {
        Some(v) => v,
        None => Double { bits: 0 },
    }
}

fn far_if_absent(d: Option<Double>) -> (r: Double)
    ensures
        r == or_infinity(d),
{
    match d {
        Some(v) => v,
        None => Double { bits: 0x7ff0_0000_0000_0000 },
    }
}

fn zero_if_absent(d: Option<Double>) -> (r: Double)
    ensures
        r == or_zero(d),
{
    match d {
        Some(v) => v,
        None => Double { bits: 0 },
    }
}

/// Positive.
pub open spec fn is_positive(d: Double) -> bool {
    double::lt(Double { bits: 0 }, d)
}

/// From 0 to `most`.
pub open spec fn is_within(d: Double, most: Double) -> bool {
    double::le(Double { bits: 0 }, d) && double::le(d, most)
}

/// A known object lies from 0" and less than 12" away, with a magnitude that was predicted.
pub open spec fn rock(c: Candidate) -> bool {
    let distance = or_infinity(c.ssdistnr);
    &&& double::le(Double { bits: 0 }, distance)
    &&& double::lt(distance, Double { bits: 0x4028_0000_0000_0000 })
    &&& double::le(Double { bits: 0 }, or_infinity(c.ssmagnr))
}

/// Whether a known object lies close by.
pub fn is_rock(c: &Candidate) -> (r: bool)
    ensures
        r == rock(*c),
{
    let distance = far_if_absent(c.ssdistnr);
    Double::zero().at_most(distance) && distance.less_than(Double { bits: 0x4028_0000_0000_0000 })
        && Double::zero().at_most(far_if_absent(c.ssmagnr))
}

/// The nearest source is a star: by its score above 0.76 within 2", or by a score above 0.2
/// within 1" and a colour redder than 3 magnitudes.
pub open spec fn star(c: Candidate, r_minus_z: Double, r_minus_i: Double) -> bool {
    let score = or_zero(c.sgscore1);
    let distance = or_infinity(c.distpsnr1);
    let three = Double { bits: 0x4008_0000_0000_0000 };
    ||| double::lt(Double { bits: 0x3fe8_51eb_8000_0000 }, score) && is_within(
        distance,
        Double { bits: 0x4000_0000_0000_0000 },
    )
    ||| double::lt(Double { bits: 0x3fc9_9999_a000_0000 }, score) && is_within(
        distance,
        Double { bits: 0x3ff0_0000_0000_0000 },
    ) && is_positive(or_infinity(c.srmag1)) && (is_positive(or_infinity(c.szmag1)) && double::lt(
        three,
        r_minus_z,
    ) || is_positive(or_infinity(c.simag1)) && double::lt(three, r_minus_i))
}

fn positive(d: Double) -> (r: bool)
    ensures
        r == is_positive(d),
{
    Double::zero().less_than(d)
}

fn within(d: Double, most: Double) -> (r: bool)
    ensures
        r == is_within(d, most),
{
    Double::zero().at_most(d) && d.at_most(most)
}

/// Whether the nearest source is a star, given its magnitudes in r less those in z and i.
pub fn is_star(c: &Candidate, r_minus_z: Double, r_minus_i: Double) -> (r: bool)
    ensures
        r == star(*c, r_minus_z, r_minus_i),
{
    let score = zero_if_absent(c.sgscore1);
    let distance = far_if_absent(c.distpsnr1);
    let three = Double { bits: 0x4008_0000_0000_0000 };
    (Double { bits: 0x3fe8_51eb_8000_0000 }.less_than(score) && within(
        distance,
        Double { bits: 0x4000_0000_0000_0000 },
    )) || (Double { bits: 0x3fc9_9999_a000_0000 }.less_than(score) && within(
        distance,
        Double { bits: 0x3ff0_0000_0000_0000 },
    ) && positive(far_if_absent(c.srmag1)) && ((positive(far_if_absent(c.szmag1))
        && three.less_than(r_minus_z)) || (positive(far_if_absent(c.simag1)) && three.less_than(
        r_minus_i,
    ))))
}

/// A catalogued source is a bright star: a score above 0.49, within 20", and an r magnitude
/// of at most 15.
pub open spec fn bright_source(
    score: Option<Double>,
    distance: Option<Double>,
    srmag: Option<Double>,
) -> bool {
    &&& double::lt(Double { bits: 0x3fdf_5c29_0000_0000 }, or_zero(score))
    &&& double::le(or_infinity(distance), Double { bits: 0x4034_0000_0000_0000 })
    &&& is_positive(or_infinity(srmag))
    &&& double::le(or_infinity(srmag), Double { bits: 0x402e_0000_0000_0000 })
}

fn is_bright_source(
    score: Option<Double>,
    distance: Option<Double>,
    srmag: Option<Double>,
) -> (r: bool)
    ensures
        r == bright_source(score, distance, srmag),
{
    Double { bits: 0x3fdf_5c29_0000_0000 }.less_than(zero_if_absent(score)) && far_if_absent(
        distance,
    ).at_most(Double { bits: 0x4034_0000_0000_0000 }) && positive(far_if_absent(srmag))
        && far_if_absent(srmag).at_most(Double { bits: 0x402e_0000_0000_0000 })
}

/// Brighter than magnitude 17.
pub open spec fn brighter_than_17(mag: Option<Double>) -> bool {
    double::lt(or_infinity(mag), Double { bits: 0x4031_0000_0000_0000 })
}

fn is_brighter_than_17(mag: Option<Double>) -> (r: bool)
    ensures
        r == brighter_than_17(mag),
{
    far_if_absent(mag).less_than(Double { bits: 0x4031_0000_0000_0000 })
}

/// A bright star lies close by: one of Gaia within 20" and of magnitude 12 at most, one of
/// the three nearest sources, or a bright nearest source within 0.5" that was not told from
/// a galaxy.
pub open spec fn near_brightstar(c: Candidate) -> bool {
    let half = Double { bits: 0x3fe0_0000_0000_0000 };
    ||| is_within(or_infinity(c.neargaiabright), Double { bits: 0x4034_0000_0000_0000 })
        && is_positive(or_infinity(c.maggaiabright)) && double::le(
        or_infinity(c.maggaiabright),
        Double { bits: 0x4028_0000_0000_0000 },
    )
    ||| bright_source(c.sgscore1, c.distpsnr1, c.srmag1)
    ||| bright_source(c.sgscore2, c.distpsnr2, c.srmag2)
    ||| bright_source(c.sgscore3, c.distpsnr3, c.srmag3)
    ||| double::eq(or_zero(c.sgscore1), half) && double::lt(or_infinity(c.distpsnr1), half) && (
    brighter_than_17(c.sgmag1) || brighter_than_17(c.srmag1) || brighter_than_17(c.simag1))
}

/// Whether a bright star lies close by.
pub fn is_near_brightstar(c: &Candidate) -> (r: bool)
    ensures
        r == near_brightstar(*c),
{
    let half = Double { bits: 0x3fe0_0000_0000_0000 };
    (within(far_if_absent(c.neargaiabright), Double { bits: 0x4034_0000_0000_0000 }) && positive(
        far_if_absent(c.maggaiabright),
    ) && far_if_absent(c.maggaiabright).at_most(Double { bits: 0x4028_0000_0000_0000 }))
        || is_bright_source(c.sgscore1, c.distpsnr1, c.srmag1) || is_bright_source(
        c.sgscore2,
        c.distpsnr2,
        c.srmag2,
    ) || is_bright_source(c.sgscore3, c.distpsnr3, c.srmag3) || (zero_if_absent(
        c.sgscore1,
    ).equals(half) && far_if_absent(c.distpsnr1).less_than(half) && (is_brighter_than_17(c.sgmag1)
        || is_brighter_than_17(c.srmag1) || is_brighter_than_17(c.simag1)))
}

/// Three times the noise.
pub open spec fn noise_cut() -> Option<Double> {
    Some(Double { bits: 0x4008_0000_0000_0000 })
}

/// The magnitudes of the points up to a time, in order.
pub open spec fn magnitudes(
    points: Seq<ZtfPhotometry>,
    jd: Double,
    min_snr: Option<Double>,
) -> Seq<PhotometryMag>
    decreases points.len(),
{
    if points.len() == 0 {
        Seq::empty()
    } else {
        let before = magnitudes(points.drop_last(), jd, min_snr);
        match photometry::photometry_mag(points.last(), min_snr) {
            Some(m) => if double::le(points.last().jd, jd) {
                before.push(m)
            } else {
                before
            },
            None => before,
        }
    }
}

/// The light curve of an alert up to its detection: all its detections, and the forced
/// photometry above the noise.
pub open spec fn light_curve(a: ZtfAlertForEnrichment) -> Seq<PhotometryMag> {
    let jd = a.candidate.candidate.jd;
    magnitudes(a.prv_candidates@, jd, None) + magnitudes(a.fp_hists@, jd, noise_cut())
}

/// Add the magnitudes of points up to a time.
fn push_magnitudes(
    out: &mut Vec<PhotometryMag>,
    points: &Vec<ZtfPhotometry>,
    jd: Double,
    min_snr: Option<Double>,
)
    ensures
        final(out)@ == old(out)@ + magnitudes(points@, jd, min_snr),
{
    let ghost before = out@;
    let mut i: usize = 0;
    assert(out@ =~= before + magnitudes(points@.take(0), jd, min_snr));
    while i < points.len()
        invariant
            i <= points.len(),
            out@ == before + magnitudes(points@.take(i as int), jd, min_snr),
        decreases points.len() - i,
    {
        assert(points@.take(i + 1).drop_last() =~= points@.take(i as int));
        if points[i].jd.at_most(jd) {
            if let Some(m) = points[i].to_photometry_mag(min_snr) {
                out.push(m);
            }
        }
        assert(out@ =~= before + magnitudes(points@.take(i + 1), jd, min_snr));
        i = i + 1;
    }
    assert(points@.take(i as int) =~= points@);
}

/// The light curve of an alert up to its detection.
pub fn light_curve_of(a: &ZtfAlertForEnrichment) -> (r: Vec<PhotometryMag>)
    ensures
        r@ == light_curve(*a),
{
    let jd = a.candidate.candidate.jd;
    let mut out: Vec<PhotometryMag> = Vec::new();
    push_magnitudes(&mut out, &a.prv_candidates, jd, None);
    push_magnitudes(&mut out, &a.fp_hists, jd, Some(Double { bits: 0x4008_0000_0000_0000 }));
    assert(out@ =~= light_curve(*a));
    out
}

/// The magnitude of an LSST point, where it has one.
pub open spec fn lsst_magnitude(p: LsstPhotometry, significant: bool) -> Option<PhotometryMag> {
    if significant {
        p.significant_point
    } else {
        p.point
    }
}

/// The magnitudes of LSST points up to a time, in order.
pub open spec fn lsst_magnitudes(
    points: Seq<LsstPhotometry>,
    jd: Double,
    significant: bool,
) -> Seq<PhotometryMag>
    decreases points.len(),
{
    if points.len() == 0 {
        Seq::empty()
    } else {
        let before = lsst_magnitudes(points.drop_last(), jd, significant);
        match lsst_magnitude(points.last(), significant) {
            Some(m) => if double::le(points.last().jd, jd) {
                before.push(m)
            } else {
                before
            },
            None => before,
        }
    }
}

/// The light curve of an LSST match up to a time.
pub open spec fn lsst_light_curve(m: LsstMatch, jd: Double) -> Seq<PhotometryMag> {
    lsst_magnitudes(m.prv_candidates@, jd, false) + lsst_magnitudes(m.fp_hists@, jd, true)
}

/// A copy of a point.
fn copy_of(p: &PhotometryMag) -> (r: PhotometryMag)
    ensures
        r == *p,
{
    PhotometryMag { time: p.time, mag: p.mag, mag_err: p.mag_err, band: p.band.clone() }
}

/// Add the magnitudes of LSST points up to a time.
fn push_lsst_magnitudes(
    out: &mut Vec<PhotometryMag>,
    points: &Vec<LsstPhotometry>,
    jd: Double,
    significant: bool,
)
    ensures
        final(out)@ == old(out)@ + lsst_magnitudes(points@, jd, significant),
{
    let ghost before = out@;
    let mut i: usize = 0;
    assert(out@ =~= before + lsst_magnitudes(points@.take(0), jd, significant));
    while i < points.len()
        invariant
            i <= points.len(),
            out@ == before + lsst_magnitudes(points@.take(i as int), jd, significant),
        decreases points.len() - i,
    {
        assert(points@.take(i + 1).drop_last() =~= points@.take(i as int));
        let p = &points[i];
        let point = if significant {
            &p.significant_point
        } else {
            &p.point
        };
        if p.jd.at_most(jd) {
            if let Some(m) = point {
                out.push(copy_of(m));
            }
        }
        assert(out@ =~= before + lsst_magnitudes(points@.take(i + 1), jd, significant));
        i = i + 1;
    }
    assert(points@.take(i as int) =~= points@);
}

/// The light curve of an LSST match up to a time.
pub fn lsst_light_curve_of(m: &LsstMatch, jd: Double) -> (r: Vec<PhotometryMag>)
    ensures
        r@ == lsst_light_curve(*m, jd),
{
    let mut out: Vec<PhotometryMag> = Vec::new();
    push_lsst_magnitudes(&mut out, &m.prv_candidates, jd, false);
    push_lsst_magnitudes(&mut out, &m.fp_hists, jd, true);
    assert(out@ =~= lsst_light_curve(*m, jd));
    out
}

/// The time of a detection, and whether its flux is negative, where it has one.
pub open spec fn flux_sign(p: ZtfPhotometry) -> (Double, Option<bool>) {
    (
        p.jd,
        match p.flux {
            Some(f) => if double::is_nan(f) {
                None
            } else {
                Some(double::lt(f, Double { bits: 0 }))
            },
            None => None,
        },
    )
}

/// The times of the detections, with the signs of their fluxes.
pub open spec fn flux_signs(points: Seq<ZtfPhotometry>) -> Seq<(Double, Option<bool>)> {
    points.map_values(|p: ZtfPhotometry| flux_sign(p))
}

/// The times of the detections, with the signs of their fluxes.
pub fn flux_signs_of(points: &Vec<ZtfPhotometry>) -> (r: Vec<(Double, Option<bool>)>)
    ensures
        r@ == flux_signs(points@),
{
    let mut out: Vec<(Double, Option<bool>)> = Vec::new();
    let mut i: usize = 0;
    while i < points.len()
        invariant
            i <= points.len(),
            out@ =~= flux_signs(points@.take(i as int)),
        decreases points.len() - i,
    {
        let sign = match points[i].flux {
            Some(f) => if f.is_nan() {
                None
            } else {
                Some(f.less_than(Double::zero()))
            },
            None => None,
        };
        out.push((points[i].jd, sign));
        i = i + 1;
    }
    assert(points@.take(i as int) =~= points@);
    out
}

/// `sso` is the association of a detection, with the geometry of its epoch where the object
/// that it names has elements.
pub open spec fn is_association_of<G: Fn(OrbitalElements, Double) -> Geometry>(
    sso: ZtfSsoAssociation,
    c: Candidate,
    orbits: Map<Seq<char>, OrbitalElements>,
    geometry_at: G,
) -> bool {
    exists|plain: ZtfSsoAssociation| #[trigger]
        association::is_association(plain, c.ssnamenr, c.ssdistnr, c.ssmagnr) && match known(
            c,
            orbits,
        ) {
            Some(e) => exists|g: Geometry|
                geometry_at.ensures((e, c.jd), g) && sso == association::with_geometry_of(
                    plain,
                    #[trigger] sso_geometry::timed(g, e),
                ),
            None => sso == plain,
        }
}

/// The elements of the object that a detection names.
pub open spec fn known(c: Candidate, orbits: Map<Seq<char>, OrbitalElements>) -> Option<
    OrbitalElements,
> {
    match designation::text_view(c.ssnamenr) {
        Some(name) => if orbits.contains_key(name) {
            Some(orbits[name])
        } else {
            None
        },
        None => None,
    }
}

/// The association of a detection. It is evaluated at the observation epoch, so a stale
/// catalogue degrades gradually.
pub fn association_of<G: Fn(OrbitalElements, Double) -> Geometry>(
    c: &Candidate,
    orbits: &StringHashMap<OrbitalElements>,
    geometry_at: &G,
) -> (r: ZtfSsoAssociation)
    requires
        forall|e: OrbitalElements, t: Double| #[trigger] geometry_at.requires((e, t)),
    ensures
        is_association_of(r, *c, orbits@, *geometry_at),
{
    let elements = match &c.ssnamenr {
        Some(name) => orbits.get(name.as_str()),
        None => None,
    };
    let plain = ZtfSsoAssociation::from_ipac(c.ssnamenr.clone(), c.ssdistnr, c.ssmagnr);
    assert(association::is_association(plain, c.ssnamenr, c.ssdistnr, c.ssmagnr));
    plain.with_geometry(elements, c.jd, geometry_at)
}

/// `star` is the verdict on the nearest source, with the colours that `minus` computes from
/// its magnitudes.
pub open spec fn is_star_of<M: Fn(Double, Double) -> Double>(
    is_star: bool,
    c: Candidate,
    minus: M,
) -> bool {
    exists|z: Double, i: Double|
        minus.ensures((or_infinity(c.srmag1), or_infinity(c.szmag1)), z) && minus.ensures(
            (or_infinity(c.srmag1), or_infinity(c.simag1)),
            i,
        ) && is_star == #[trigger] star(c, z, i)
}

/// `out` is what `prepare` makes of a light curve.
pub open spec fn is_prepared<P: Fn(Vec<PhotometryMag>) -> Vec<PhotometryMag>>(
    out: Vec<PhotometryMag>,
    raw: Seq<PhotometryMag>,
    prepare: P,
) -> bool {
    exists|v: Vec<PhotometryMag>| v@ == raw && #[trigger] prepare.ensures((v,), out)
}

/// `found` is what `analyze` finds of a light curve.
pub open spec fn is_analysis<S, B, N: Fn(&Vec<PhotometryMag>) -> (S, B, bool)>(
    found: (S, B, bool),
    curve: Seq<PhotometryMag>,
    analyze: N,
) -> bool {
    exists|v: &Vec<PhotometryMag>| v@ == curve && #[trigger] analyze.ensures((v,), found)
}

/// `stats` are the statistics over surveys: of the light curve with that of the LSST match
/// behind it where there is one, and a copy of the survey's own where there is none.
/// `whole` is the light curve that they are of.
pub open spec fn are_multisurvey<
    S: Clone,
    B,
    P: Fn(Vec<PhotometryMag>) -> Vec<PhotometryMag>,
    N: Fn(&Vec<PhotometryMag>) -> (S, B, bool),
>(
    stats: S,
    whole: Seq<PhotometryMag>,
    own: S,
    curve: Seq<PhotometryMag>,
    lsst: Option<LsstMatch>,
    jd: Double,
    prepare: P,
    analyze: N,
) -> bool {
    match lsst {
        Some(m) => exists|more: Vec<PhotometryMag>, found: (S, B, bool)|
            is_prepared(more, lsst_light_curve(m, jd), prepare) && whole == curve + more@
                && is_analysis(found, whole, analyze) && #[trigger] are_statistics_of(
                stats,
                found,
                more,
            ),
        None => whole == curve && cloned(own, stats),
    }
}

/// `stats` are the statistics of an analysis.
pub open spec fn are_statistics_of<S, B>(
    stats: S,
    found: (S, B, bool),
    more: Vec<PhotometryMag>,
) -> bool {
    stats == found.0
}

/// `a` are the measures of activity that `activity` makes of the magnitudes of a detection
/// and its outburst.
pub open spec fn is_activity<
    C,
    O,
    A,
    F: Fn(&Vec<(Double, Point)>, Point, Double, Option<&C>) -> Option<O>,
    V: Fn(Double, Option<Double>, Option<O>) -> A,
>(
    a: A,
    sso: ZtfSsoAssociation,
    c: Candidate,
    histories: Map<Seq<char>, Vec<(Double, Point)>>,
    baselines: Map<Seq<char>, HashMap<u8, C>>,
    max_separation: Double,
    from_history: F,
    activity: V,
) -> bool {
    exists|outburst: Option<O>|
        association::is_outburst(
            outburst,
            sso,
            c,
            histories,
            baselines,
            max_separation,
            from_history,
        ) && #[trigger] activity.ensures((c.magpsf, c.magap, outburst), a)
}

/// `h` is the summary that `summarize` makes of the detections of an alert.
pub open spec fn is_summary<H, D: Fn(Vec<(Double, Option<bool>)>, Double) -> H>(
    h: H,
    points: Seq<ZtfPhotometry>,
    jd: Double,
    summarize: D,
) -> bool {
    exists|v: Vec<(Double, Option<bool>)>|
        v@ == flux_signs(points) && #[trigger] summarize.ensures((v, jd), h)
}

/// The light curves of an alert and what was found of them.
pub struct Curves<S, B> {
    pub photstats: S,
    pub multisurvey_photstats: S,
    pub all_bands: B,
    pub stationary: bool,
    /// The light curve of the alert, with that of the LSST match behind it.
    pub lightcurve: Vec<PhotometryMag>,
}

/// `r` is what is found of the light curves of an alert: an error where nothing usable is
/// left of its own.
pub open spec fn are_curves<
    S: Clone,
    B,
    P: Fn(Vec<PhotometryMag>) -> Vec<PhotometryMag>,
    N: Fn(&Vec<PhotometryMag>) -> (S, B, bool),
>(
    r: Result<Curves<S, B>, EnrichmentWorkerError>,
    a: ZtfAlertForEnrichment,
    prepare: P,
    analyze: N,
) -> bool {
    exists|own: Vec<PhotometryMag>| #[trigger]
        is_prepared(own, light_curve(a), prepare) && match r {
            Ok(c) => own@.len() > 0 && is_analysis(
                (c.photstats, c.all_bands, c.stationary),
                own@,
                analyze,
            ) && are_multisurvey(
                c.multisurvey_photstats,
                c.lightcurve@,
                c.photstats,
                own@,
                alert::lsst_match(a.survey_matches),
                a.candidate.candidate.jd,
                prepare,
                analyze,
            ),
            Err(e) => own@.len() == 0 && e == EnrichmentWorkerError::EmptyLightcurve(a.candid),
        }
}

/// Prepare and analyze the light curves of an alert.
///
/// Without usable photometry every feature would come from placeholder zeros, so that is an
/// error.
pub fn analyze_curves<
    S: Clone,
    B,
    P: Fn(Vec<PhotometryMag>) -> Vec<PhotometryMag>,
    N: Fn(&Vec<PhotometryMag>) -> (S, B, bool),
>(a: &ZtfAlertForEnrichment, prepare: &P, analyze: &N) -> (r: Result<
    Curves<S, B>,
    EnrichmentWorkerError,
>)
    requires
        forall|v: Vec<PhotometryMag>| #[trigger] prepare.requires((v,)),
        forall|v: &Vec<PhotometryMag>| #[trigger] analyze.requires((v,)),
    ensures
        are_curves(r, *a, *prepare, *analyze),
{
    let jd = a.candidate.candidate.jd;
    let raw = light_curve_of(a);
    let mut lightcurve = prepare(raw);
    let ghost own = lightcurve;
    assert(is_prepared(own, light_curve(*a), *prepare));
    if lightcurve.is_empty() {
        return Err(EnrichmentWorkerError::EmptyLightcurve(a.candid));
    }
    let (photstats, all_bands, stationary) = analyze(&lightcurve);
    assert(is_analysis((photstats, all_bands, stationary), own@, *analyze));
    let multisurvey_photstats = match lsst_match_of(&a.survey_matches) {
        Some(m) => {
            let mut more = prepare(lsst_light_curve_of(m, jd));
            let ghost added = more;
            assert(is_prepared(added, lsst_light_curve(*m, jd), *prepare));
            lightcurve.append(&mut more);
            let found = analyze(&lightcurve);
            assert(is_analysis(found, lightcurve@, *analyze));
            assert(are_statistics_of(found.0, found, added));
            found.0
        },
        None => photstats.clone(),
    };
    Ok(Curves { photstats, multisurvey_photstats, all_bands, stationary, lightcurve })
}

/// `r` is what is computed of an alert: its properties, the statistics over all bands, the
/// program of the alert and its light curve; an error where nothing usable is left of its own
/// light curve.
pub open spec fn are_properties<
    S: Clone,
    B,
    C,
    O,
    A,
    H,
    P: Fn(Vec<PhotometryMag>) -> Vec<PhotometryMag>,
    N: Fn(&Vec<PhotometryMag>) -> (S, B, bool),
    F: Fn(&Vec<(Double, Point)>, Point, Double, Option<&C>) -> Option<O>,
    V: Fn(Double, Option<Double>, Option<O>) -> A,
    D: Fn(Vec<(Double, Option<bool>)>, Double) -> H,
    G: Fn(OrbitalElements, Double) -> Geometry,
    M: Fn(Double, Double) -> Double,
>(
    r: Result<(ZtfAlertProperties<S, A, H>, B, i32, Vec<PhotometryMag>), EnrichmentWorkerError>,
    a: ZtfAlertForEnrichment,
    orbits: Map<Seq<char>, OrbitalElements>,
    sso_history: Map<Seq<char>, Vec<(Double, Point)>>,
    baselines: Map<Seq<char>, HashMap<u8, C>>,
    max_separation: Double,
    prepare: P,
    analyze: N,
    from_history: F,
    activity: V,
    summarize: D,
    geometry_at: G,
    minus: M,
) -> bool {
    match r {
        Err(e) => are_curves(Err::<Curves<S, B>, _>(e), a, prepare, analyze),
        Ok((p, all_bands, programid, lightcurve)) => {
            let c = a.candidate.candidate;
            &&& p.multisurvey_photstats is Some && p.sso is Some && p.activity is Some
                && p.detection_history is Some
            &&& are_curves(
                Ok::<_, EnrichmentWorkerError>(
                    Curves {
                        photstats: p.photstats,
                        multisurvey_photstats: p.multisurvey_photstats->0,
                        all_bands,
                        stationary: p.stationary,
                        lightcurve,
                    },
                ),
                a,
                prepare,
                analyze,
            )
            &&& p.rock == rock(c)
            &&& is_star_of(p.star, c, minus)
            &&& p.near_brightstar == near_brightstar(c)
            &&& is_association_of(p.sso->0, c, orbits, geometry_at)
            &&& is_activity(
                p.activity->0,
                p.sso->0,
                c,
                sso_history,
                baselines,
                max_separation,
                from_history,
                activity,
            )
            &&& is_summary(p.detection_history->0, a.prv_candidates@, c.jd, summarize)
            &&& programid == c.programid
        },
    }
}

/// Compute the properties of an alert, with the statistics over all bands, the program of
/// the alert and its light curve.
///
/// `prepare` and `analyze` work on light curves, `from_history` scores a detection against
/// the history of its object, `activity` measures activity and `summarize` summarizes
/// detections. `geometry_at` propagates elements to a time, and `minus` subtracts in single
/// precision.
pub fn get_alert_properties<
    S: Clone,
    B,
    C,
    O,
    A,
    H,
    P: Fn(Vec<PhotometryMag>) -> Vec<PhotometryMag>,
    N: Fn(&Vec<PhotometryMag>) -> (S, B, bool),
    F: Fn(&Vec<(Double, Point)>, Point, Double, Option<&C>) -> Option<O>,
    V: Fn(Double, Option<Double>, Option<O>) -> A,
    D: Fn(Vec<(Double, Option<bool>)>, Double) -> H,
    G: Fn(OrbitalElements, Double) -> Geometry,
    M: Fn(Double, Double) -> Double,
>(
    a: &ZtfAlertForEnrichment,
    orbits: &StringHashMap<OrbitalElements>,
    sso_history: &StringHashMap<Vec<(Double, Point)>>,
    baselines: &StringHashMap<HashMap<u8, C>>,
    max_separation: Double,
    prepare: &P,
    analyze: &N,
    from_history: &F,
    activity: &V,
    summarize: &D,
    geometry_at: &G,
    minus: &M,
) -> (r: Result<(ZtfAlertProperties<S, A, H>, B, i32, Vec<PhotometryMag>), EnrichmentWorkerError>)
    requires
        forall|v: Vec<PhotometryMag>| #[trigger] prepare.requires((v,)),
        forall|v: &Vec<PhotometryMag>| #[trigger] analyze.requires((v,)),
        forall|h: &Vec<(Double, Point)>, t: Point, jd: Double, c: Option<&C>|
            #[trigger] from_history.requires((h, t, jd, c)),
        forall|m: Double, ap: Option<Double>, o: Option<O>| #[trigger] activity.requires((m, ap, o)),
        forall|v: Vec<(Double, Option<bool>)>, jd: Double| #[trigger] summarize.requires((v, jd)),
        forall|e: OrbitalElements, t: Double| #[trigger] geometry_at.requires((e, t)),
        forall|x: Double, y: Double| #[trigger] minus.requires((x, y)),
    ensures
        are_properties(
            r,
            *a,
            orbits@,
            sso_history@,
            baselines@,
            max_separation,
            *prepare,
            *analyze,
            *from_history,
            *activity,
            *summarize,
            *geometry_at,
            *minus,
        ),
{
    let c = &a.candidate.candidate;
    let curves = match analyze_curves(a, prepare, analyze) {
        Ok(curves) => curves,
        Err(e) => {
            return Err(e);
        },
    };
    let sso = association_of(c, orbits, geometry_at);
    let outburst = outburst_for(&sso, c, sso_history, baselines, max_separation, from_history);
    let active = activity(c.magpsf, c.magap, outburst);
    assert(is_activity(
        active,
        sso,
        *c,
        sso_history@,
        baselines@,
        max_separation,
        *from_history,
        *activity,
    ));
    let z = minus(far_if_absent(c.srmag1), far_if_absent(c.szmag1));
    let i = minus(far_if_absent(c.srmag1), far_if_absent(c.simag1));
    let star = is_star(c, z, i);
    assert(is_star_of(star, *c, *minus));
    let summary = summarize(flux_signs_of(&a.prv_candidates), c.jd);
    assert(is_summary(summary, a.prv_candidates@, c.jd, *summarize));
    let properties = ZtfAlertProperties {
        rock: is_rock(c),
        star,
        near_brightstar: is_near_brightstar(c),
        stationary: curves.stationary,
        photstats: curves.photstats,
        multisurvey_photstats: Some(curves.multisurvey_photstats),
        sso: Some(sso),
        activity: Some(active),
        detection_history: Some(summary),
    };
    Ok((properties, curves.all_bands, c.programid, curves.lightcurve))
}

/// Compute the properties of each alert of a batch, in order.
pub fn batch_properties<
    S: Clone,
    B,
    C,
    O,
    A,
    H,
    P: Fn(Vec<PhotometryMag>) -> Vec<PhotometryMag>,
    N: Fn(&Vec<PhotometryMag>) -> (S, B, bool),
    F: Fn(&Vec<(Double, Point)>, Point, Double, Option<&C>) -> Option<O>,
    V: Fn(Double, Option<Double>, Option<O>) -> A,
    D: Fn(Vec<(Double, Option<bool>)>, Double) -> H,
    G: Fn(OrbitalElements, Double) -> Geometry,
    M: Fn(Double, Double) -> Double,
>(
    alerts: &Vec<ZtfAlertForEnrichment>,
    orbits: &StringHashMap<OrbitalElements>,
    sso_history: &StringHashMap<Vec<(Double, Point)>>,
    baselines: &StringHashMap<HashMap<u8, C>>,
    max_separation: Double,
    prepare: &P,
    analyze: &N,
    from_history: &F,
    activity: &V,
    summarize: &D,
    geometry_at: &G,
    minus: &M,
) -> (r: Vec<
    Result<(ZtfAlertProperties<S, A, H>, B, i32, Vec<PhotometryMag>), EnrichmentWorkerError>,
>)
    requires
        forall|v: Vec<PhotometryMag>| #[trigger] prepare.requires((v,)),
        forall|v: &Vec<PhotometryMag>| #[trigger] analyze.requires((v,)),
        forall|h: &Vec<(Double, Point)>, t: Point, jd: Double, c: Option<&C>|
            #[trigger] from_history.requires((h, t, jd, c)),
        forall|m: Double, ap: Option<Double>, o: Option<O>| #[trigger] activity.requires((m, ap, o)),
        forall|v: Vec<(Double, Option<bool>)>, jd: Double| #[trigger] summarize.requires((v, jd)),
        forall|e: OrbitalElements, t: Double| #[trigger] geometry_at.requires((e, t)),
        forall|x: Double, y: Double| #[trigger] minus.requires((x, y)),
    ensures
        r@.len() == alerts@.len(),
        forall|i: int|
            0 <= i < alerts@.len() ==> are_properties(
                #[trigger] r@[i],
                alerts@[i],
                orbits@,
                sso_history@,
                baselines@,
                max_separation,
                *prepare,
                *analyze,
                *from_history,
                *activity,
                *summarize,
                *geometry_at,
                *minus,
            ),
{
    let mut out = Vec::new();
    let mut i: usize = 0;
    while i < alerts.len()
        invariant
            i <= alerts.len(),
            out@.len() == i,
            forall|v: Vec<PhotometryMag>| #[trigger] prepare.requires((v,)),
            forall|v: &Vec<PhotometryMag>| #[trigger] analyze.requires((v,)),
            forall|h: &Vec<(Double, Point)>, t: Point, jd: Double, c: Option<&C>|
                #[trigger] from_history.requires((h, t, jd, c)),
            forall|m: Double, ap: Option<Double>, o: Option<O>| #[trigger] activity.requires((m, ap, o)),
            forall|v: Vec<(Double, Option<bool>)>, jd: Double| #[trigger] summarize.requires((v, jd)),
            forall|e: OrbitalElements, t: Double| #[trigger] geometry_at.requires((e, t)),
            forall|x: Double, y: Double| #[trigger] minus.requires((x, y)),
            forall|k: int|
                0 <= k < i ==> are_properties(
                    #[trigger] out@[k],
                    alerts@[k],
                    orbits@,
                    sso_history@,
                    baselines@,
                    max_separation,
                    *prepare,
                    *analyze,
                    *from_history,
                    *activity,
                    *summarize,
                    *geometry_at,
                    *minus,
                ),
        decreases alerts.len() - i,
    {
        out.push(
            get_alert_properties(
                &alerts[i],
                orbits,
                sso_history,
                baselines,
                max_separation,
                prepare,
                analyze,
                from_history,
                activity,
                summarize,
                geometry_at,
                minus,
            ),
        );
        i = i + 1;
    }
    out
}

/// An identified object is one, however far it lies from its predicted position; the
/// deprecated flag drops it from 12" on.
pub proof fn law_association_is_not_thresholded(
    sso: ZtfSsoAssociation,
    c: Candidate,
    name: String,
)
    requires
        association::is_association(sso, c.ssnamenr, c.ssdistnr, c.ssmagnr),
        c.ssnamenr == Some(name),
    ensures
        sso.is_sso,
        sso.designation == Some(name),
        c.ssdistnr matches Some(d) && double::le(Double { bits: 0x4028_0000_0000_0000 }, d)
            ==> !rock(c) && sso.separation_arcsec == c.ssdistnr,
{
}

} // verus!
