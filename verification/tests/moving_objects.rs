//! Moving objects: associations, geometry, histories.

use boom_ztf::enrichment::alert::{Candidate, ZtfAlertForEnrichment, ZtfCandidate};
use boom_ztf::enrichment::association::{
    baselines_from_documents, earliest_of, history_filter, history_point, history_projection,
    object_names, orbit_keys, orbits_by_name, outburst_for, scoring_for, sso_histories, Point,
    ZtfSsoAssociation,
};
use boom_ztf::enrichment::properties::{association_of, is_rock};
use boom_ztf::filter::history::{
    fill_document, fill_entry_geometry, fill_sso_history_geometry, sso_history_entries,
    sso_history_keys, wanted_keys,
};
use boom_ztf::utils::comets;
use boom_ztf::utils::calendar::DateTerms;
use boom_ztf::utils::double::Double;
use boom_ztf::utils::mpcorb::{
    fetch_orbits, has_geometry, normalize_ztf_ssnamenr, to_document, MpcorbEntry, OrbitCache,
    GEOMETRY_FIELDS,
};
use boom_ztf::utils::sso_geometry::{Geometry, OrbitalElements, Perihelion};
use mongodb::bson::{Bson, Document};
use std::collections::HashMap;

fn d(v: f64) -> Double {
    Double { bits: v.to_bits() }
}

fn f(v: Double) -> f64 {
    f64::from_bits(v.bits)
}

/// A single-precision number.
fn s(v: f32) -> Double {
    d(v as f64)
}

const GAUSS_K: f64 = 0.017_202_098_95;

fn perihelion(e: OrbitalElements) -> Perihelion {
    let n = GAUSS_K / f(e.a).powf(1.5);
    Perihelion {
        q: d(f(e.a) * (1.0 - f(e.e))),
        tp: d(f(e.epoch_jd) - f(e.mean_anomaly).to_radians() / n),
    }
}

fn true_anomaly(el: &OrbitalElements, jd: f64) -> f64 {
    let (e, q) = (f(el.e), f(el.q));
    let m = (GAUSS_K / (q / (1.0 - e)).powf(1.5) * (jd - f(el.tp)))
        .rem_euclid(2.0 * std::f64::consts::PI);
    let mut x = m + e * m.sin();
    for _ in 0..64 {
        x -= (x - e * x.sin() - m) / (1.0 - e * x.cos());
    }
    2.0 * (((1.0 + e) / (1.0 - e)).sqrt() * (x / 2.0).tan()).atan()
}

/// Two-body geometry of an elliptical orbit, seen from a low-precision Earth.
fn geometry_at(el: OrbitalElements, time: Double) -> Geometry {
    let jd = f(time);
    let nu = true_anomaly(&el, jd);
    let r = f(el.q) * (1.0 + f(el.e)) / (1.0 + f(el.e) * nu.cos());
    let (sp, cp) = (f(el.peri).to_radians() + nu).sin_cos();
    let (sn, cn) = f(el.node).to_radians().sin_cos();
    let (si, ci) = f(el.incl).to_radians().sin_cos();
    let helio = [r * (cp * cn - sp * sn * ci), r * (cp * sn + sp * cn * ci), r * sp * si];

    let t = (jd - 2_451_545.0) / 36_525.0;
    let long = (280.464_66 + 36_000.769_83 * t + 0.000_303_2 * t * t).to_radians();
    let m = (357.529_11 + 35_999.050_29 * t - 0.000_153_7 * t * t).to_radians();
    let e = 0.016_708_634 - 0.000_042_037 * t - 0.000_000_126_7 * t * t;
    let c = ((1.914_602 - 0.004_817 * t - 0.000_014 * t * t) * m.sin()
        + (0.019_993 - 0.000_101 * t) * (2.0 * m).sin()
        + 0.000_289 * (3.0 * m).sin())
    .to_radians();
    let dist = 1.000_001_018 * (1.0 - e * e) / (1.0 + e * (m + c).cos());
    let sun = long + c - (1.397 * t).to_radians();
    let topo = [helio[0] + dist * sun.cos(), helio[1] + dist * sun.sin(), helio[2]];
    let norm = |v: &[f64; 3]| (v[0] * v[0] + v[1] * v[1] + v[2] * v[2]).sqrt();
    let cos = (helio[0] * topo[0] + helio[1] * topo[1] + helio[2] * topo[2])
        / (norm(&helio) * norm(&topo));
    let degrees = nu.to_degrees().rem_euclid(360.0);
    Geometry {
        helio_dist: d(norm(&helio)),
        topo_dist: d(norm(&topo)),
        phase_angle: d(cos.clamp(-1.0, 1.0).acos().to_degrees()),
        true_anomaly: d(if degrees > 180.0 { degrees - 360.0 } else { degrees }),
        perihelion_time: el.tp,
    }
}

fn ceres() -> OrbitalElements {
    OrbitalElements::elliptical(
        d(2_461_200.5),
        d(2.7655526),
        d(0.0796923),
        d(10.58803),
        d(80.24863),
        d(73.29420),
        d(274.41935),
        &perihelion,
    )
}

/// A cache that holds Ceres under "1".
fn cache() -> OrbitCache {
    let keys = vec!["1".to_string()];
    let entry = MpcorbEntry { designation: "1".to_string(), h: None, g: None, elements: ceres() };
    let mut cache = OrbitCache::new();
    let found =
        fetch_orbits(&keys, Ok::<_, String>(vec![to_document(&entry, d(0.0))]), &perihelion);
    assert!(cache.load(keys, found).is_ok());
    cache
}

fn doc(fields: Vec<(&str, Bson)>) -> Document {
    let mut out = Document::new();
    for (k, v) in fields {
        out.insert(k, v);
    }
    out
}

fn text(t: &str) -> Bson {
    Bson::String(t.to_string())
}

fn num(v: f64) -> Bson {
    Bson::Double(v)
}

fn entry(name: &str, jd: f64) -> Document {
    doc(vec![("designation", text(name)), ("jd", num(jd))])
}

fn with_history(entries: Vec<Bson>) -> Document {
    doc(vec![(
        "annotations",
        Bson::Document(doc(vec![
            ("before", Bson::Int32(1)),
            ("sso_history", Bson::Array(entries)),
            ("after", Bson::Int32(2)),
        ])),
    )])
}

/// A document whose history needs the keys of the designations a test entry may carry.
fn needy() -> Vec<Document> {
    vec![with_history(
        ["1", "(1)Ceres", "C/2026O1", "999999"]
            .iter()
            .map(|n| Bson::Document(entry(n, 2_461_272.5)))
            .collect(),
    )]
}

fn candidate() -> Candidate {
    Candidate {
        jd: d(2_460_000.0),
        fid: 1,
        programid: 1,
        ra: d(10.0),
        dec: d(20.0),
        magpsf: s(18.0),
        sigmapsf: s(0.05),
        magap: None,
        ssnamenr: None,
        ssdistnr: None,
        ssmagnr: None,
        rb: None,
        drb: None,
        sgscore1: None,
        sgscore2: None,
        sgscore3: None,
        distpsnr1: None,
        distpsnr2: None,
        distpsnr3: None,
        srmag1: None,
        srmag2: None,
        srmag3: None,
        sgmag1: None,
        simag1: None,
        szmag1: None,
        neargaiabright: None,
        maggaiabright: None,
    }
}

fn alert(name: Option<&str>, jd: f64) -> ZtfAlertForEnrichment {
    let mut c = candidate();
    c.ssnamenr = name.map(|n| n.to_string());
    c.jd = d(jd);
    ZtfAlertForEnrichment {
        candid: 1,
        object_id: "ZTF1".to_string(),
        candidate: ZtfCandidate { candidate: c },
        prv_candidates: vec![],
        prv_nondetections: vec![],
        fp_hists: vec![],
        survey_matches: None,
    }
}

#[test]
fn test_sso_association_populated_when_identified() {
    let sso = ZtfSsoAssociation::from_ipac(Some("9816".to_string()), Some(s(1.0)), Some(s(18.1)));
    assert!(sso.is_sso);
    assert_eq!(sso.designation.as_deref(), Some("9816"));
    assert_eq!(sso.separation_arcsec, Some(s(1.0)));
    assert_eq!(sso.predicted_mag, Some(s(18.1)));
    assert_eq!(sso.source.as_deref(), Some("ipac"));
}

#[test]
fn test_sso_association_absent_when_unidentified() {
    let sso = ZtfSsoAssociation::from_ipac(None, None, None);
    assert!(!sso.is_sso);
    assert!(sso.designation.is_none());
    assert!(sso.separation_arcsec.is_none());
    assert!(sso.source.is_none(), "source is only set when a match was made");
}

// An IPAC designation has to reach the geometry; single precision sets the tolerance.
#[test]
fn test_geometry_populated_when_elements_are_available() {
    let sso = ZtfSsoAssociation::from_ipac(Some("1".to_string()), Some(s(0.4)), Some(s(9.2)))
        .with_geometry(Some(&ceres()), d(2_461_272.5), &geometry_at);

    let helio = f(sso.helio_dist.expect("heliocentric distance"));
    let topo = f(sso.topo_dist.expect("topocentric distance"));
    let phase = f(sso.phase_angle.expect("phase angle"));
    assert!((helio - 2.706853).abs() < 1e-3, "heliocentric distance was {helio}");
    assert!((topo - 3.168905).abs() < 1e-3, "topocentric distance was {topo}");
    assert!((phase - 17.6824).abs() < 0.01, "phase angle was {phase}");
    assert_eq!(helio, helio as f32 as f64);
    assert_eq!(sso.perihelion_time, Some(ceres().tp));
}

// A default would be indistinguishable from a real measurement downstream.
#[test]
fn test_geometry_absent_when_elements_are_missing() {
    let sso = ZtfSsoAssociation::from_ipac(Some("9816".to_string()), Some(s(1.0)), Some(s(18.1)))
        .with_geometry(None, d(2_461_272.5), &geometry_at);
    assert!(sso.is_sso, "the association itself still stands");
    assert!(sso.helio_dist.is_none());
    assert!(sso.topo_dist.is_none());
    assert!(sso.phase_angle.is_none());
}

// IPAC does not write designations the way MPCORB does: guard the join key.
#[test]
fn test_ipac_designations_resolve_to_orbit_keys() {
    let cache = cache();
    let names: Vec<String> =
        ["1", "(1)Ceres", "C/2026O1"].iter().map(|n| n.to_string()).collect();
    let orbits = orbits_by_name(&names, cache.elements());

    for ssnamenr in ["1", "(1)Ceres"] {
        assert!(
            orbits.contains_key(ssnamenr),
            "ssnamenr {ssnamenr} did not resolve to an orbit"
        );
    }
    // A comet resolves to itself; absent here only because this map is Ceres.
    assert_eq!(normalize_ztf_ssnamenr("C/2026O1").as_deref(), Some("C/2026O1"));
    assert!(!orbits.contains_key("C/2026O1"));
}

// Upstream uses -999 for "no match"; stored verbatim it reads as a close match.
#[test]
fn test_negative_sentinels_are_normalised_to_none() {
    let sso = ZtfSsoAssociation::from_ipac(None, Some(s(-999.0)), Some(s(-999.0)));
    assert!(sso.separation_arcsec.is_none());
    assert!(sso.predicted_mag.is_none());
}

// Regression: 12" identifications fell 98.2% to 82.4%; `is_sso` must ignore it.
#[test]
fn test_is_sso_is_not_thresholded_on_separation() {
    let far =
        ZtfSsoAssociation::from_ipac(Some("407033".to_string()), Some(s(18.0)), Some(s(21.6)));
    let mut c = candidate();
    c.ssnamenr = Some("407033".to_string());
    c.ssdistnr = Some(s(18.0));
    c.ssmagnr = Some(s(21.6));

    assert!(!is_rock(&c), "the deprecated rock flag drops this object");
    assert!(far.is_sso, "but it is still an identified solar system object");
    assert_eq!(far.separation_arcsec, Some(s(18.0)));
    assert_eq!(
        far.designation.as_deref(),
        Some("407033"),
        "the grouping key survives, which is what downstream light curves need"
    );
}

/// A detection far from the predicted position belongs to something else,
/// and its brightness would read as a large outburst.
#[test]
fn test_misassociated_detections_are_not_scored() {
    let max_separation = d(4.0);
    let history = sso_histories(&vec![]);
    let baselines = baselines_from_documents(&vec![], &|_: &Document| HashMap::<u8, u8>::new());
    let score = |_: &Vec<(Double, Point)>, _: Point, _: Double, _: Option<&u8>| Some(1u8);
    let candidate = candidate();

    let near = ZtfSsoAssociation::from_ipac(Some("9816".into()), Some(s(0.5)), Some(s(18.1)))
        .with_geometry(None, candidate.jd, &geometry_at);
    assert!(near.separation_arcsec.is_some());

    let far = ZtfSsoAssociation::from_ipac(
        Some("9816".into()),
        Some(s(f(max_separation) as f32 + 1.0)),
        Some(s(18.1)),
    );
    assert!(outburst_for(&far, &candidate, &history, &baselines, max_separation, &score).is_none());

    let unmeasured = ZtfSsoAssociation::from_ipac(Some("9816".into()), None, Some(s(18.1)));
    assert!(
        outburst_for(&unmeasured, &candidate, &history, &baselines, max_separation, &score)
            .is_none()
    );
}

fn stored(name: &str, jd: f64, phase: Bson) -> Document {
    doc(vec![
        (
            "candidate",
            Bson::Document(doc(vec![
                ("ssnamenr", text(name)),
                ("jd", num(jd)),
                ("fid", Bson::Int32(1)),
                ("magpsf", num(18.5)),
                ("sigmapsf", num(0.04)),
            ])),
        ),
        (
            "properties",
            Bson::Document(doc(vec![(
                "sso",
                Bson::Document(doc(vec![
                    ("helio_dist", num(2.5)),
                    ("topo_dist", num(1.6)),
                    ("phase_angle", phase),
                ])),
            )])),
        ),
    ])
}

/// Geometry is what lets a point be scaled to the test epoch, so a detection
/// enriched before geometry existed cannot join the window.
#[test]
fn test_history_point_requires_geometry() {
    let complete = stored("9816", 2_460_000.0, num(12.0));
    let (name, jd, point) = history_point(&complete).expect("complete document");
    assert_eq!(name, "9816");
    assert_eq!(jd, d(2_460_000.0));
    assert_eq!(point.band, 1);
    assert_eq!(point.rh, d(2.5));

    let mut without_geometry = complete.clone();
    without_geometry.insert(
        "properties",
        doc(vec![("sso", Bson::Document(doc(vec![("helio_dist", num(2.5))])))]),
    );
    assert!(history_point(&without_geometry).is_none());

    let mut unenriched = complete.clone();
    unenriched.insert("properties", Document::new());
    assert!(history_point(&unenriched).is_none());
}

/// The geometry fields reach BSON as either double or int depending on the
/// writer, and an integer phase angle is a value the archive really holds.
#[test]
fn test_history_point_accepts_integer_valued_geometry() {
    let mut doc = stored("9816", 2_460_000.0, Bson::Int32(12));
    doc.get_document_mut("candidate").unwrap().insert("fid", Bson::Int32(2));
    let (_, _, point) = history_point(&doc).expect("integer phase angle");
    assert_eq!(point.phase, d(12.0));
}

#[test]
fn detections_are_scored_against_earlier_ones() {
    let docs = vec![
        stored("9816", 2_459_999.0, num(3.0)),
        stored("1", 2_459_990.0, num(4.0)),
        stored("9816", 2_459_998.0, num(5.0)),
        stored("9816", 2_460_000.0, num(6.0)),
        Document::new(),
    ];
    let histories = sso_histories(&docs);
    assert_eq!(histories.len(), 2);
    let times: Vec<Double> = histories.get("9816").unwrap().iter().map(|p| p.0).collect();
    assert_eq!(times, vec![d(2_459_998.0), d(2_459_999.0), d(2_460_000.0)]);

    let mut c = candidate();
    c.ssnamenr = Some("9816".to_string());
    let g = Geometry {
        helio_dist: d(2.5),
        topo_dist: d(1.6),
        phase_angle: d(12.1),
        true_anomaly: d(0.0),
        perihelion_time: d(0.0),
    };
    let sso = ZtfSsoAssociation::from_ipac(c.ssnamenr.clone(), Some(s(0.5)), None)
        .with_geometry_from(g);
    let (history, test) = scoring_for(&sso, &c, &histories, d(4.0)).expect("scored");
    assert_eq!(history.len(), 2);
    assert_eq!(history[0].0, d(2_459_998.0));
    assert_eq!(test.phase, s(12.1));
    assert_eq!(test.mag, s(18.0));
    assert_eq!(test.band, 1);
    // Exactly at the threshold is too far.
    assert!(scoring_for(&sso, &c, &histories, s(0.5)).is_none());

    let curves = vec![
        doc(vec![("_id", text("9816"))]),
        doc(vec![("_id", text("9816")), ("last", Bson::Null)]),
        Document::new(),
    ];
    let baselines = baselines_from_documents(&curves, &|x: &Document| {
        HashMap::from([(1u8, x.contains_key("last"))])
    });
    assert_eq!(baselines.len(), 1);
    let score = |h: &Vec<(Double, Point)>, _: Point, jd: Double, curve: Option<&bool>| {
        Some((h.len(), jd, curve.copied()))
    };
    assert_eq!(
        outburst_for(&sso, &c, &histories, &baselines, d(4.0), &score),
        Some((2, d(2_460_000.0), Some(true)))
    );
    // Without an earlier detection there is nothing to score against.
    let late = sso_histories(&vec![
        stored("9816", 2_460_000.0, num(6.0)),
        stored("9816", 2_460_001.0, num(6.0)),
    ]);
    assert!(scoring_for(&sso, &c, &late, d(4.0)).is_some());
    assert_eq!(outburst_for(&sso, &c, &late, &baselines, d(4.0), &score), None);
    assert_eq!(
        outburst_for(&sso, &c, &sso_histories(&vec![]), &baselines, d(4.0), &score),
        None
    );
    // A redelivery changes nothing.
    let mut more = docs;
    more.push(stored("9816", 2_460_000.0, num(6.0)));
    assert_eq!(
        outburst_for(&sso, &c, &sso_histories(&more), &baselines, d(4.0), &score),
        Some((2, d(2_460_000.0), Some(true)))
    );
}

#[test]
fn perihelion_times_are_those_of_the_elements() {
    let elsewhere = |e: OrbitalElements, jd: Double| Geometry {
        perihelion_time: d(0.0),
        ..geometry_at(e, jd)
    };
    let sso = ZtfSsoAssociation::from_ipac(Some("1".to_string()), None, None).with_geometry(
        Some(&ceres()),
        d(2_461_272.5),
        &elsewhere,
    );
    assert_eq!(sso.perihelion_time, Some(ceres().tp));
}

#[test]
fn batches_are_asked_for_together() {
    let alerts = vec![
        alert(Some("1"), 2_460_002.0),
        alert(None, 2_460_000.5),
        alert(Some("(1)Ceres"), 2_460_001.0),
        alert(Some("1"), f64::NAN),
        alert(Some("nothing"), 2_460_003.0),
    ];
    let names = object_names(&alerts);
    assert_eq!(names, vec!["1", "(1)Ceres", "nothing"]);
    assert_eq!(orbit_keys(&names), vec!["1"]);
    assert_eq!(earliest_of(&alerts), d(2_460_000.5));
    assert_eq!(earliest_of(&vec![]), d(f64::INFINITY));

    let filter = history_filter(&names, d(2_459_970.5), d(4.0));
    let inside = filter.get_document("candidate.ssnamenr").unwrap().get_array("$in").unwrap();
    assert_eq!(inside.len(), 3);
    let since = filter.get_document("candidate.jd").unwrap();
    assert_eq!(since.get_f64("$gte").unwrap(), 2_459_970.5);
    let near = filter.get_document("candidate.ssdistnr").unwrap();
    assert_eq!(near.get_f64("$gte").unwrap(), 0.0);
    assert_eq!(near.get_f64("$lt").unwrap(), 4.0);
    let projection = history_projection();
    assert_eq!(projection.len(), 10);
    assert_eq!(projection.get_i32("_id").unwrap(), 0);
    assert_eq!(projection.get_i32("properties.sso.phase_angle").unwrap(), 1);

    let cache = cache();
    let orbits = orbits_by_name(&names, cache.elements());
    assert_eq!(orbits.len(), 2);
    let c = &alerts[2].candidate.candidate;
    let sso = association_of(c, &orbits, &geometry_at);
    assert!(sso.helio_dist.is_some());
    let sso = association_of(&alerts[4].candidate.candidate, &orbits, &geometry_at);
    assert!(sso.is_sso && sso.helio_dist.is_none());
}

// The archive pre-dates enrichment writing geometry, so most history points
// arrive bare and have to be derived from the elements.
#[test]
fn test_bare_history_point_gets_geometry() {
    let (keys, cache) = (sso_history_keys(&needy()), cache());
    let mut entry = entry("1", 2_461_272.5);
    entry.insert("magpsf", 9.1);
    assert!(fill_entry_geometry(&mut entry, &keys, cache.elements(), &geometry_at));

    // Matches the Horizons-validated values.
    assert!((entry.get_f64("helio_dist").unwrap() - 2.706853).abs() < 1e-3);
    assert!((entry.get_f64("topo_dist").unwrap() - 3.168905).abs() < 1e-3);
    assert!((entry.get_f64("phase_angle").unwrap() - 17.6824).abs() < 0.01);
}

// A point enriched with geometry keeps it: recomputing would re-derive the
// same number from the same elements, and overwriting hides the provenance.
#[test]
fn test_stored_geometry_is_not_overwritten() {
    let (keys, cache) = (sso_history_keys(&needy()), cache());
    let mut entry = entry("1", 2_461_272.5);
    entry.insert("helio_dist", 1.0_f64);
    entry.insert("topo_dist", 2.0_f64);
    entry.insert("phase_angle", 3.0_f64);
    assert!(!fill_entry_geometry(&mut entry, &keys, cache.elements(), &geometry_at));
    assert_eq!(entry.get_f64("helio_dist").unwrap(), 1.0);
}

// An object with no elements (a comet, say) must stay bare rather than pick
// up someone else's geometry.
#[test]
fn test_unknown_object_stays_bare() {
    let (keys, cache) = (sso_history_keys(&needy()), cache());
    let mut comet = entry("C/2026O1", 2_461_272.5);
    assert!(!fill_entry_geometry(&mut comet, &keys, cache.elements(), &geometry_at));
    assert!(comet.get_f64("helio_dist").is_err());

    let mut absent = entry("999999", 2_461_272.5);
    assert!(!fill_entry_geometry(&mut absent, &keys, cache.elements(), &geometry_at));
    assert!(absent.get_f64("helio_dist").is_err());
}

// Geometry is a function of the point's own epoch; giving every point the
// same value would defeat the scaling it exists for.
#[test]
fn test_each_point_gets_its_own_epoch() {
    let (keys, cache) = (sso_history_keys(&needy()), cache());
    let mut a = entry("1", 2_461_272.5);
    let mut b = entry("1", 2_461_202.5);
    fill_entry_geometry(&mut a, &keys, cache.elements(), &geometry_at);
    fill_entry_geometry(&mut b, &keys, cache.elements(), &geometry_at);
    assert_ne!(a.get_f64("helio_dist").unwrap(), b.get_f64("helio_dist").unwrap());
}

// The designation is what carries across the two eras, so a history entry
// written in the "(100)Hekate" era must still resolve.
#[test]
fn test_legacy_designation_form_resolves() {
    let history = with_history(vec![Bson::Document(entry("(1)Ceres", 2_461_272.5))]);
    assert_eq!(
        sso_history_keys(&vec![history]).get("(1)Ceres").map(String::as_str),
        Some("1")
    );

    let (keys, cache) = (sso_history_keys(&needy()), cache());
    let mut entry = entry("(1)Ceres", 2_461_272.5);
    assert!(fill_entry_geometry(&mut entry, &keys, cache.elements(), &geometry_at));
}

// A point that already carries geometry needs no elements, and one whose
// designation has no MPCORB form cannot be looked up.
#[test]
fn test_only_bare_resolvable_points_are_queried() {
    let mut full = entry("2", 2_461_272.5);
    full.insert("helio_dist", 1.0_f64);
    full.insert("topo_dist", 2.0_f64);
    full.insert("phase_angle", 3.0_f64);
    let history = with_history(vec![
        Bson::Document(entry("1", 2_461_272.5)),
        Bson::Document(entry("C/2026O1", 2_461_272.5)),
        Bson::Document(full),
    ]);
    // The comet resolves too: it keys on its own designation.
    let keys = sso_history_keys(&vec![history]);
    assert_eq!(keys.len(), 2);
    assert_eq!(keys.get("1").map(String::as_str), Some("1"));
    assert_eq!(keys.get("C/2026O1").map(String::as_str), Some("C/2026O1"));
}

// A partially written block is completed rather than treated as done.
#[test]
fn test_partial_geometry_is_completed() {
    let (keys, cache) = (sso_history_keys(&needy()), cache());
    let mut entry = entry("1", 2_461_272.5);
    entry.insert("helio_dist", 1.0_f64);
    assert!(fill_entry_geometry(&mut entry, &keys, cache.elements(), &geometry_at));
    assert!(entry.get_f64("topo_dist").is_ok());
    assert!(entry.get_f64("phase_angle").is_ok());
    assert!(has_geometry(&entry));
    assert_eq!(GEOMETRY_FIELDS, ["helio_dist", "topo_dist", "phase_angle"]);
    // In place: the fields keep their order.
    let names: Vec<&String> = entry.keys().collect();
    assert_eq!(names, ["designation", "jd", "helio_dist", "topo_dist", "phase_angle"]);
}

#[test]
fn entries_without_an_epoch_stay_bare() {
    let (keys, cache) = (sso_history_keys(&needy()), cache());
    let mut undated = doc(vec![("designation", text("1"))]);
    assert!(!fill_entry_geometry(&mut undated, &keys, cache.elements(), &geometry_at));
    let mut counted = doc(vec![("designation", text("1")), ("jd", Bson::Int32(2_461_272))]);
    assert!(!fill_entry_geometry(&mut counted, &keys, cache.elements(), &geometry_at));
    let mut unnamed = doc(vec![("jd", num(2_461_272.5))]);
    assert!(!fill_entry_geometry(&mut unnamed, &keys, cache.elements(), &geometry_at));
}

#[test]
fn histories_are_filled_in_place() {
    let mut docs = needy();
    docs.push(doc(vec![("annotations", text("none"))]));
    docs.push(with_history(vec![Bson::Int32(3), Bson::Document(entry("1", 2_461_202.5))]));
    assert_eq!(sso_history_entries(&docs[0]).len(), 4);
    assert_eq!(sso_history_entries(&docs[1]).len(), 0);
    assert_eq!(sso_history_entries(&docs[2]).len(), 1);
    assert_eq!(wanted_keys(&docs), vec!["1", "C/2026O1", "999999"]);

    let keys = sso_history_keys(&docs);
    let cache = cache();
    let filled = fill_sso_history_geometry(docs.clone(), &keys, cache.elements(), &geometry_at);
    assert_eq!(filled.len(), 3);
    assert_eq!(filled[1], docs[1]);
    let entries = sso_history_entries(&filled[0]);
    assert!(has_geometry(entries[0]) && has_geometry(entries[1]));
    assert!(!has_geometry(entries[2]) && !has_geometry(entries[3]));
    let annotations = filled[2].get_document("annotations").unwrap();
    let names: Vec<&String> = annotations.keys().collect();
    assert_eq!(names, ["before", "sso_history", "after"]);
    assert_eq!(annotations.get_array("sso_history").unwrap()[0], Bson::Int32(3));

    let mut once = docs[0].clone();
    assert_eq!(fill_document(&mut once, &keys, cache.elements(), &geometry_at), 2);
    assert_eq!(once, filled[0]);
    assert_eq!(fill_document(&mut once, &keys, cache.elements(), &geometry_at), 0);
}

const NEARLY_PARABOLIC: &str = "    CJ47X01b  1947 10 21.2095  0.124034  0.999440  196.9183  338.0351  140.7380  20260905   9.0  4.0  C/1947 X1-B (Southern comet)";
const HALLEY: &str = "0001P         2061 08  2.8739  0.571098  0.968021  112.1899   59.2896  162.1880  20260905   5.5  3.2  1P/Halley";

fn comet(line: &str) -> comets::CometEntry {
    let number = |t: &str| t.parse::<f64>().ok().map(d);
    let date = |t: DateTerms, day: Double| {
        d(t.year_days as f64 + t.month_days as f64 + f(day) + t.correction as f64 - 1524.5)
    };
    let axis = |q: Double, e: Double| d(f(q) / (1.0 - f(e)));
    comets::parse_line(line, &number, &date, &axis).expect("parses")
}

#[test]
fn test_a_near_parabolic_comet_parses_and_propagates() {
    let c = comet(NEARLY_PARABOLIC);
    assert!(f(c.elements.e) > 0.999);

    let g = geometry_at(c.elements, c.elements.tp);
    assert!(
        (f(g.helio_dist) - f(c.elements.q)).abs() < 1e-4,
        "at perihelion r was {} against q {}",
        f(g.helio_dist),
        f(c.elements.q)
    );
    assert!(true_anomaly(&c.elements, f(c.elements.tp)).abs() < 1e-6);
}

/// True anomaly is signed about perihelion, and the perihelion time matches the
/// element set.
#[test]
fn test_geometry_reports_perihelion_axes() {
    let c = comet(HALLEY);
    let tp = f(c.elements.tp);
    let at = |jd: f64| {
        ZtfSsoAssociation::from_ipac(Some("1P".to_string()), None, None).with_geometry(
            Some(&c.elements),
            d(jd),
            &geometry_at,
        )
    };

    let at_perihelion = at(tp);
    assert!(f(at_perihelion.true_anomaly.unwrap()).abs() < 1e-4);
    assert!((f(at_perihelion.perihelion_time.unwrap()) - tp).abs() < 1e-9);

    // Inbound is negative, outbound positive, so the legs separate.
    assert!(f(at(tp - 400.0).true_anomaly.unwrap()) < 0.0);
    assert!(f(at(tp + 400.0).true_anomaly.unwrap()) > 0.0);

    // And the object is further out on both sides than at perihelion.
    assert!(f(at(tp - 400.0).helio_dist.unwrap()) > f(c.elements.q));
    assert!(f(at(tp + 400.0).helio_dist.unwrap()) > f(c.elements.q));
}
