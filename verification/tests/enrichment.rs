//! Enrichment: photometry, properties, classification and what is written back.

use boom_ztf::enrichment::alert::{
    AlertCutout, Candidate, LsstMatch, LsstPhotometry, ZtfAlertClassifications,
    ZtfAlertForEnrichment, ZtfCandidate, ZtfSurveyMatches,
};
use boom_ztf::enrichment::association::{
    baselines_from_documents, history_query, orbits_by_name, sso_histories, Point,
};
use boom_ztf::enrichment::classify::{
    check_counts, classify_gpu_batch, classify_per_item, position_index, select_rows, ModelScores,
    Outcome, Row,
};
use boom_ztf::enrichment::photometry::{
    deserialize_ztf_alert_lightcurve, deserialize_ztf_forced_lightcurve, EnrichmentWorkerError,
    PhotometryMag, ZtfAlertPhotometry, ZtfForcedPhotometry, ZtfPhotometry,
};
use boom_ztf::enrichment::pipeline::create_ztf_alert_pipeline;
use boom_ztf::enrichment::properties::{
    batch_properties, flux_signs_of, get_alert_properties, is_near_brightstar, is_rock, is_star,
    light_curve_of, lsst_light_curve_of,
};
use boom_ztf::enrichment::villar::{
    part_fittable, placeholder_fit, to_villar_photometry, villar_lightcurve, villar_updates,
    VillarBand, VillarFit,
};
use boom_ztf::enrichment::worker::{
    collect_work, enriched_items, enrichment_results, to_publish, Enriched, Mode,
    ZtfEnrichmentWorker,
};
use boom_ztf::utils::double::Double;
use boom_ztf::utils::mpcorb::OrbitCache;
use boom_ztf::utils::sso_geometry::{Geometry, OrbitalElements};
use boom_ztf::utils::survey::Survey;
use mongodb::bson::{Bson, Document};
use std::collections::HashMap;

fn d(v: f64) -> Double {
    Double { bits: v.to_bits() }
}

fn f(v: Double) -> f64 {
    f64::from_bits(v.bits)
}

fn s(v: f32) -> Double {
    d(v as f64)
}

/// To a zero point of 23.9, in nJy.
fn scale(flux: Double, zp: Double) -> Double {
    d(f(flux) * 1e9_f64 * 10f64.powf((23.9 - f(zp)) / 2.5))
}

fn point(jd: f64, mag: f64, snr: f64) -> ZtfPhotometry {
    ZtfPhotometry {
        jd: d(jd),
        magpsf: Some(d(mag)),
        sigmapsf: Some(d(0.1)),
        diffmaglim: d(20.0),
        flux: Some(d(100.0)),
        flux_err: d(3.0),
        band: "g".to_string(),
        ra: Some(d(1.0)),
        dec: Some(d(2.0)),
        snr_psf: Some(d(snr)),
        programid: 1,
    }
}

fn forced(status: Option<&str>, zp: Option<f64>, flux: Option<f64>, err: f64) -> ZtfForcedPhotometry {
    ZtfForcedPhotometry {
        jd: d(1.0),
        magpsf: None,
        sigmapsf: None,
        diffmaglim: d(20.0),
        flux: flux.map(d),
        flux_err: d(err),
        band: "r".to_string(),
        magzpsci: zp.map(d),
        ra: None,
        dec: None,
        snr_psf: None,
        snr_legacy: Some(d(7.0)),
        programid: 2,
        procstatus: status.map(|t| t.to_string()),
    }
}

fn candidate() -> Candidate {
    Candidate {
        jd: d(10.0),
        fid: 1,
        programid: 2,
        ra: d(10.0),
        dec: d(20.0),
        magpsf: s(18.0),
        sigmapsf: s(0.05),
        magap: Some(s(18.2)),
        ssnamenr: None,
        ssdistnr: None,
        ssmagnr: None,
        rb: None,
        drb: None,
        sgscore1: None,
        sgscore2: None,
        sgscore3: None,
        distpsnr1: None,
        distpsnr2: None,
        distpsnr3: None,
        srmag1: None,
        srmag2: None,
        srmag3: None,
        sgmag1: None,
        simag1: None,
        szmag1: None,
        neargaiabright: None,
        maggaiabright: None,
    }
}

fn alert(candid: i64) -> ZtfAlertForEnrichment {
    ZtfAlertForEnrichment {
        candid,
        object_id: "ZTF1".to_string(),
        candidate: ZtfCandidate { candidate: candidate() },
        prv_candidates: vec![point(9.0, 18.1, 2.0), point(10.0, 18.2, 9.0), point(11.0, 1.0, 9.0)],
        prv_nondetections: vec![],
        fp_hists: vec![point(8.0, 18.3, -2.9), point(7.0, 18.4, -3.0)],
        survey_matches: None,
    }
}

fn mag(time: f64) -> PhotometryMag {
    PhotometryMag { time: d(time), mag: d(1.0), mag_err: d(0.5), band: "i".to_string() }
}

fn lsst_point(jd: f64) -> LsstPhotometry {
    LsstPhotometry {
        jd: d(jd),
        flux: None,
        flux_err: d(1.0),
        band: "i".to_string(),
        ra: None,
        dec: None,
        point: Some(mag(jd)),
        significant_point: None,
    }
}

fn lsst() -> LsstMatch {
    let mut strong = lsst_point(6.0);
    strong.significant_point = Some(mag(6.5));
    LsstMatch {
        object_id: "L1".to_string(),
        ra: d(1.0),
        dec: d(2.0),
        prv_candidates: vec![lsst_point(5.0), lsst_point(12.0)],
        fp_hists: vec![lsst_point(4.0), strong],
    }
}

#[test]
fn alert_photometry_falls_back_to_the_legacy_noise() {
    let stored = ZtfAlertPhotometry {
        jd: d(1.0),
        magpsf: Some(d(18.0)),
        sigmapsf: None,
        diffmaglim: d(20.5),
        flux: None,
        flux_err: d(2.0),
        band: "g".to_string(),
        ra: Some(d(3.0)),
        dec: None,
        snr_psf: None,
        snr_legacy: Some(d(4.0)),
        programid: 3,
    };
    let mut newer = stored.clone();
    newer.snr_psf = Some(d(5.0));
    let curve = deserialize_ztf_alert_lightcurve(Some(vec![stored, newer]));
    assert_eq!(curve.len(), 2);
    assert_eq!(curve[0].snr_psf, Some(d(4.0)));
    assert_eq!(curve[1].snr_psf, Some(d(5.0)));
    assert_eq!(curve[0].band, "g");
    assert_eq!(curve[0].diffmaglim, d(20.5));
    assert_eq!(curve[0].programid, 3);
    assert!(deserialize_ztf_alert_lightcurve(None).is_empty());
}

#[test]
fn forced_photometry_is_brought_to_the_fixed_zero_point() {
    let p = forced(Some("0"), Some(25.9), Some(2.0), 0.5);
    let out = ZtfPhotometry::try_from_forced(&p, &scale).expect("usable");
    assert_eq!(out.flux, Some(scale(d(2.0), d(25.9))));
    assert_eq!(out.flux_err, scale(d(0.5), d(25.9)));
    assert_eq!(out.snr_psf, Some(d(7.0)));

    for missing in [Some(-99999.0), Some(f64::NAN), None] {
        let p = forced(Some("0"), Some(25.9), missing, 0.5);
        assert_eq!(ZtfPhotometry::try_from_forced(&p, &scale).expect("usable").flux, None);
    }
}

#[test]
fn unusable_forced_photometry_is_left_out() {
    let unprocessed = forced(None, Some(25.9), Some(2.0), 0.5);
    match ZtfPhotometry::try_from_forced(&unprocessed, &scale) {
        Err(EnrichmentWorkerError::Serialization(why)) => assert_eq!(why, "missing procstatus"),
        _ => panic!("no status"),
    }
    let bad = forced(Some("56"), None, Some(2.0), 0.5);
    match ZtfPhotometry::try_from_forced(&bad, &scale) {
        Err(EnrichmentWorkerError::BadProcstatus(status)) => assert_eq!(status, "56"),
        _ => panic!("bad status"),
    }
    let unscaled = forced(Some("0"), None, Some(2.0), -99999.0);
    assert!(matches!(
        ZtfPhotometry::try_from_forced(&unscaled, &scale),
        Err(EnrichmentWorkerError::MissingMagZPSci)
    ));
    for err in [-99999.0, f64::NAN] {
        assert!(matches!(
            ZtfPhotometry::try_from_forced(&forced(Some("0"), Some(25.9), None, err), &scale),
            Err(EnrichmentWorkerError::MissingFluxPSF)
        ));
    }
    let curve = deserialize_ztf_forced_lightcurve(
        Some(vec![unprocessed, forced(Some("0"), Some(25.9), Some(2.0), 0.5), bad, unscaled]),
        &scale,
    );
    assert_eq!(curve.len(), 1);
    assert!(deserialize_ztf_forced_lightcurve(None, &scale).is_empty());
}

#[test]
fn magnitudes_need_signal() {
    let p = point(1.0, 18.123456789, -2.5);
    let m = p.to_photometry_mag(None).expect("no cut");
    assert_eq!(m.time, d(1.0));
    assert_eq!(m.mag, s(18.123456789));
    assert_eq!(m.mag_err, s(0.1));
    assert_eq!(m.band, "g");
    assert!(p.to_photometry_mag(Some(d(3.0))).is_none());
    assert!(p.to_photometry_mag(Some(d(2.5))).is_some());
    let mut without = point(1.0, 18.0, 9.0);
    without.sigmapsf = None;
    assert!(without.to_photometry_mag(None).is_none());
}

#[test]
fn alerts_are_fetched_with_their_auxiliary_data() {
    let plain = create_ztf_alert_pipeline(false);
    assert_eq!(plain.len(), 5);
    let ids = plain[0].get_document("$match").unwrap().get_document("_id").unwrap();
    assert!(ids.get_array("$in").unwrap().is_empty());
    let join = plain[1].get_document("$lookup").unwrap();
    assert_eq!(join.get_str("from").unwrap(), "ZTF_alerts_aux");
    assert_eq!(join.get_str("localField").unwrap(), "objectId");
    let unwind = plain[2].get_document("$unwind").unwrap();
    assert_eq!(unwind.get_bool("preserveNullAndEmptyArrays").unwrap(), false);
    let lsst = plain[3].get_document("$lookup").unwrap();
    assert_eq!(lsst.get_str("localField").unwrap(), "aux.aliases.LSST.0");
    let project = plain[4].get_document("$project").unwrap();
    assert!(!project.contains_key("classifications"));
    let cond = project
        .get_document("survey_matches")
        .and_then(|m| m.get_document("lsst"))
        .and_then(|l| l.get_document("$cond"))
        .unwrap();
    assert_eq!(cond.get("else"), Some(&Bson::Null));
    let ra = cond.get_document("then").unwrap().get_document("ra").unwrap();
    assert_eq!(ra.get_array("$add").unwrap()[1], Bson::Int32(180));

    let full = create_ztf_alert_pipeline(true);
    assert_eq!(full[..4], plain[..4]);
    let project = full[4].get_document("$project").unwrap();
    assert_eq!(project.get_i32("classifications").unwrap(), 1);
    assert_eq!(project.len(), 7);
}

#[test]
fn rocks_lie_within_twelve_arcseconds() {
    let mut c = candidate();
    assert!(!is_rock(&c));
    for (dist, magnitude, rock) in [
        (0.0f32, Some(18.0f32), true),
        (11.999, Some(0.0), true),
        (12.0, Some(18.0), false),
        (-0.5, Some(18.0), false),
        (1.0, Some(-1.0), false),
        (1.0, None, true),
    ] {
        c.ssdistnr = Some(s(dist));
        c.ssmagnr = magnitude.map(s);
        assert_eq!(is_rock(&c), rock, "{} {:?}", dist, magnitude);
    }
}

#[test]
fn stars_are_told_by_score_and_colour() {
    let minus = |a: f32, b: f32| s(a - b);
    let blue = minus(18.0, 17.0);
    let red = minus(18.0, 14.0);
    let mut c = candidate();
    assert!(!is_star(&c, red, red));
    c.sgscore1 = Some(s(0.77));
    c.distpsnr1 = Some(s(2.0));
    assert!(is_star(&c, blue, blue));
    // The threshold is the single-precision number itself.
    c.sgscore1 = Some(s(0.76));
    assert!(!is_star(&c, blue, blue));
    c.sgscore1 = Some(s(0.21));
    c.distpsnr1 = Some(s(1.0));
    c.srmag1 = Some(s(18.0));
    c.szmag1 = Some(s(14.0));
    c.simag1 = Some(s(17.0));
    assert!(is_star(&c, red, blue));
    assert!(is_star(&c, blue, red));
    assert!(!is_star(&c, blue, blue));
    c.sgscore1 = Some(s(0.2));
    assert!(!is_star(&c, red, red));
    c.sgscore1 = Some(s(0.21));
    c.distpsnr1 = Some(s(1.5));
    assert!(!is_star(&c, red, red));
    c.distpsnr1 = Some(s(1.0));
    c.srmag1 = Some(s(-999.0));
    assert!(!is_star(&c, red, red));
}

#[test]
fn bright_stars_close_by_are_found() {
    let mut c = candidate();
    assert!(!is_near_brightstar(&c));
    c.neargaiabright = Some(s(20.0));
    c.maggaiabright = Some(s(12.0));
    assert!(is_near_brightstar(&c));
    c.maggaiabright = Some(s(12.5));
    assert!(!is_near_brightstar(&c));

    let mut c = candidate();
    c.sgscore3 = Some(s(0.5));
    c.distpsnr3 = Some(s(20.0));
    c.srmag3 = Some(s(15.0));
    assert!(is_near_brightstar(&c));
    c.sgscore3 = Some(s(0.49));
    assert!(!is_near_brightstar(&c));

    let mut c = candidate();
    c.sgscore1 = Some(s(0.5));
    c.distpsnr1 = Some(s(0.4));
    c.simag1 = Some(s(16.9));
    assert!(is_near_brightstar(&c));
    c.distpsnr1 = Some(s(0.5));
    assert!(!is_near_brightstar(&c));
}

#[test]
fn light_curves_end_at_the_detection() {
    let a = alert(1);
    let times: Vec<Double> = light_curve_of(&a).iter().map(|p| p.time).collect();
    assert_eq!(times, vec![d(9.0), d(10.0), d(7.0)]);
    let times: Vec<Double> = lsst_light_curve_of(&lsst(), d(10.0)).iter().map(|p| p.time).collect();
    assert_eq!(times, vec![d(5.0), d(6.5)]);
    let mut points = a.prv_candidates.clone();
    points[0].flux = Some(d(-1.0));
    points[1].flux = Some(d(f64::NAN));
    points.push(points[0].clone());
    points[3].flux = None;
    assert_eq!(
        flux_signs_of(&points),
        vec![
            (d(9.0), Some(true)),
            (d(10.0), None),
            (d(11.0), Some(false)),
            (d(9.0), None)
        ]
    );
}

type Properties = Result<
    (
        boom_ztf::enrichment::properties::ZtfAlertProperties<usize, (Double, Option<Double>, Option<usize>), usize>,
        String,
        i32,
        Vec<PhotometryMag>,
    ),
    EnrichmentWorkerError,
>;

fn properties(a: &ZtfAlertForEnrichment, keep: usize) -> Properties {
    let cache = OrbitCache::new();
    let orbits = orbits_by_name(&vec![], cache.elements());
    let histories = sso_histories(&vec![]);
    let baselines = baselines_from_documents(&vec![], &|_: &Document| HashMap::<u8, u8>::new());
    get_alert_properties(
        a,
        &orbits,
        &histories,
        &baselines,
        d(4.0),
        &|mut v: Vec<PhotometryMag>| {
            v.truncate(keep);
            v
        },
        &|v: &Vec<PhotometryMag>| (v.len(), "bands".to_string(), v.len() == 1),
        &|h: &Vec<(Double, Point)>, _: Point, _: Double, _: Option<&u8>| Some(h.len()),
        &|m: Double, ap: Option<Double>, o: Option<usize>| (m, ap, o),
        &|v: Vec<(Double, Option<bool>)>, _: Double| v.len(),
        &|e: OrbitalElements, t: Double| Geometry {
            helio_dist: e.q,
            topo_dist: e.q,
            phase_angle: e.q,
            true_anomaly: e.q,
            perihelion_time: t,
        },
        &|x: Double, y: Double| s(f(x) as f32 - f(y) as f32),
    )
}

#[test]
fn batches_keep_the_order_of_their_alerts() {
    let cache = OrbitCache::new();
    let orbits = orbits_by_name(&vec![], cache.elements());
    let histories = sso_histories(&vec![]);
    let baselines = baselines_from_documents(&vec![], &|_: &Document| HashMap::<u8, u8>::new());
    let mut bare = alert(5);
    bare.prv_candidates.clear();
    bare.fp_hists.clear();
    let outcomes = batch_properties(
        &vec![alert(4), bare, alert(6)],
        &orbits,
        &histories,
        &baselines,
        d(4.0),
        &|v: Vec<PhotometryMag>| v,
        &|v: &Vec<PhotometryMag>| (v.len(), (), false),
        &|h: &Vec<(Double, Point)>, _: Point, _: Double, _: Option<&u8>| Some(h.len()),
        &|m: Double, _: Option<Double>, _: Option<usize>| m,
        &|v: Vec<(Double, Option<bool>)>, _: Double| v.len(),
        &|e: OrbitalElements, t: Double| Geometry {
            helio_dist: e.q,
            topo_dist: e.q,
            phase_angle: e.q,
            true_anomaly: e.q,
            perihelion_time: t,
        },
        &|x: Double, _: Double| x,
    );
    assert_eq!(outcomes.len(), 3);
    assert!(outcomes[0].is_ok() && outcomes[2].is_ok());
    assert!(matches!(outcomes[1], Err(EnrichmentWorkerError::EmptyLightcurve(5))));
}

#[test]
fn properties_come_from_the_light_curves() {
    let mut a = alert(7);
    let (p, bands, programid, curve) = properties(&a, 2).expect("usable");
    assert_eq!(p.photstats, 2);
    assert_eq!(p.multisurvey_photstats, Some(2));
    assert_eq!(bands, "bands");
    assert_eq!(programid, 2);
    assert_eq!(curve.len(), 2);
    assert!(!p.stationary && !p.rock && !p.star && !p.near_brightstar);
    assert_eq!(p.activity, Some((s(18.0), Some(s(18.2)), None)));
    assert_eq!(p.detection_history, Some(3));
    assert_eq!(p.sso.map(|x| x.is_sso), Some(false));

    // The LSST match joins behind, for the statistics over surveys alone.
    a.survey_matches = Some(ZtfSurveyMatches { lsst: Some(lsst()) });
    let (p, _, _, curve) = properties(&a, 1).expect("usable");
    assert_eq!(p.photstats, 1);
    assert!(p.stationary);
    assert_eq!(p.multisurvey_photstats, Some(2));
    assert_eq!(curve.len(), 2);
    assert_eq!(curve[1].band, "i");

    assert!(matches!(properties(&a, 0), Err(EnrichmentWorkerError::EmptyLightcurve(7))));
}

fn cutout(n: u8) -> AlertCutout {
    AlertCutout {
        cutout_science: vec![n],
        cutout_template: vec![n, n],
        cutout_difference: vec![],
    }
}

#[test]
fn empty_light_curves_are_skipped() {
    let cutouts = HashMap::from([(1, cutout(1)), (2, cutout(2)), (3, cutout(3))]);
    let (work, curves) = collect_work(
        vec![alert(3), alert(1), alert(2)],
        cutouts,
        vec![
            Ok(("a", (), 5, 'x')),
            Err(EnrichmentWorkerError::EmptyLightcurve(1)),
            Ok(("b", (), 6, 'y')),
        ],
    )
    .expect("goes on");
    assert_eq!(work.len(), 2);
    assert_eq!((work[0].candid, work[0].programid, work[0].properties), (3, 5, "a"));
    assert_eq!(work[1].cutouts.cutout_science, vec![2]);
    assert_eq!(work[1].alert.candid, 2);
    assert_eq!(curves, vec![(3, 'x'), (2, 'y')]);

    let scores = |v: f64| ZtfAlertClassifications {
        acai_h: d(v),
        acai_n: d(0.0),
        acai_v: d(0.0),
        acai_o: d(0.0),
        acai_b: d(0.0),
        btsbot: d(0.0),
    };
    let single = |key: &str, value: Bson| {
        let mut out = Document::new();
        out.insert(key, value);
        out
    };
    let items = enriched_items(
        &work,
        &vec![None, Some(scores(0.25))],
        &|p: &&str| single("p", Bson::String(p.to_string())),
        &|c: ZtfAlertClassifications| single("h", Bson::Double(f(c.acai_h))),
    );
    assert_eq!((items[0].candid, items[0].programid), (3, 5));
    assert_eq!(items[0].properties.get_str("p").unwrap(), "a");
    assert!(items[0].classifications.is_none());
    assert_eq!((items[1].candid, items[1].programid), (2, 6));
    assert_eq!(items[1].properties.get_str("p").unwrap(), "b");
    assert_eq!(items[1].classifications.as_ref().unwrap().get_f64("h").unwrap(), 0.25);
    let published = to_publish(work);
    assert_eq!(published[0].0.candid, 3);
    assert_eq!(published[1].1, "b");
}

#[test]
fn missing_cutouts_and_failures_end_the_batch() {
    let cutouts = || HashMap::from([(1, cutout(1)), (2, cutout(2))]);
    match collect_work(
        vec![alert(1), alert(1)],
        cutouts(),
        vec![Ok(("a", (), 5, ())), Ok(("b", (), 5, ()))],
    ) {
        Err(EnrichmentWorkerError::MissingCutouts(1)) => {}
        _ => panic!("taken once"),
    }
    match collect_work(
        vec![alert(1), alert(2)],
        cutouts(),
        vec![Ok(("a", (), 5, ())), Err(EnrichmentWorkerError::Service("x".to_string()))],
    ) {
        Err(EnrichmentWorkerError::Service(why)) => assert_eq!(why, "x"),
        _ => panic!("failed"),
    }
}

fn scores(n: usize) -> ModelScores {
    let list = |k: f64| (0..n).map(|i| d(k + i as f64)).collect::<Vec<Double>>();
    ModelScores {
        acai_h: list(100.0),
        acai_n: list(200.0),
        acai_v: list(300.0),
        acai_o: list(400.0),
        acai_b: list(500.0),
        btsbot: list(600.0),
    }
}

#[test]
fn positions_are_found() {
    let map = position_index(&vec![4, 2, 7]);
    assert_eq!(map.len(), 3);
    assert_eq!(map.get(&2), Some(&1));
    assert_eq!(position_index(&vec![5, 5]).get(&5), Some(&1));
    let rows = select_rows(
        4,
        &position_index(&vec![0, 2, 3]),
        &position_index(&vec![3, 2]),
        &position_index(&vec![1, 2, 3]),
    );
    assert_eq!(
        rows,
        vec![
            Row { item: 2, triplet: 1, acai: 1, btsbot: 1 },
            Row { item: 3, triplet: 2, acai: 0, btsbot: 2 }
        ]
    );
}

#[test]
fn batches_are_scored_and_placed() {
    let all = vec![0usize, 1, 2, 3, 4];
    let predict = |rows: &Vec<Row>| {
        assert!(rows.len() <= 2);
        let mut out = scores(2);
        for (i, row) in rows.iter().enumerate() {
            out.acai_h[i] = d(row.item as f64);
        }
        Ok(out)
    };
    let out = classify_gpu_batch(5, &all, &vec![0, 2, 3, 4], &all, 2, &predict).expect("scored");
    assert_eq!(out.len(), 5);
    assert!(out[1].is_none());
    for item in [0usize, 2, 3, 4] {
        assert_eq!(out[item].unwrap().acai_h, d(item as f64));
    }
    assert_eq!(out[2].unwrap().btsbot, d(601.0));
    assert_eq!(out[3].unwrap().btsbot, d(600.0));

    let none = classify_gpu_batch(2, &vec![0], &vec![1], &vec![], 0, &|_: &Vec<Row>| {
        Err(EnrichmentWorkerError::MissingFluxPSF)
    });
    assert_eq!(none.expect("nothing to score"), vec![None, None]);
}

#[test]
fn odd_counts_end_the_batch() {
    let all = vec![0usize, 1, 2];
    let predict = |_: &Vec<Row>| {
        let mut out = scores(2);
        out.acai_o.push(d(1.0));
        out.btsbot.pop();
        Ok(out)
    };
    match classify_gpu_batch(3, &all, &all, &all, 2, &predict) {
        Err(EnrichmentWorkerError::ConfigurationError(why)) => {
            assert_eq!(why, "model acai_o returned 3 scores for 2 padded inputs")
        }
        _ => panic!("odd count"),
    }
    assert!(check_counts(&scores(4), 4).is_ok());
    assert!(check_counts(&scores(4), 3).is_err());
    let failing = |_: &Vec<Row>| Err(EnrichmentWorkerError::Service("gone".to_string()));
    assert!(classify_gpu_batch(3, &all, &all, &all, 2, &failing).is_err());
}

#[test]
fn single_alerts_are_classified() {
    let out = classify_per_item(&vec![
        Outcome::InvalidCutouts,
        Outcome::Scores(scores(1)),
        Outcome::MissingFeatures,
    ])
    .expect("no failure");
    assert!(out[0].is_none() && out[2].is_none());
    assert_eq!(
        out[1],
        Some(ZtfAlertClassifications {
            acai_h: d(100.0),
            acai_n: d(200.0),
            acai_v: d(300.0),
            acai_o: d(400.0),
            acai_b: d(500.0),
            btsbot: d(600.0),
        })
    );
    match classify_per_item(&vec![
        Outcome::Failed("first".to_string()),
        Outcome::Failed("second".to_string()),
    ]) {
        Err(EnrichmentWorkerError::Service(why)) => assert_eq!(why, "first"),
        _ => panic!("failed"),
    }
}

#[test]
fn enriched_alerts_are_written_back() {
    let mut properties = Document::new();
    properties.insert("rock", true);
    let mut classifications = Document::new();
    classifications.insert("acai_h", 0.5);
    let items = vec![
        Enriched {
            candid: 12,
            programid: 1,
            properties: properties.clone(),
            classifications: Some(classifications),
        },
        Enriched { candid: 13, programid: 2, properties, classifications: None },
    ];
    let (updates, processed) = enrichment_results(&items, d(2_460_000.5));
    assert_eq!(processed, vec!["1,12", "2,13"]);
    assert_eq!(updates[0].filter.get_i64("_id").unwrap(), 12);
    let set = updates[0].update.get_document("$set").unwrap();
    let names: Vec<&String> = set.keys().collect();
    assert_eq!(names, ["classifications", "properties", "updated_at"]);
    assert_eq!(set.get_f64("updated_at").unwrap(), 2_460_000.5);
    let set = updates[1].update.get_document("$set").unwrap();
    let names: Vec<&String> = set.keys().collect();
    assert_eq!(names, ["properties", "updated_at"]);
    assert_eq!(set.get_document("properties").unwrap().get_bool("rock").unwrap(), true);
}

#[test]
fn fits_and_placeholders_share_a_schema() {
    let fit = |v: f64| VillarFit {
        reduced_chi2: d(v),
        params: vec![("amplitude_g".to_string(), d(v + 1.0))],
    };
    let placeholder = fit(f64::NAN);
    let fits = vec![fit(1.0)];
    let updates = villar_updates(&vec![5], &vec![6], Some(&fits), &placeholder);
    assert_eq!(updates.len(), 2);
    let set = updates[0].update.get_document("$set").unwrap();
    assert!(set.get_f64("villar_fit.reduced_chi2").unwrap().is_nan());
    assert!(set.get_f64("villar_fit.amplitude_g").unwrap().is_nan());
    assert_eq!(updates[1].filter.get_i64("_id").unwrap(), 6);
    let set = updates[1].update.get_document("$set").unwrap();
    assert_eq!(set.get_f64("villar_fit.amplitude_g").unwrap(), 2.0);
    let failed = villar_updates(&vec![], &vec![6, 7], None, &placeholder);
    assert_eq!(failed.len(), 2);
    assert!(failed[1]
        .update
        .get_document("$set")
        .unwrap()
        .get_f64("villar_fit.reduced_chi2")
        .unwrap()
        .is_nan());
}

#[test]
fn only_g_and_r_are_fitted() {
    let band = |name: &str| PhotometryMag { band: name.to_string(), ..mag(3.0) };
    let g = to_villar_photometry(&band("g")).expect("g is fitted");
    assert_eq!((g.band, g.time, g.mag), (VillarBand::G, d(3.0), mag(3.0).mag));
    assert_eq!(to_villar_photometry(&band("r")).expect("r is fitted").band, VillarBand::R);
    assert_eq!(to_villar_photometry(&band("i")), None);
    let curve = villar_lightcurve(&vec![band("r"), band("i"), band("g")]);
    let bands: Vec<VillarBand> = curve.iter().map(|p| p.band).collect();
    assert_eq!(bands, [VillarBand::R, VillarBand::G]);
    let (failed, candids, prepared) =
        part_fittable(vec![(1, Some('a')), (2, None), (3, Some('b')), (4, None)]);
    assert_eq!((failed, candids, prepared), (vec![2, 4], vec![1, 3], vec!['a', 'b']));
}

#[test]
fn placeholders_name_each_parameter_in_each_band() {
    let bands = vec!["g".to_string(), "r".to_string()];
    let params = vec!["A".to_string(), "beta".to_string()];
    let placeholder = placeholder_fit(&bands, &params);
    assert!(f(placeholder.reduced_chi2).is_nan());
    let names: Vec<&str> = placeholder.params.iter().map(|p| p.0.as_str()).collect();
    assert_eq!(names, ["A_g", "beta_g", "A_r", "beta_r"]);
    assert!(placeholder.params.iter().all(|p| f(p.1).is_nan()));
}

#[test]
fn history_is_read_a_window_back_from_the_earliest_alert() {
    let minus = |a: Double, b: Double| d(f(a) - f(b));
    let mut early = alert(1);
    early.candidate.candidate.jd = d(2_460_000.5);
    early.candidate.candidate.ssnamenr = Some("9816".to_string());
    let mut late = alert(2);
    late.candidate.candidate.jd = d(2_460_001.5);
    late.candidate.candidate.ssnamenr = Some("9816".to_string());
    let filter = history_query(&vec![late, early], d(12.0), &minus).expect("there is an object");
    let names = filter.get_document("candidate.ssnamenr").unwrap().get_array("$in").unwrap();
    assert_eq!(names, &vec![Bson::String("9816".to_string())]);
    let from = filter.get_document("candidate.jd").unwrap().get_f64("$gte").unwrap();
    assert_eq!(from, 2_459_970.5);
    let separation = filter.get_document("candidate.ssdistnr").unwrap();
    assert_eq!(separation.get_f64("$gte").unwrap(), 0.0);
    assert_eq!(separation.get_f64("$lt").unwrap(), 12.0);
    let mut unnamed = alert(3);
    unnamed.candidate.candidate.ssnamenr = None;
    assert!(history_query(&vec![unnamed], d(12.0), &minus).is_none());
}

#[test]
fn workers_know_their_queues() {
    let mut worker = ZtfEnrichmentWorker::new(true, false, Some(64)).expect("configured");
    assert_eq!(ZtfEnrichmentWorker::survey(), Survey::Ztf);
    assert_eq!(worker.input_queue_name(), "ZTF_alerts_enrichment_queue");
    assert_eq!(worker.output_queue_name(), "ZTF_alerts_filter_queue");
    assert_eq!(worker.classify_mode(), Mode::PerItem);
    assert_eq!(worker.alert_pipeline().len(), 5);
    assert!(worker.has_babamul());
    worker.disable_babamul();
    assert!(!worker.has_babamul());
    let batched = ZtfEnrichmentWorker::new(false, true, Some(64)).expect("configured");
    assert_eq!(batched.classify_mode(), Mode::Batches(64));
    assert!(matches!(
        ZtfEnrichmentWorker::new(true, false, None),
        Err(EnrichmentWorkerError::WorkerConfigMissing(Survey::Ztf))
    ));
}
