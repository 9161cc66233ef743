//! Filters: their pipelines, who may see what, and what is published.

use boom_ztf::enrichment::alert::{
    AlertCutout, Candidate, LsstMatch, LsstPhotometry, ZtfAlertClassifications, ZtfCandidate,
    ZtfSurveyMatches,
};
use boom_ztf::enrichment::photometry::ZtfPhotometry;
use boom_ztf::filter::alerts::{
    build_ztf_alerts, FilterResults, FilterWorkerError, Origin, ZtfAlertEnriched,
};
use boom_ztf::filter::pipeline::{
    build_ztf_aux_data, build_ztf_filter_pipeline, field_uses, insert_ztf_aux_pipeline_if_needed,
    FilterError, LsstAux,
};
use boom_ztf::filter::worker::{
    alerts_by_programid, filter_results, results_by_candid, LoadedFilter, ZtfFilterWorker,
};
use boom_ztf::utils::double::Double;
use boom_ztf::utils::survey::{Permissions, Survey};
use mongodb::bson::{Bson, Document};
use std::collections::HashMap;

fn d(v: f64) -> Double {
    Double { bits: v.to_bits() }
}

fn pipeline_from(json: &str) -> Vec<serde_json::Value> {
    serde_json::from_str(json).unwrap()
}

fn ztf(programs: Vec<i32>) -> Permissions {
    Permissions { ztf: Some(programs), lsst: Some(vec![7]) }
}

fn valid(_: &Vec<serde_json::Value>) -> Result<(), FilterError> {
    Ok(())
}

/// The first stage that mentions a field.
fn uses_field(stages: &Vec<serde_json::Value>, field: &str) -> Option<usize> {
    stages.iter().position(|s| s.to_string().contains(field))
}

const HISTORY: &str = r#"[{"$match": {"sso_history.0": {"$exists": true}}},
                 {"$project": {"objectId": 1, "candid": 1}}]"#;

fn timeseries(path: &str, time: &str, days: i32, conditions: Vec<Document>) -> Bson {
    let mut out = Document::new();
    out.insert("path", path);
    out.insert("time", time);
    out.insert("days", days);
    out.insert("conditions", Bson::Array(conditions.into_iter().map(Bson::Document).collect()));
    Bson::Document(out)
}

fn first(path: &str) -> Bson {
    Bson::String(format!("first of {}", path))
}

fn no_lsst(aliases: Option<usize>, _: &Vec<serde_json::Value>) -> LsstAux {
    LsstAux { use_aliases_index: aliases, stages: vec![] }
}

fn build(json: &str, perms: Vec<i32>) -> Vec<Document> {
    build_ztf_filter_pipeline(
        &pipeline_from(json),
        &ztf(perms),
        d(4.0),
        &valid,
        &uses_field,
        &no_lsst,
        &timeseries,
        &first,
    )
    .unwrap()
}

fn with_history(perms: Vec<i32>) -> Vec<Document> {
    build(HISTORY, perms)
}

fn has_sso_lookup(pipeline: &[Document]) -> bool {
    pipeline.iter().any(|s| {
        s.get_document("$lookup").ok().and_then(|l| l.get_str("as").ok()) == Some("sso_history")
    })
}

#[test]
fn test_sso_history_lookup_injected_only_when_referenced() {
    let without = build(
        r#"[{"$match": {"candidate.drb": {"$gt": 0.5}}},
                 {"$project": {"objectId": 1, "candid": 1}}]"#,
        vec![1],
    );
    assert!(!has_sso_lookup(&without), "no lookup unless referenced");
    assert_eq!(without.len(), 4);
    assert!(has_sso_lookup(&with_history(vec![1])), "referencing sso_history injects it");
}

// Joins on designation, never objectId: objectId is positional, so a moving
// object gets a new one on nearly every detection.
#[test]
fn test_sso_history_joins_on_designation() {
    let pipeline = with_history(vec![1]);
    let lookup = pipeline
        .iter()
        .find_map(|s| s.get_document("$lookup").ok())
        .expect("lookup present");
    let rendered = format!("{:?}", lookup);

    // Outer key normalised, inner key raw: the raw field covers the whole
    // archive, so no backfill is needed for history to reach back.
    assert!(rendered.contains("properties.sso.designation"));
    assert!(rendered.contains("candidate.ssnamenr"));
    assert!(!rendered.contains("objectId"), "must not join on the positional objectId");
    assert_eq!(lookup.get_str("from").unwrap(), "ZTF_alerts");
}

// The window points are what a scaling statistic consumes, so each one has to
// carry its own geometry -- the alert's own values describe only the last
// point in the window.
#[test]
fn test_sso_history_carries_per_point_geometry() {
    let pipeline = with_history(vec![1]);
    let lookup = pipeline
        .iter()
        .find_map(|s| s.get_document("$lookup").ok())
        .expect("lookup present");
    let projection = lookup
        .get_array("pipeline")
        .expect("inner pipeline")
        .iter()
        .find_map(|s| s.as_document()?.get_document("$project").ok())
        .expect("projection present");

    for field in ["helio_dist", "topo_dist", "phase_angle"] {
        assert_eq!(
            projection.get_str(field).ok(),
            Some(format!("$properties.sso.{}", field).as_str()),
            "{field} must come from the history entry, not the outer alert"
        );
    }
    // Without jd the geometry cannot be matched to a photometry point.
    assert!(projection.contains_key("jd"));
    assert!(projection.contains_key("magpsf"));
}

// Alerts with no designation (old alerts, or no MPC match) are dropped before
// the lookup rather than running it to build an empty array.
#[test]
fn test_designation_match_precedes_the_lookup() {
    let pipeline = with_history(vec![1]);
    let lookup_at = pipeline
        .iter()
        .position(|s| s.get_document("$lookup").is_ok())
        .expect("lookup present");
    let guard_at = pipeline
        .iter()
        .position(|s| {
            s.get_document("$match")
                .ok()
                .is_some_and(|m| m.contains_key("properties.sso.designation"))
        })
        .expect("designation guard present");

    assert!(guard_at < lookup_at, "guard must run before the lookup");
}

// A filter must not see programids it lacks permission for.
#[test]
fn test_sso_history_respects_permissions() {
    let pipeline = with_history(vec![1, 2]);
    let lookup = pipeline
        .iter()
        .find_map(|s| s.get_document("$lookup").ok())
        .expect("lookup present");
    let rendered = format!("{:?}", lookup);
    assert!(rendered.contains("candidate.programid"));
}

#[test]
fn histories_reach_back_a_year() {
    let pipeline = with_history(vec![1, 2]);
    let conditions = pipeline[3]
        .get_document("$lookup")
        .unwrap()
        .get_array("pipeline")
        .unwrap()[0]
        .as_document()
        .unwrap()
        .get_document("$match")
        .and_then(|m| m.get_document("$expr"))
        .and_then(|e| e.get_array("$and"))
        .unwrap()
        .clone();
    assert_eq!(conditions.len(), 6);
    let since = conditions[1].as_document().unwrap().get_array("$gte").unwrap();
    let minus = since[1].as_document().unwrap().get_array("$subtract").unwrap();
    assert_eq!(minus[1], Bson::Double(365.0));
    let allowed = conditions[3].as_document().unwrap().get_array("$in").unwrap();
    assert_eq!(allowed[1], Bson::Array(vec![Bson::Int32(1), Bson::Int32(2)]));
    let near = conditions[5].as_document().unwrap().get_array("$lt").unwrap();
    assert_eq!(near[1], Bson::Double(4.0));
}

#[test]
fn auxiliary_data_is_joined_where_it_is_first_used() {
    let stages = r#"[{"$match": {"a": 1}}, {"$match": {"b": 2, "fp_hists.0": 1}},
        {"$match": {"c": 3, "prv_candidates.0": 1, "cross_matches.x": 1}}]"#;
    let lsst = |aliases: Option<usize>, _: &Vec<serde_json::Value>| {
        assert_eq!(aliases, None);
        let mut stage = Document::new();
        stage.insert("lsst", 1);
        LsstAux { use_aliases_index: Some(2), stages: vec![stage] }
    };
    let uses = field_uses(&pipeline_from(stages), &uses_field);
    assert_eq!((uses.prv_candidates, uses.fp_hists), (Some(2), Some(1)));
    assert_eq!(uses.cross_matches, Some(2));
    assert_eq!((uses.prv_nondetections, uses.aliases, uses.sso_history), (None, None, None));
    let pipeline = build_ztf_filter_pipeline(
        &pipeline_from(stages),
        &ztf(vec![1, 3]),
        d(4.0),
        &valid,
        &uses_field,
        &lsst,
        &timeseries,
        &first,
    )
    .unwrap();
    assert_eq!(pipeline.len(), 8);
    assert_eq!(pipeline[2].get_document("$match").unwrap().get_i64("a").unwrap(), 1);
    let join = pipeline[3].get_document("$lookup").unwrap();
    assert_eq!(join.get_str("as").unwrap(), "aux");
    let added = pipeline[4].get_document("$addFields").unwrap();
    let names: Vec<&String> = added.keys().collect();
    assert_eq!(names, ["aux", "prv_candidates", "fp_hists", "cross_matches", "aliases"]);
    assert_eq!(added.get("aux"), Some(&Bson::Null));
    let series = added.get_document("fp_hists").unwrap();
    assert_eq!(series.get_str("path").unwrap(), "aux.fp_hists");
    assert_eq!(series.get_str("time").unwrap(), "candidate.jd");
    assert_eq!(series.get_i32("days").unwrap(), 365);
    let condition = series.get_array("conditions").unwrap()[0].as_document().unwrap();
    assert_eq!(
        condition.get_array("$in").unwrap().clone(),
        vec![
            Bson::String("$$x.programid".to_string()),
            Bson::Array(vec![Bson::Int32(1), Bson::Int32(3)])
        ]
    );
    assert_eq!(added.get_str("aliases").unwrap(), "first of aux.aliases");
    assert!(pipeline[5].contains_key("lsst"));
    assert_eq!(pipeline[7].get_document("$match").unwrap().get_i64("c").unwrap(), 3);
}

#[test]
fn filters_that_cannot_run_are_refused() {
    let stages = pipeline_from(r#"[{"$match": {"a": 1}}, 3]"#);
    let none = Permissions { ztf: None, lsst: Some(vec![1]) };
    let run = |perms: &Permissions, aliases: Option<usize>| {
        build_ztf_filter_pipeline(
            &stages,
            perms,
            d(4.0),
            &valid,
            &uses_field,
            &|_: Option<usize>, _: &Vec<serde_json::Value>| LsstAux {
                use_aliases_index: aliases,
                stages: vec![],
            },
            &timeseries,
            &first,
        )
    };
    let refused = |_: &Vec<serde_json::Value>| {
        Err(FilterError::InvalidFilterPipeline("no projection".to_string()))
    };
    match build_ztf_filter_pipeline(
        &stages,
        &none,
        d(4.0),
        &refused,
        &uses_field,
        &no_lsst,
        &timeseries,
        &first,
    ) {
        Err(FilterError::InvalidFilterPipeline(why)) => assert_eq!(why, "no projection"),
        _ => panic!("not valid"),
    }
    match run(&none, None) {
        Err(FilterError::InvalidFilterPipeline(why)) => {
            assert_eq!(why, "No ZTF permissions found for the filter")
        }
        _ => panic!("no permissions"),
    }
    match run(&ztf(vec![1]), Some(usize::MAX)) {
        Err(FilterError::InvalidFilterPipeline(why)) => {
            assert_eq!(why, "could not determine where to insert aux pipeline")
        }
        _ => panic!("nowhere"),
    }
    assert!(matches!(run(&ztf(vec![1]), None), Err(FilterError::Serialization)));
}

#[test]
fn other_surveys_join_ztf_data() {
    let update = |at: Option<usize>, users: Vec<Option<usize>>| {
        users.into_iter().flatten().chain(at).min()
    };
    let none = Permissions { ztf: None, lsst: None };
    let used = pipeline_from(r#"[{"a": 1}, {"b": 1}, {"ZTF.prv_candidates": 1}]"#);
    let (aliases, insert, fields) =
        build_ztf_aux_data(Some(4), &used, &none, &uses_field, &timeseries, &update);
    assert_eq!(aliases, Some(2));
    assert!(insert);
    let names: Vec<&String> = fields.keys().collect();
    assert_eq!(names, ["ztf_aux", "ZTF.prv_candidates"]);
    let series = fields.get_document("ZTF.prv_candidates").unwrap();
    assert_eq!(series.get_str("path").unwrap(), "ztf_aux.prv_candidates");
    let condition = series.get_array("conditions").unwrap()[0].as_document().unwrap();
    // Public data by default.
    assert_eq!(condition.get_array("$in").unwrap()[1], Bson::Array(vec![Bson::Int32(1)]));

    let unused = pipeline_from(r#"[{"prv_candidates": 1}]"#);
    let (_, insert, fields) =
        build_ztf_aux_data(None, &unused, &none, &uses_field, &timeseries, &update);
    assert!(!insert);
    assert_eq!(fields.len(), 1);

    let mut pipeline = vec![Document::new()];
    let mut needed = true;
    insert_ztf_aux_pipeline_if_needed(&mut pipeline, &mut needed, &fields);
    assert!(!needed);
    assert_eq!(pipeline.len(), 3);
    let join = pipeline[1].get_document("$lookup").unwrap();
    assert_eq!(join.get_str("localField").unwrap(), "aliases.ZTF.0");
    assert_eq!(pipeline[2].get_document("$addFields").unwrap(), &fields);
    insert_ztf_aux_pipeline_if_needed(&mut pipeline, &mut needed, &fields);
    assert_eq!(pipeline.len(), 3);
}

fn filter(id: &str, permissions: Option<Vec<i32>>) -> LoadedFilter {
    LoadedFilter {
        id: id.to_string(),
        name: format!("name {}", id),
        pipeline: vec![],
        permissions: Permissions { ztf: permissions, lsst: Some(vec![1]) },
    }
}

#[test]
fn filters_run_where_they_are_permitted() {
    let mut worker = ZtfFilterWorker::new(vec![
        filter("a", Some(vec![1, 2])),
        filter("b", None),
        filter("c", Some(vec![2])),
    ]);
    assert_eq!(ZtfFilterWorker::survey(), Survey::Ztf);
    assert_eq!(worker.input_queue_name(), "ZTF_alerts_filter_queue");
    assert_eq!(worker.output_topic_name(), "ZTF_alerts_results");
    assert_eq!(worker.alert_pipeline().len(), 5);
    assert!(worker.has_filters());
    let ids = |w: &ZtfFilterWorker, p: i32| {
        w.filters_for(p).map(|v| v.iter().map(|f| f.id.clone()).collect::<Vec<String>>())
    };
    assert_eq!(ids(&worker, 1), Some(vec!["a".to_string()]));
    assert_eq!(ids(&worker, 2), Some(vec!["a".to_string(), "c".to_string()]));
    assert_eq!(ids(&worker, 3), None);
    worker.refresh_filters(vec![]);
    assert!(!worker.has_filters());
    assert_eq!(ids(&worker, 1), None);
}

#[test]
fn alerts_are_grouped_by_program() {
    let map = alerts_by_programid(&vec![Some((1, 10)), None, Some((2, 20)), Some((1, 11))]);
    assert_eq!(map.len(), 2);
    assert_eq!(map.get(&1), Some(&vec![10, 11]));
    assert_eq!(map.get(&2), Some(&vec![20]));
}

#[test]
fn results_carry_their_annotations() {
    let mut annotations = Document::new();
    annotations.insert("magnitude", 18.5);
    annotations.insert("name", "x");
    let mut annotated = Document::new();
    annotated.insert("_id", 12i64);
    annotated.insert("annotations", annotations);
    let mut plain = Document::new();
    plain.insert("_id", 13i64);
    let mut nameless = Document::new();
    nameless.insert("_id", 13i32);

    let f = filter("a", None);
    let results = filter_results(&f, &vec![annotated, plain.clone()], d(5.0)).expect("results");
    assert_eq!(results[0].0, 12);
    assert_eq!(results[0].1.annotations, r#"{"magnitude":18.5,"name":"x"}"#);
    assert_eq!(results[0].1.filter_name, "name a");
    assert_eq!(results[0].1.passed_at, d(5.0));
    assert_eq!(results[1].1.annotations, "{}");
    assert!(matches!(
        filter_results(&f, &vec![plain, nameless], d(5.0)),
        Err(FilterWorkerError::MissingCandid)
    ));

    let grouped = results_by_candid(results);
    assert_eq!(grouped.len(), 2);
    assert_eq!(grouped.get(&12).unwrap()[0].filter_id, "a");
}

fn point(jd: f64, flux: f64, band: &str) -> ZtfPhotometry {
    ZtfPhotometry {
        jd: d(jd),
        magpsf: None,
        sigmapsf: None,
        diffmaglim: d(20.0),
        flux: Some(d(flux)),
        flux_err: d(3.0),
        band: band.to_string(),
        ra: Some(d(1.0)),
        dec: Some(d(2.0)),
        snr_psf: None,
        programid: 2,
    }
}

fn lsst_point(jd: f64) -> LsstPhotometry {
    LsstPhotometry {
        jd: d(jd),
        flux: Some(d(9.0)),
        flux_err: d(1.0),
        band: "i".to_string(),
        ra: Some(d(4.0)),
        dec: Some(d(5.0)),
        point: None,
        significant_point: None,
    }
}

fn enriched(candid: i64) -> ZtfAlertEnriched {
    ZtfAlertEnriched {
        candid,
        object_id: format!("ZTF{}", candid),
        candidate: ZtfCandidate {
            candidate: Candidate {
                jd: d(10.0),
                fid: 1,
                programid: 2,
                ra: d(30.0),
                dec: d(40.0),
                magpsf: d(18.0),
                sigmapsf: d(0.05),
                magap: None,
                ssnamenr: None,
                ssdistnr: None,
                ssmagnr: None,
                rb: Some(d(0.5)),
                drb: None,
                sgscore1: Some(d(0.25)),
                sgscore2: None,
                sgscore3: None,
                distpsnr1: Some(d(3.0)),
                distpsnr2: None,
                distpsnr3: None,
                srmag1: None,
                srmag2: None,
                srmag3: None,
                sgmag1: None,
                simag1: None,
                szmag1: None,
                neargaiabright: None,
                maggaiabright: None,
            },
        },
        classifications: Some(ZtfAlertClassifications {
            acai_h: d(1.0),
            acai_n: d(2.0),
            acai_v: d(3.0),
            acai_o: d(4.0),
            acai_b: d(5.0),
            btsbot: d(6.0),
        }),
        prv_candidates: vec![point(5.0, 1.0, "g"), point(3.0, 2.0, "r")],
        prv_nondetections: vec![point(4.0, 3.0, "g"), point(5.0, 4.0, "i")],
        fp_hists: vec![point(3.0, 5.0, "g"), point(1.0, 6.0, "g")],
        survey_matches: Some(ZtfSurveyMatches {
            lsst: Some(LsstMatch {
                object_id: "L".to_string(),
                ra: d(7.0),
                dec: d(8.0),
                prv_candidates: vec![lsst_point(2.0)],
                fp_hists: vec![lsst_point(1.0)],
            }),
        }),
    }
}

fn cutout(n: u8) -> AlertCutout {
    AlertCutout {
        cutout_science: vec![n],
        cutout_template: vec![n, n],
        cutout_difference: vec![n, n, n],
    }
}

fn results(candids: &[i64]) -> HashMap<i64, Vec<FilterResults>> {
    let one = || FilterResults {
        filter_id: "f".to_string(),
        filter_name: "n".to_string(),
        passed_at: d(1.0),
        annotations: "{}".to_string(),
    };
    candids.iter().map(|c| (*c, vec![one()])).collect()
}

#[test]
fn alerts_are_put_together() {
    let alerts = build_ztf_alerts(
        &results(&[1]),
        vec![enriched(1), enriched(2)],
        HashMap::from([(1, cutout(1)), (2, cutout(2))]),
    )
    .expect("whole");
    assert_eq!(alerts.len(), 2);
    let a = &alerts[0];
    assert_eq!((a.candid, a.object_id.as_str()), (1, "ZTF1"));
    assert_eq!((a.jd, a.ra, a.dec), (d(10.0), d(30.0), d(40.0)));
    assert_eq!(a.filters.len(), 1);
    assert!(alerts[1].filters.is_empty());
    assert_eq!(alerts[1].cutout_template, vec![2, 2]);
    assert_eq!(a.survey, Survey::Ztf);

    let names: Vec<&str> = a.classifications.iter().map(|c| c.classifier.as_str()).collect();
    assert_eq!(
        names,
        ["rb", "sgscore1", "acai_h", "acai_n", "acai_o", "acai_v", "acai_b", "btsbot"]
    );
    assert_eq!(a.classifications[1].distance_arcsec, Some(d(3.0)));
    assert_eq!(a.classifications[4].score, d(4.0));

    let curve: Vec<(f64, Option<f64>, &str, Origin)> = a
        .photometry
        .iter()
        .map(|p| {
            (
                f64::from_bits(p.jd.bits),
                p.flux.map(|x| f64::from_bits(x.bits)),
                p.band.as_str(),
                p.origin,
            )
        })
        .collect();
    assert_eq!(
        curve,
        vec![
            (1.0, Some(6.0), "ztfg", Origin::ForcedPhot),
            (3.0, Some(2.0), "ztfr", Origin::Alert),
            (3.0, Some(5.0), "ztfg", Origin::ForcedPhot),
            (4.0, None, "ztfg", Origin::Alert),
            (5.0, Some(1.0), "ztfg", Origin::Alert),
            (5.0, None, "ztfi", Origin::Alert),
        ]
    );
    assert_eq!(a.photometry[1].ra, Some(d(1.0)));
    assert_eq!(a.photometry[2].ra, None);
    assert_eq!(a.photometry[1].programid, 2);

    assert!(a.survey_matches.ztf.is_none());
    let lsst = a.survey_matches.lsst.as_ref().expect("matched");
    assert_eq!(lsst.object_id, "L");
    assert_eq!(lsst.photometry.len(), 2);
    assert_eq!(lsst.photometry[0].origin, Origin::ForcedPhot);
    assert_eq!(lsst.photometry[0].ra, None);
    assert_eq!(lsst.photometry[1].band, "lssti");
    assert_eq!(lsst.photometry[1].programid, 1);
    assert_eq!(lsst.photometry[1].survey, Survey::Lsst);
}

#[test]
fn alerts_without_cutouts_are_refused() {
    match build_ztf_alerts(
        &results(&[1, 2]),
        vec![enriched(1), enriched(2), enriched(3)],
        HashMap::from([(1, cutout(1))]),
    ) {
        Err(FilterWorkerError::MissingCutoutsBatch(2)) => {}
        _ => panic!("two are missing"),
    }
    match build_ztf_alerts(
        &results(&[1, 2]),
        vec![enriched(1), enriched(2)],
        HashMap::from([(1, cutout(1)), (3, cutout(3))]),
    ) {
        Err(FilterWorkerError::MissingCutouts(2)) => {}
        _ => panic!("one is missing"),
    }
    let none = build_ztf_alerts(&HashMap::new(), vec![enriched(1)], HashMap::new());
    assert!(none.expect("nothing passed").is_empty());
}
