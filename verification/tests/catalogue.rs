//! Catalogues of orbits: lines, documents, and the refresh.

use boom_ztf::utils::bson_number;
use boom_ztf::utils::calendar::{countable, DateTerms};
use boom_ztf::utils::comets;
use boom_ztf::utils::double::Double;
use boom_ztf::utils::mpcorb;
use boom_ztf::utils::mpcorb::{
    elements_from_document, fetch_orbits, julian_date, orbits_age_seconds, parse_line,
    refresh_orbits, to_document, unpack_epoch, OrbitCache, RefreshError, RefreshReport,
    DOWNLOAD_TIMEOUT, ORBITS_COLLECTION, STAGING_COLLECTION,
};
use boom_ztf::utils::orbits::{ids_filter, orbits_query, written_at};
use boom_ztf::utils::refresh::{
    refresh_comets, with_comets, CatalogueReader, Publication, MIN_PLAUSIBLE_ORBITS,
};
use boom_ztf::utils::sso_geometry::{OrbitalElements, Perihelion};
use mongodb::bson::{Bson, Document};

// Real lines from MPCORB.DAT.
const CERES: &str = "00001    3.34  0.15 K2669 274.41935   73.29420   80.24863   10.58803  0.0796923  0.21430445   2.7655526  0 MPO980521  7297 126 1801-2026 0.83 M-v 30k Veres      4000      (1) Ceres              20260103";
const PALLAS: &str = "00002    4.12  0.15 K2669 254.24963  310.96993  172.88661   34.93279  0.2307001  0.21383960   2.7695590  0 E2026-O67  9066 124 1804-2026 0.77 M-c 28k MPCORBFIT  4000      (2) Pallas             20260718";

// Real lines from CometEls.txt.
const HALLEY: &str = "0001P         2061 08  2.8739  0.571098  0.968021  112.1899   59.2896  162.1880  20260905   5.5  3.2  1P/Halley";
const HALE_BOPP: &str = "    CJ95O010  1997 03 29.0338  0.924783  0.994898  130.7211  281.8006   89.7380  20260905  -2.0  4.0  C/1995 O1 (Hale-Bopp)";

fn d(v: f64) -> Double {
    Double { bits: v.to_bits() }
}

fn f(v: Double) -> f64 {
    f64::from_bits(v.bits)
}

fn number(s: &str) -> Option<Double> {
    s.parse::<f64>().ok().map(d)
}

fn perihelion(e: OrbitalElements) -> Perihelion {
    let n = 0.017_202_098_95 / f(e.a).powf(1.5);
    Perihelion {
        q: d(f(e.a) * (1.0 - f(e.e))),
        tp: d(f(e.epoch_jd) - f(e.mean_anomaly).to_radians() / n),
    }
}

fn date(t: DateTerms, day: Double) -> Double {
    d(t.year_days as f64 + t.month_days as f64 + f(day) + t.correction as f64 - 1524.5)
}

fn axis(q: Double, e: Double) -> Double {
    d(f(q) / (1.0 - f(e)))
}

fn parse(line: &str) -> Option<mpcorb::MpcorbEntry> {
    parse_line(line, &number, &perihelion)
}

fn parse_comet(line: &str) -> Option<comets::CometEntry> {
    comets::parse_line(line, &number, &date, &axis)
}

#[test]
fn test_parses_ceres() {
    let e = parse(CERES).expect("Ceres must parse");
    assert_eq!(e.designation, "1");
    assert_eq!(e.h, Some(d(3.34)));
    assert_eq!(e.g, Some(d(0.15)));
    assert_eq!(e.elements.mean_anomaly, d(274.41935));
    assert_eq!(e.elements.peri, d(73.29420));
    assert_eq!(e.elements.node, d(80.24863));
    assert_eq!(e.elements.incl, d(10.58803));
    assert_eq!(e.elements.e, d(0.0796923));
    assert_eq!(e.elements.a, d(2.7655526));
    assert_eq!(e.elements.epoch_jd, d(2_461_200.5));
    assert_eq!(e.elements.q, d(2.7655526 * (1.0 - 0.0796923)));
}

#[test]
fn test_parses_pallas() {
    let e = parse(PALLAS).expect("Pallas must parse");
    assert_eq!(e.designation, "2");
    assert_eq!(e.elements.incl, d(34.93279));
    assert_eq!(e.elements.a, d(2.7695590));
}

// The file carries mean daily motion as well as semimajor axis. Deriving one
// from the other catches a column misalignment that still parses as a number.
#[test]
fn test_semimajor_axis_agrees_with_the_files_mean_motion() {
    for (line, n_file) in [(CERES, 0.21430445), (PALLAS, 0.21383960)] {
        let e = parse(line).unwrap();
        let n_derived: f64 = 0.985_607_668_6 / f(e.elements.a).powf(1.5);
        assert!((n_derived - n_file).abs() < 1e-6, "derived {n_derived} vs file {n_file}");
    }
}

#[test]
fn test_unpacks_epoch() {
    // K2669 = 2026 June 9.
    assert_eq!(unpack_epoch("K2669"), Some(d(2_461_200.5)));
    // Month and day above 9 use letters: A=10 .. V=31.
    assert_eq!(
        unpack_epoch("K26C1"),
        julian_date(2026, 12, 1).map(|h| Double::half_of(h as u64))
    );
    assert_eq!(
        unpack_epoch("J9611"),
        julian_date(1996, 1, 1).map(|h| Double::half_of(h as u64))
    );
    assert_eq!(unpack_epoch("nope"), None);
}

#[test]
fn epochs_out_of_range_do_not_unpack() {
    assert_eq!(unpack_epoch("K26D1"), None);
    assert_eq!(unpack_epoch("K2600"), None);
    assert_eq!(unpack_epoch("K261W"), None);
    assert_eq!(unpack_epoch("L2611"), None);
    assert_eq!(unpack_epoch(" K2669 "), Some(d(2_461_200.5)));
}

#[test]
fn dates_count_days() {
    assert_eq!(julian_date(2000, 1, 1), Some(2 * 2_451_544 + 1));
    assert_eq!(julian_date(2000, 13, 1), None);
    assert_eq!(julian_date(2000, 1, 32), None);
    assert!(countable(2026, 9));
    assert!(!countable(i64::MAX, 9));
    assert!(!countable(i64::MIN, 1));
}

#[test]
fn test_rejects_headers_and_junk() {
    assert!(parse("").is_none());
    assert!(parse("Des'n     H     G   Epoch     M        Peri.").is_none());
    assert!(parse("-----------------").is_none());
}

#[test]
fn test_a_record_that_fails_to_parse_is_still_reported() {
    let corrupt_eccentricity = CERES.replace("0.0796923", "0.07969xx");
    assert!(parse(&corrupt_eccentricity).is_none());
    assert!(mpcorb::is_record_shaped(&corrupt_eccentricity));
    assert!(mpcorb::is_record_shaped(CERES));
}

#[test]
fn open_orbits_are_not_usable() {
    assert!(parse(&CERES.replace("0.0796923", "1.0796923")).is_none());
    assert!(parse(&CERES.replace("0.0796923", "-.0796923")).is_none());
    assert!(parse(&CERES.replace("0.0796923", "NaN      ")).is_none());
    assert!(parse(&CERES.replace("  2.7655526", " -2.7655526")).is_none());
}

#[test]
fn test_parses_halley() {
    let c = parse_comet(HALLEY).expect("Halley parses");
    assert_eq!(c.designation, "1P");
    assert!((f(c.elements.q) - 0.571098).abs() < 1e-9);
    assert!((f(c.elements.e) - 0.968021).abs() < 1e-9);
    assert!((f(c.elements.incl) - 162.1880).abs() < 1e-6);
    assert_eq!(c.h, Some(d(5.5)));

    // Perihelion 2061 Aug 2.8739.
    let tp = date(comets::julian_date(2061, 8), d(2.8739));
    assert!((f(c.elements.tp) - f(tp)).abs() < 1e-9);
    // Halley's semimajor axis is about 17.8 au.
    assert!((f(c.elements.a) - 17.8).abs() < 0.5, "a was {}", f(c.elements.a));
}

/// The designation has to match what IPAC stamps on the alert, or the orbit
/// is never found for the object it belongs to.
#[test]
fn test_designations_match_the_alert_form() {
    assert_eq!(parse_comet(HALLEY).unwrap().designation, "1P");
    assert_eq!(parse_comet(HALE_BOPP).unwrap().designation, "C/1995O1");
}

/// Headers, rules and short lines appear in the file and are not records.
#[test]
fn test_non_records_are_skipped() {
    assert!(parse_comet("").is_none());
    assert!(parse_comet("   ").is_none());
    assert!(parse_comet("too short to be a record").is_none());
}

#[test]
fn test_julian_date_matches_known_epochs() {
    // J2000.0
    let j2000 = date(comets::julian_date(2000, 1), d(1.5));
    assert!((f(j2000) - 2_451_545.0).abs() < 1e-9);
    // MPC's own epoch stamp format, 2026 Sep 5.
    let stamp = date(comets::julian_date(2026, 9), d(5.0));
    assert!((f(stamp) - 2_461_288.5).abs() < 1e-9);
}

#[test]
fn stamps_that_are_not_dates_skip_the_line() {
    // Eight bytes whose year is no number; a character lies across the end of the month.
    let line = HALLEY.replacen("20260905", "abcdx\u{e9}y", 1);
    let n = comets::read_numbers(&line, &number);
    assert!(comets::readable(&line, n));
    assert!(parse_comet(&line).is_none());
    // With a year that is one, the month would have to be cut.
    let cut = HALLEY.replacen("20260905", "2026x\u{e9}y", 1);
    assert!(!comets::readable(&cut, comets::read_numbers(&cut, &number)));
    let unsplit = HALLEY.replacen("20260905", "abc\u{e9}xyz", 1);
    assert!(!comets::readable(&unsplit, comets::read_numbers(&unsplit, &number)));
}

#[test]
fn comets_without_a_stamp_are_referred_to_perihelion() {
    let c = parse_comet(&HALLEY.replace("20260905", "        ")).expect("parses");
    assert_eq!(c.elements.epoch_jd, c.elements.tp);
    assert!(parse_comet(HALLEY).unwrap().elements.epoch_jd == d(2_461_288.5));
    assert!(parse_comet(&HALLEY.replace("20260905", "2026x905")).is_none());
    assert!(parse_comet(&HALLEY.replace("0.571098", "0.000000")).is_none());
    assert!(parse_comet(&HALLEY.replace("0.571098", "inf     ")).is_none());
    let hyperbolic = parse_comet(&HALLEY.replace("0.968021", "1.968021")).expect("parses");
    assert_eq!(hyperbolic.elements.a, d(0.0));
    assert!(parse_comet(&HALLEY.replace("1P/Halley", "         ")).is_none());
}

#[test]
fn lines_that_cannot_be_read_are_told() {
    let n = comets::read_numbers(HALLEY, &number);
    assert!(comets::readable(HALLEY, n));
    let mut far = n;
    far.year = Some(d(1e300));
    assert!(!comets::readable(HALLEY, far));
    assert_eq!(comets::column(HALLEY, 0, 5), Some("0001P"));
    assert_eq!(comets::designation_for(HALLEY).as_deref(), Some("1P"));
}

// A download with no bound can stall the scheduler for as long as the peer
// holds the socket open.
#[test]
fn test_download_is_bounded() {
    assert!(DOWNLOAD_TIMEOUT > 0);
    // Long enough for a ~300MB file on a slow link, short enough to notice.
    assert!(DOWNLOAD_TIMEOUT <= 60 * 60);
}

// A short download is a truncated one, and swapping it in would replace the
// catalogue with a fragment.
#[test]
fn test_short_catalogue_is_rejected() {
    let err = RefreshError::ImplausiblyShort {
        parsed: 12,
        collection: ORBITS_COLLECTION.to_string(),
    };
    assert!(err.message().contains("12"));
    assert!(err.message().contains(ORBITS_COLLECTION));
}

#[test]
fn test_staging_is_not_the_live_collection() {
    assert_ne!(STAGING_COLLECTION, ORBITS_COLLECTION);
}

#[test]
fn errors_say_what_failed() {
    assert_eq!(
        RefreshError::Download("x".to_string()).message(),
        "failed to download MPCORB: x"
    );
    assert_eq!(RefreshError::Io("x".to_string()).message(), "failed to read the download: x");
    assert_eq!(RefreshError::Mongo("x".to_string()).message(), "x");
    assert_eq!(
        RefreshError::ImplausiblyShort { parsed: 3, collection: "c".to_string() }.message(),
        "only 3 orbits parsed, refusing to replace c"
    );
}

#[test]
fn stored_orbits_are_read_back() {
    let entry = parse(CERES).unwrap();
    let doc = to_document(&entry, d(17.0));
    assert_eq!(doc.get_str("_id").unwrap(), "1");
    assert_eq!(doc.get_f64("a").unwrap(), 2.7655526);
    assert_eq!(doc.get_f64("h").unwrap(), 3.34);
    assert_eq!(doc.get_f64("updated_at").unwrap(), 17.0);
    assert_eq!(doc.len(), 13);
    assert_eq!(elements_from_document(&doc, &perihelion), Some(entry.elements));
    assert_eq!(written_at(Some(&doc)), Some(d(17.0)));
    assert_eq!(written_at(None), None);

    let mut unknown = entry;
    unknown.h = None;
    assert_eq!(to_document(&unknown, d(1.0)).get("h"), Some(&Bson::Null));
}

#[test]
fn only_the_perihelion_is_derived() {
    let entry = parse(CERES).unwrap();
    let el = entry.elements;
    assert_eq!(el.q, d(2.7655526 * (1.0 - 0.0796923)));
    assert_eq!((el.epoch_jd, el.a, el.e), (d(2_461_200.5), d(2.7655526), d(0.0796923)));
    let fixed = |_: OrbitalElements| Perihelion { q: d(1.0), tp: d(2.0) };
    let built = OrbitalElements::elliptical(
        el.epoch_jd,
        el.a,
        el.e,
        el.incl,
        el.node,
        el.peri,
        el.mean_anomaly,
        &fixed,
    );
    assert_eq!(built, OrbitalElements { q: d(1.0), tp: d(2.0), ..el });
    assert_eq!(built.with_perihelion(&perihelion), el);
    // Without H and G the line is still a record.
    assert_eq!(entry.clone(), entry);
    let bare = format!("{}           {}", &CERES[..8], &CERES[19..]);
    let unmeasured = parse(&bare).expect("still a record");
    assert_eq!((unmeasured.h, unmeasured.g), (None, None));
    assert_eq!(unmeasured.elements, el);
    // Every line that parses has the shape of a record.
    assert!(mpcorb::is_record_shaped(CERES) && mpcorb::is_record_shaped(&bare));
}

#[test]
fn perihelion_is_derived_for_old_documents() {
    let entry = parse(CERES).unwrap();
    let mut doc = to_document(&entry, d(17.0));
    doc.remove("q");
    doc.remove("tp");
    assert_eq!(elements_from_document(&doc, &perihelion), Some(entry.elements));
    doc.remove("e");
    assert_eq!(elements_from_document(&doc, &perihelion), None);
}

#[test]
fn ages_are_told_from_failures() {
    let minus = |a: Double, b: Double| d(f(a) - f(b));
    let doc = to_document(&parse(CERES).unwrap(), d(17.0));
    assert_eq!(
        orbits_age_seconds(Ok::<_, String>(Some(doc)), d(20.0), &minus),
        Ok(Some(d(3.0)))
    );
    assert_eq!(orbits_age_seconds(Ok::<_, String>(None), d(20.0), &minus), Ok(None));
    assert_eq!(
        orbits_age_seconds(Ok::<_, String>(Some(Document::new())), d(20.0), &minus),
        Ok(None)
    );
    assert_eq!(
        orbits_age_seconds(Err("down".to_string()), d(20.0), &minus),
        Err("down".to_string())
    );
}

#[test]
fn orbits_are_fetched_by_key() {
    let keys = vec!["1".to_string(), "2".to_string()];
    let filter = orbits_query(&keys).unwrap();
    let inside = filter.get_document("_id").unwrap().get_array("$in").unwrap();
    assert_eq!(inside.len(), 2);
    assert_eq!(inside[1].as_str(), Some("2"));
    assert!(orbits_query(&vec![]).is_none());
    assert_eq!(ids_filter(&keys), filter);

    let ceres = parse(CERES).unwrap();
    let docs = vec![to_document(&ceres, d(1.0)), Document::new()];
    let found = match fetch_orbits(&keys, Ok::<_, String>(docs), &perihelion) {
        Ok(map) => map,
        Err(_) => panic!("no failure"),
    };
    assert_eq!(found.len(), 1);
    assert_eq!(found.get("1"), Some(&ceres.elements));
    assert!(fetch_orbits(&keys, Err("down".to_string()), &perihelion).is_err());
    match fetch_orbits(&vec![], Err("down".to_string()), &perihelion) {
        Ok(map) => assert!(map.is_empty()),
        Err(_) => panic!("nothing was asked"),
    }
}

#[test]
fn a_key_is_queried_once() {
    let keys = vec!["1".to_string(), "2".to_string()];
    let ceres = parse(CERES).unwrap();
    let mut cache = OrbitCache::new();
    assert_eq!(cache.missing(&keys), keys);
    // After a failure everything is asked for again.
    assert!(cache.load(keys.clone(), Err("down".to_string())).is_err());
    assert_eq!(cache.missing(&keys), keys);

    let found = fetch_orbits(
        &keys,
        Ok::<_, String>(vec![to_document(&ceres, d(1.0))]),
        &perihelion,
    );
    assert!(cache.load(keys.clone(), found).is_ok());
    // The one that the catalogue does not carry is remembered too.
    assert!(cache.missing(&keys).is_empty());
    assert_eq!(cache.missing(&vec!["2".to_string(), "3".to_string()]), vec!["3".to_string()]);
    assert_eq!(cache.elements().get("1"), Some(&ceres.elements));
    assert!(cache.elements().get("2").is_none());
}

#[test]
fn batches_are_flushed_when_they_are_full() {
    let mut reader = CatalogueReader::new(2);
    let junk = CERES.replace("0.0796923", "0.07969xx");
    assert!(reader.take_line("header", d(1.0), &number, &perihelion).is_none());
    assert!(reader.take_line(CERES, d(1.0), &number, &perihelion).is_none());
    assert!(reader.take_line(&junk, d(1.0), &number, &perihelion).is_none());
    let flush = reader.take_line(PALLAS, d(1.0), &number, &perihelion).expect("full");
    assert_eq!(flush.documents.len(), 2);
    assert_eq!(flush.documents[0].get_str("_id").unwrap(), "1");
    assert_eq!(flush.documents[1].get_str("_id").unwrap(), "2");
    assert!(!flush.report_progress);
    assert!(reader.take_line(CERES, d(1.0), &number, &perihelion).is_none());
    let (rest, outcome) = reader.finish();
    assert_eq!(rest.len(), 1);
    match outcome {
        Err(RefreshError::ImplausiblyShort { parsed, collection }) => {
            assert_eq!(parsed, 3);
            assert_eq!(collection, ORBITS_COLLECTION);
        }
        _ => panic!("a truncated download"),
    }
}

#[test]
fn a_long_catalogue_is_reported() {
    let mut reader = CatalogueReader::new(70_000);
    let junk = CERES.replace("0.0796923", "0.07969xx");
    let entry = || parse(CERES);
    let mut progress = Vec::new();
    let mut n: u64 = 0;
    while n < 300_000 {
        if let Some(flush) = reader.take_entry(CERES, entry(), d(1.0)) {
            assert_eq!(flush.documents.len(), 70_000);
            progress.push(flush.report_progress);
        }
        n += 1;
    }
    for _ in 0..7 {
        assert!(reader.take_entry(&junk, None, d(1.0)).is_none());
    }
    assert_eq!(progress, vec![false, false, true, false]);
    let (rest, outcome) = reader.finish();
    assert_eq!(rest.len(), 300_000 - 4 * 70_000);
    let report = outcome.expect("long enough");
    assert!(report.parsed >= MIN_PLAUSIBLE_ORBITS);
    assert_eq!(report.lines, 300_007);
    assert_eq!(report.skipped, 7);
    assert_eq!(report.rejected_samples.len(), 5);
    assert_eq!(report.rejected_samples[0].len(), 120);
    assert!(junk.starts_with(&report.rejected_samples[0]));
    assert_eq!(with_comets(report, 9).comets, 9);
}

fn report() -> RefreshReport {
    RefreshReport { lines: 1, parsed: 1, skipped: 0, rejected_samples: vec![], comets: 0 }
}

#[test]
fn only_a_whole_catalogue_is_published() {
    match refresh_orbits(Some("boom"), Ok(report())) {
        Publication::Rename { command, report: told } => {
            assert_eq!(command.get_str("renameCollection").unwrap(), "boom.MPC_orbits_staging");
            assert_eq!(command.get_str("to").unwrap(), "boom.MPC_orbits");
            assert_eq!(command.get_bool("dropTarget").unwrap(), true);
            assert_eq!(told, report());
        }
        _ => panic!("published"),
    }
    assert!(matches!(refresh_orbits(None, Ok(report())), Publication::Report(_)));
    let e = || RefreshError::Io("x".to_string());
    assert!(matches!(refresh_orbits(Some("boom"), Err(e())), Publication::Discard(_)));
    assert!(matches!(refresh_orbits(None, Err(e())), Publication::Fail(_)));
}

#[test]
fn comets_are_staged_or_left_out() {
    let lines = vec![HALLEY.to_string(), "header".to_string(), HALE_BOPP.to_string()];
    let docs = refresh_comets(Ok(lines), d(5.0), &number, &date, &axis);
    assert_eq!(docs.len(), 2);
    assert_eq!(docs[0].get_str("_id").unwrap(), "1P");
    assert_eq!(docs[1].get_str("_id").unwrap(), "C/1995O1");
    assert_eq!(docs[1].get_f64("updated_at").unwrap(), 5.0);
    let none = refresh_comets(Err("down".to_string()), d(5.0), &number, &date, &axis);
    assert!(none.is_empty());
}

#[test]
fn numbers_are_read_at_any_width() {
    assert_eq!(bson_number(&Bson::Double(2.5)), Some(d(2.5)));
    assert_eq!(bson_number(&Bson::Int32(-12)), Some(d(-12.0)));
    assert_eq!(bson_number(&Bson::Int64((1 << 53) + 1)), Some(d(9007199254740992.0)));
    assert_eq!(bson_number(&Bson::String("1".to_string())), None);
    assert_eq!(bson_number(&Bson::Null), None);
}
