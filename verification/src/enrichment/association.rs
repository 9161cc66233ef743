//! Moving objects: their association with detections, and the history that a detection is
//! scored against.

use crate::enrichment::alert::{Candidate, ZtfAlertForEnrichment};
use crate::utils::bson_doc;
use crate::utils::bson_doc::{
    double_value, get_number, get_object, get_text, int32, new_document, object, text_list, with,
    wrap, Content,
};
use crate::utils::designation;
use crate::utils::designation::normalize_ztf_ssnamenr;
use crate::utils::double;
use crate::utils::double::Double;
use crate::utils::lists;
use crate::utils::sorting;
use crate::utils::sorting::{sort_by_key, Keyed};
use crate::utils::sso_geometry;
use crate::utils::sso_geometry::{Geometry, OrbitalElements};
use crate::utils::text;
use mongodb::bson::Document;
use std::collections::HashMap;
use vstd::hash_map::StringHashMap;
use vstd::hash_set::StringHashSet;
use vstd::prelude::*;
use vstd::std_specs::hash::*;

verus! {

/// Solar system object association for a single ZTF detection.
///
/// ZTF `objectId`s are positional, so a moving object is given a new one on very
/// nearly every detection (measured over a week of alerts: 1.03 detections per
/// `objectId`). `designation` is therefore the only stable key across a moving
/// object's detections — downstream consumers building light curves must group on
/// it, never on `objectId`. For the same reason the alert's `prv_candidates` and
/// `fp_hists` describe whatever else has occupied that sky position, not this
/// object.
///
/// All numbers but the perihelion time are in single precision.
#[derive(Debug, Clone)]
pub struct ZtfSsoAssociation {
    /// Whether a known solar system object was identified at this position.
    ///
    /// Deliberately not thresholded on separation, unlike the deprecated `rock`
    /// flag: when the upstream ephemeris degrades, that shows up as a growing
    /// `separation_arcsec` the consumer can see, rather than silently flipping a
    /// boolean they cannot.
    pub is_sso: bool,
    /// MPC designation of the matched object (ZTF `ssnamenr`), e.g. `"9816"`.
    pub designation: Option<String>,
    /// Separation between the detection and the object's predicted position
    /// (ZTF `ssdistnr`), in arcseconds. Negative upstream sentinels are stored as
    /// `None`. This is a quality indicator for the upstream ephemeris, and worth
    /// monitoring in aggregate: a drifting distribution means stale orbits.
    pub separation_arcsec: Option<Double>,
    /// Catalogued magnitude predicted for the object (ZTF `ssmagnr`). Compared
    /// against the measured `magpsf` this gives predicted-minus-measured per
    /// detection at no extra cost.
    pub predicted_mag: Option<Double>,
    /// Who made the association. `"ipac"` for the identification carried in the
    /// ZTF alert itself; an independent association would identify itself
    /// differently here.
    pub source: Option<String>,
    /// Sun-to-object distance at the alert epoch, au. Derived by propagating MPC
    /// elements, since the ZTF packet carries no state vectors, so it is `None`
    /// whenever the object is missing from `MPC_orbits`.
    pub helio_dist: Option<Double>,
    /// Observer-to-object distance at the alert epoch, au. Same provenance.
    pub topo_dist: Option<Double>,
    /// Sun-object-observer angle at the alert epoch, degrees. Same provenance.
    pub phase_angle: Option<Double>,
    /// Angle from perihelion at the alert epoch, degrees, negative inbound.
    pub true_anomaly: Option<Double>,
    /// Perihelion passage, JD. Per detection because a refreshed orbit moves it.
    pub perihelion_time: Option<Double>,
}

/// A value that was measured: from 0 on.
pub open spec fn measured(d: Option<Double>) -> Option<Double> {
    match d {
        Some(v) => if double::le(Double { bits: 0 }, v) {
            Some(v)
        } else {
            None
        },
        None => None,
    }
}

/// A value that was measured.
fn if_measured(d: Option<Double>) -> (r: Option<Double>)
    ensures
        r == measured(d),
{
    match d {
        Some(v) => if Double::zero().at_most(v) {
            Some(v)
        } else {
            None
        },
        None => None,
    }
}

/// `a` is the association that the fields of an alert make, without geometry.
pub open spec fn is_association(
    a: ZtfSsoAssociation,
    name: Option<String>,
    ssdistnr: Option<Double>,
    ssmagnr: Option<Double>,
) -> bool {
    &&& a.is_sso == name is Some
    &&& a.designation == name
    &&& a.separation_arcsec == measured(ssdistnr)
    &&& a.predicted_mag == measured(ssmagnr)
    &&& designation::text_view(a.source) == if name is Some {
        Some("ipac"@)
    } else {
        None
    }
    &&& a.helio_dist is None && a.topo_dist is None && a.phase_angle is None
    &&& a.true_anomaly is None && a.perihelion_time is None
}

/// The association with this geometry, in single precision.
pub open spec fn with_geometry_of(a: ZtfSsoAssociation, g: Geometry) -> ZtfSsoAssociation {
    ZtfSsoAssociation {
        helio_dist: Some(double::narrowed(g.helio_dist)),
        topo_dist: Some(double::narrowed(g.topo_dist)),
        phase_angle: Some(double::narrowed(g.phase_angle)),
        true_anomaly: Some(double::narrowed(g.true_anomaly)),
        perihelion_time: Some(g.perihelion_time),
        ..a
    }
}

impl ZtfSsoAssociation {
    /// Build the association from the solar system fields IPAC puts in the ZTF
    /// alert. Negative values are upstream "no match" sentinels rather than
    /// measurements, so they are normalised to `None`.
    pub fn from_ipac(
        designation: Option<String>,
        ssdistnr: Option<Double>,
        ssmagnr: Option<Double>,
    ) -> (r: Self)
        ensures
            is_association(r, designation, ssdistnr, ssmagnr),
    {
        let is_sso = designation.is_some();
        ZtfSsoAssociation {
            is_sso,
            source: if is_sso {
                Some("ipac".to_owned())
            } else {
                None
            },
            designation,
            separation_arcsec: if_measured(ssdistnr),
            predicted_mag: if_measured(ssmagnr),
            helio_dist: None,
            topo_dist: None,
            phase_angle: None,
            true_anomaly: None,
            perihelion_time: None,
        }
    }

    /// Fill in this observing geometry.
    pub fn with_geometry_from(self, geometry: Geometry) -> (r: Self)
        ensures
            r == with_geometry_of(self, geometry),
    {
        ZtfSsoAssociation {
            is_sso: self.is_sso,
            designation: self.designation,
            separation_arcsec: self.separation_arcsec,
            predicted_mag: self.predicted_mag,
            source: self.source,
            helio_dist: Some(geometry.helio_dist.narrow()),
            topo_dist: Some(geometry.topo_dist.narrow()),
            phase_angle: Some(geometry.phase_angle.narrow()),
            true_anomaly: Some(geometry.true_anomaly.narrow()),
            perihelion_time: Some(geometry.perihelion_time),
        }
    }

    /// Fill in observing geometry from MPC elements propagated to `jd`. The perihelion time
    /// is that of the elements.
    ///
    /// Left untouched when the object has no elements available: an absent
    /// geometry is reported as absent rather than as a default, since a
    /// plausible-looking wrong distance is worse here than a missing one.
    pub fn with_geometry<G: Fn(OrbitalElements, Double) -> Geometry>(
        self,
        elements: Option<&OrbitalElements>,
        jd: Double,
        geometry_at: &G,
    ) -> (r: Self)
        requires
            forall|e: OrbitalElements, t: Double| #[trigger] geometry_at.requires((e, t)),
        ensures
            match elements {
                Some(e) => exists|g: Geometry|
                    geometry_at.ensures((*e, jd), g) && r == with_geometry_of(
                        self,
                        #[trigger] sso_geometry::timed(g, *e),
                    ),
                None => r == self,
            },
    {
        match elements {
            Some(e) => {
                let g = geometry_at(*e, jd);
                let geometry = Geometry {
                    helio_dist: g.helio_dist,
                    topo_dist: g.topo_dist,
                    phase_angle: g.phase_angle,
                    true_anomaly: g.true_anomaly,
                    perihelion_time: e.tp,
                };
                assert(geometry == sso_geometry::timed(g, *e));
                self.with_geometry_from(geometry)
            },
            None => self,
        }
    }
}

/// A detection as the outburst statistic needs it.
#[derive(Debug, Clone, Copy, PartialEq, Eq, Structural)]
pub struct Point {
    pub rh: Double,
    pub delta: Double,
    pub phase: Double,
    pub mag: Double,
    pub mag_err: Double,
    pub band: u8,
}

impl Keyed for (Double, Point) {
    open spec fn key(&self) -> int {
        double::total_order(self.0)
    }

    fn sort_key(&self) -> (r: i64) {
        self.0.total_order()
    }
}

/// The geometry that a stored alert carries.
pub open spec fn stored_association(fields: Seq<(Seq<char>, Content)>) -> Option<
    Seq<(Seq<char>, Content)>,
> {
    match bson_doc::object_field(fields, "properties"@) {
        Some(properties) => bson_doc::object_field(properties, "sso"@),
        None => None,
    }
}

/// The detection that the candidate and the association of a stored alert describe, where
/// they carry all of it.
pub open spec fn stored_point(
    candidate: Seq<(Seq<char>, Content)>,
    sso: Seq<(Seq<char>, Content)>,
) -> Option<(Seq<char>, Double, Point)> {
    match (
        bson_doc::text_field(candidate, "ssnamenr"@),
        bson_doc::number_field(candidate, "jd"@),
        bson_doc::number_field(sso, "helio_dist"@),
        bson_doc::number_field(sso, "topo_dist"@),
        bson_doc::number_field(sso, "phase_angle"@),
        bson_doc::number_field(candidate, "magpsf"@),
        bson_doc::number_field(candidate, "sigmapsf"@),
        bson_doc::number_field(candidate, "fid"@),
    ) {
        (
            Some(name),
            Some(jd),
            Some(rh),
            Some(delta),
            Some(phase),
            Some(mag),
            Some(mag_err),
            Some(fid),
        ) => Some(
            (
                name,
                jd,
                Point {
                    rh,
                    delta,
                    phase,
                    mag,
                    mag_err,
                    band: double::truncated_byte(fid) as u8,
                },
            ),
        ),
        _ => None,
    }
}

/// The detection that a stored alert describes.
pub open spec fn detection(fields: Seq<(Seq<char>, Content)>) -> Option<
    (Seq<char>, Double, Point),
> {
    match (bson_doc::object_field(fields, "candidate"@), stored_association(fields)) {
        (Some(candidate), Some(sso)) => stored_point(candidate, sso),
        _ => None,
    }
}

/// One historical detection as the outburst statistic needs it, or `None` when
/// the document is missing photometry or geometry.
pub fn history_point(doc: &Document) -> (r: Option<(String, Double, Point)>)
    ensures
        match r {
            Some((name, jd, point)) => detection(bson_doc::document_fields(*doc)) == Some(
                (name@, jd, point),
            ),
            None => detection(bson_doc::document_fields(*doc)) is None,
        },
{
    let candidate = match get_object(doc, "candidate") {
        Some(c) => c,
        None => {
            return None;
        },
    };
    let sso = match get_object(doc, "properties") {
        Some(properties) => match get_object(properties, "sso") {
            Some(s) => s,
            None => {
                return None;
            },
        },
        None => {
            return None;
        },
    };
    match (
        get_text(candidate, "ssnamenr"),
        get_number(candidate, "jd"),
        get_number(sso, "helio_dist"),
        get_number(sso, "topo_dist"),
        get_number(sso, "phase_angle"),
        get_number(candidate, "magpsf"),
        get_number(candidate, "sigmapsf"),
        get_number(candidate, "fid"),
    ) {
        (
            Some(name),
            Some(jd),
            Some(rh),
            Some(delta),
            Some(phase),
            Some(mag),
            Some(mag_err),
            Some(fid),
        ) => Some(
            (
                name.to_owned(),
                jd,
                Point { rh, delta, phase, mag, mag_err, band: fid.truncate_byte() },
            ),
        ),
        _ => None,
    }
}

/// The detections of the object `name` that stored alerts describe, in their order.
pub open spec fn detections_of(
    docs: Seq<Seq<(Seq<char>, Content)>>,
    name: Seq<char>,
) -> Seq<(Double, Point)>
    decreases docs.len(),
{
    if docs.len() == 0 {
        Seq::empty()
    } else {
        let before = detections_of(docs.drop_last(), name);
        match detection(docs.last()) {
            Some((n, jd, point)) => if n == name {
                before.push((jd, point))
            } else {
                before
            },
            None => before,
        }
    }
}

/// The time of a detection.
pub open spec fn detection_time() -> spec_fn((Double, Point)) -> int {
    |p: (Double, Point)| p.key()
}

/// The history of each object that stored alerts describe, in the order of time.
pub open spec fn are_histories(
    map: Map<Seq<char>, Vec<(Double, Point)>>,
    docs: Seq<Seq<(Seq<char>, Content)>>,
) -> bool {
    &&& forall|name: Seq<char>| #[trigger]
        map.contains_key(name) <==> detections_of(docs, name).len() > 0
    &&& forall|name: Seq<char>|
        map.contains_key(name) ==> (#[trigger] map[name])@ == sorting::sorted(
            detections_of(docs, name),
            detection_time(),
        )
}

/// The detections of one object, in the order of time.
fn history_of(docs: &Vec<Document>, name: &str) -> (r: Vec<(Double, Point)>)
    ensures
        r@ == sorting::sorted(
            detections_of(bson_doc::documents(docs@), name@),
            detection_time(),
        ),
{
    let mut out: Vec<(Double, Point)> = Vec::new();
    let ghost all = bson_doc::documents(docs@);
    let mut i: usize = 0;
    while i < docs.len()
        invariant
            i <= docs.len(),
            all == bson_doc::documents(docs@),
            out@ == detections_of(all.take(i as int), name@),
        decreases docs.len() - i,
    {
        assert(all.take(i + 1).drop_last() =~= all.take(i as int));
        if let Some((n, jd, point)) = history_point(&docs[i]) {
            if text::same_text(n.as_str(), name) {
                out.push((jd, point));
            }
        }
        i = i + 1;
    }
    assert(all.take(i as int) =~= all);
    sort_by_key(out)
}

/// A moving object's own recent photometry, keyed by `ssnamenr`, from the stored alerts
/// that a query returned. Points without geometry are dropped: the statistic scales every
/// point to the test epoch and cannot place one whose distances are unknown.
pub fn sso_histories(docs: &Vec<Document>) -> (r: StringHashMap<Vec<(Double, Point)>>)
    ensures
        are_histories(r@, bson_doc::documents(docs@)),
{
    let mut map: StringHashMap<Vec<(Double, Point)>> = StringHashMap::new();
    let ghost all = bson_doc::documents(docs@);
    let mut i: usize = 0;
    while i < docs.len()
        invariant
            i <= docs.len(),
            all == bson_doc::documents(docs@),
            forall|name: Seq<char>| #[trigger]
                map@.contains_key(name) <==> detections_of(all.take(i as int), name).len() > 0,
            forall|name: Seq<char>|
                map@.contains_key(name) ==> (#[trigger] map@[name])@ == sorting::sorted(
                    detections_of(all, name),
                    detection_time(),
                ),
        decreases docs.len() - i,
    {
        let ghost before = map@;
        assert(all.take(i + 1).drop_last() =~= all.take(i as int));
        if let Some((name, _, _)) = history_point(&docs[i]) {
            if !map.contains_key(name.as_str()) {
                let points = history_of(docs, name.as_str());
                map.insert(name, points);
            }
        }
        proof {
            assert forall|name: Seq<char>| #[trigger]
                map@.contains_key(name) <==> detections_of(all.take(i + 1), name).len() > 0 by {
                assert(before.contains_key(name) <==> detections_of(
                    all.take(i as int),
                    name,
                ).len() > 0);
            }
        }
        i = i + 1;
    }
    assert(all.take(i as int) =~= all);
    map
}

/// What a detection is scored with.
pub struct Scoring {
    pub history: Seq<(Double, Point)>,
    pub test: Point,
}

/// The detections before a time.
pub open spec fn earlier_than(points: Seq<(Double, Point)>, jd: Double) -> Seq<(Double, Point)> {
    points.filter(|p: (Double, Point)| double::lt(p.0, jd))
}

/// What a detection is scored with: itself at its geometry, and the earlier detections of
/// its object. Nothing where it lies `max_separation` or further from the predicted
/// position, where that is not known, or where it has no geometry.
pub open spec fn scoring(
    sso: ZtfSsoAssociation,
    candidate: Candidate,
    histories: Map<Seq<char>, Vec<(Double, Point)>>,
    max_separation: Double,
) -> Option<Scoring> {
    match (
        sso.separation_arcsec,
        sso.helio_dist,
        sso.topo_dist,
        sso.phase_angle,
        designation::text_view(sso.designation),
    ) {
        (Some(separation), Some(rh), Some(delta), Some(phase), Some(name)) => if double::le(
            max_separation,
            separation,
        ) {
            None
        } else {
            Some(
                Scoring {
                    history: if histories.contains_key(name) {
                        earlier_than(histories[name]@, candidate.jd)
                    } else {
                        Seq::empty()
                    },
                    test: Point {
                        rh,
                        delta,
                        phase,
                        mag: candidate.magpsf,
                        mag_err: candidate.sigmapsf,
                        band: candidate.fid as u8,
                    },
                },
            )
        },
        _ => None,
    }
}

/// What a detection is scored with.
pub fn scoring_for(
    sso: &ZtfSsoAssociation,
    candidate: &Candidate,
    histories: &StringHashMap<Vec<(Double, Point)>>,
    max_separation: Double,
) -> (r: Option<(Vec<(Double, Point)>, Point)>)
    ensures
        match r {
            Some((history, test)) => scoring(*sso, *candidate, histories@, max_separation) == Some(
                Scoring { history: history@, test },
            ),
            None => scoring(*sso, *candidate, histories@, max_separation) is None,
        },
{
    // A detection away from the object's position is not a measurement of it.
    let separation = match sso.separation_arcsec {
        Some(s) => s,
        None => {
            return None;
        },
    };
    if max_separation.at_most(separation) {
        return None;
    }
    let test = match (sso.helio_dist, sso.topo_dist, sso.phase_angle) {
        (Some(rh), Some(delta), Some(phase)) => Point {
            rh,
            delta,
            phase,
            mag: candidate.magpsf,
            mag_err: candidate.sigmapsf,
            band: #[verifier::truncate] (candidate.fid as u8),
        },
        _ => {
            return None;
        },
    };
    let name = match &sso.designation {
        Some(d) => d,
        None => {
            return None;
        },
    };
    let mut history: Vec<(Double, Point)> = Vec::new();
    if let Some(points) = histories.get(name.as_str()) {
        // A redelivery is already stored, and comparing a point to itself is a zero.
        let ghost p = |x: (Double, Point)| double::lt(x.0, candidate.jd);
        let mut i: usize = 0;
        proof {
            reveal(Seq::filter);
            assert(history@ =~= points@.take(0).filter(p));
        }
        while i < points.len()
            invariant
                i <= points.len(),
                p == (|x: (Double, Point)| double::lt(x.0, candidate.jd)),
                history@ == points@.take(i as int).filter(p),
            decreases points.len() - i,
        {
            proof {
                reveal(Seq::filter);
                assert(points@.take(i + 1).drop_last() =~= points@.take(i as int));
            }
            if points[i].0.less_than(candidate.jd) {
                history.push(points[i]);
            }
            i = i + 1;
        }
        assert(points@.take(i as int) =~= points@);
    }
    Some((history, test))
}

/// The baseline of an object in a band.
pub open spec fn baseline<C>(
    baselines: Map<Seq<char>, HashMap<u8, C>>,
    name: Option<Seq<char>>,
    band: u8,
) -> Option<C> {
    match name {
        Some(n) => if baselines.contains_key(n) && baselines[n]@.contains_key(band) {
            Some(baselines[n]@[band])
        } else {
            None
        },
        None => None,
    }
}

/// The baseline of an object in a band.
fn baseline_of<'a, C>(
    baselines: &'a StringHashMap<HashMap<u8, C>>,
    name: &Option<String>,
    band: u8,
) -> (r: Option<&'a C>)
    ensures
        match r {
            Some(c) => baseline(baselines@, designation::text_view(*name), band) == Some(*c),
            None => baseline(baselines@, designation::text_view(*name), band) is None,
        },
{
    broadcast use group_hash_axioms;

    match name {
        Some(n) => match baselines.get(n.as_str()) {
            Some(bands) => bands.get(&band),
            None => None,
        },
        None => None,
    }
}

/// `r` is the outburst of a detection: what `from_history` makes of what it is scored with
/// and of the baseline of its object in its band. Nothing where it cannot be scored, or
/// where its object was not detected earlier.
pub open spec fn is_outburst<
    C,
    O,
    F: Fn(&Vec<(Double, Point)>, Point, Double, Option<&C>) -> Option<O>,
>(
    r: Option<O>,
    sso: ZtfSsoAssociation,
    candidate: Candidate,
    histories: Map<Seq<char>, Vec<(Double, Point)>>,
    baselines: Map<Seq<char>, HashMap<u8, C>>,
    max_separation: Double,
    from_history: F,
) -> bool {
    match scoring(sso, candidate, histories, max_separation) {
        Some(s) => if s.history.len() == 0 {
            r is None
        } else {
            exists|history: &Vec<(Double, Point)>, curve: Option<&C>|
                history@ == s.history && is_curve(
                    curve,
                    baseline(baselines, designation::text_view(sso.designation), s.test.band),
                ) && #[trigger] from_history.ensures((history, s.test, candidate.jd, curve), r)
        },
        None => r is None,
    }
}

/// `curve` refers to this baseline.
pub open spec fn is_curve<C>(curve: Option<&C>, baseline: Option<C>) -> bool {
    match curve {
        Some(c) => baseline == Some(*c),
        None => baseline is None,
    }
}

/// Score this detection against the object's own earlier photometry.
///
/// `None` unless the alert is a mover with geometry and at least one earlier
/// detection that also has geometry. Nearly every mover is seen more than once
/// in a month, so the limiting factor is geometry on the earlier detection.
pub fn outburst_for<
    C,
    O,
    F: Fn(&Vec<(Double, Point)>, Point, Double, Option<&C>) -> Option<O>,
>(
    sso: &ZtfSsoAssociation,
    candidate: &Candidate,
    histories: &StringHashMap<Vec<(Double, Point)>>,
    baselines: &StringHashMap<HashMap<u8, C>>,
    max_separation: Double,
    from_history: &F,
) -> (r: Option<O>)
    requires
        forall|h: &Vec<(Double, Point)>, t: Point, jd: Double, c: Option<&C>|
            #[trigger] from_history.requires((h, t, jd, c)),
    ensures
        is_outburst(
            r,
            *sso,
            *candidate,
            histories@,
            baselines@,
            max_separation,
            *from_history,
        ),
{
    match scoring_for(sso, candidate, histories, max_separation) {
        Some((history, test)) => {
            if history.is_empty() {
                return None;
            }
            let curve = baseline_of(baselines, &sso.designation, test.band);
            from_history(&history, test, candidate.jd, curve)
        },
        None => None,
    }
}

/// A detection is only ever scored against earlier ones of the object that it is associated
/// with.
pub proof fn law_only_earlier_detections_are_compared(
    sso: ZtfSsoAssociation,
    candidate: Candidate,
    histories: Map<Seq<char>, Vec<(Double, Point)>>,
    max_separation: Double,
    i: int,
)
    requires
        scoring(sso, candidate, histories, max_separation) is Some,
        0 <= i < scoring(sso, candidate, histories, max_separation)->0.history.len(),
    ensures
        ({
            let point = scoring(sso, candidate, histories, max_separation)->0.history[i];
            let name = designation::text_view(sso.designation)->0;
            &&& double::lt(point.0, candidate.jd)
            &&& histories.contains_key(name)
            &&& histories[name]@.contains(point)
        }),
{
    broadcast use vstd::seq_lib::group_filter_ensures;
    broadcast use vstd::seq::Seq::lemma_filter_contains_rev;

    let history = scoring(sso, candidate, histories, max_separation)->0.history;
    assert(history.contains(history[i]));
}

/// A detection cannot be scored: its separation is not known or reaches `max_separation`, it
/// lacks geometry or a designation, or its object has no earlier detection.
pub open spec fn is_unscored(
    sso: ZtfSsoAssociation,
    candidate: Candidate,
    histories: Map<Seq<char>, Vec<(Double, Point)>>,
    max_separation: Double,
) -> bool {
    ||| sso.separation_arcsec is None
    ||| double::le(max_separation, sso.separation_arcsec->0)
    ||| sso.helio_dist is None || sso.topo_dist is None || sso.phase_angle is None
    ||| sso.designation is None
    ||| forall|i: int|
        0 <= i < history_in(histories, sso.designation->0@).len() ==> !double::lt(
            (#[trigger] history_in(histories, sso.designation->0@)[i]).0,
            candidate.jd,
        )
}

/// The history of an object; empty where it has none.
pub open spec fn history_in(
    histories: Map<Seq<char>, Vec<(Double, Point)>>,
    name: Seq<char>,
) -> Seq<(Double, Point)> {
    if histories.contains_key(name) {
        histories[name]@
    } else {
        Seq::empty()
    }
}

/// There is an outburst only where a detection can be scored: a mover close to its predicted
/// position, with geometry, and detected earlier.
pub proof fn law_outbursts_need_an_earlier_detection<
    C,
    O,
    F: Fn(&Vec<(Double, Point)>, Point, Double, Option<&C>) -> Option<O>,
>(
    r: Option<O>,
    sso: ZtfSsoAssociation,
    candidate: Candidate,
    histories: Map<Seq<char>, Vec<(Double, Point)>>,
    baselines: Map<Seq<char>, HashMap<u8, C>>,
    max_separation: Double,
    from_history: F,
)
    requires
        is_outburst(r, sso, candidate, histories, baselines, max_separation, from_history),
        is_unscored(sso, candidate, histories, max_separation),
    ensures
        r is None,
{
    broadcast use vstd::seq_lib::group_filter_ensures;
    broadcast use vstd::seq::Seq::lemma_filter_contains_rev;

    if let Some(s) = scoring(sso, candidate, histories, max_separation) {
        if s.history.len() > 0 {
            let all = history_in(histories, sso.designation->0@);
            assert(s.history == earlier_than(all, candidate.jd));
            assert(s.history.contains(s.history[0]));
            assert(all.contains(s.history[0]));
            let i = choose|i: int| 0 <= i < all.len() && all[i] == s.history[0];
            assert(double::lt(all[i].0, candidate.jd));
        }
    }
}

proof fn lemma_later_points_are_dropped(
    points: Seq<(Double, Point)>,
    k: int,
    later: (Double, Point),
    jd: Double,
)
    requires
        0 <= k <= points.len(),
        !double::lt(later.0, jd),
    ensures
        earlier_than(points.insert(k, later), jd) == earlier_than(points, jd),
{
    let p = |x: (Double, Point)| double::lt(x.0, jd);
    let front = points.take(k);
    let back = points.skip(k);
    assert(points =~= front + back);
    assert(points.insert(k, later) =~= front.push(later) + back);
    Seq::filter_distributes_over_add(front, back, p);
    Seq::filter_distributes_over_add(front.push(later), back, p);
    front.lemma_filter_push(later, p);
}

/// A redelivery changes nothing: a point of the time of the detection or later may stand in
/// the history of an object or not, wherever it stands.
pub proof fn law_later_points_change_no_outburst<
    C,
    O,
    F: Fn(&Vec<(Double, Point)>, Point, Double, Option<&C>) -> Option<O>,
>(
    r: Option<O>,
    sso: ZtfSsoAssociation,
    candidate: Candidate,
    histories: Map<Seq<char>, Vec<(Double, Point)>>,
    name: Seq<char>,
    k: int,
    later: (Double, Point),
    points: Vec<(Double, Point)>,
    baselines: Map<Seq<char>, HashMap<u8, C>>,
    max_separation: Double,
    from_history: F,
)
    requires
        0 <= k <= history_in(histories, name).len(),
        !double::lt(later.0, candidate.jd),
        points@ == history_in(histories, name).insert(k, later),
    ensures
        ({
            let with_later = histories.insert(name, points);
            &&& scoring(sso, candidate, with_later, max_separation) == scoring(
                sso,
                candidate,
                histories,
                max_separation,
            )
            &&& is_outburst(
                r,
                sso,
                candidate,
                with_later,
                baselines,
                max_separation,
                from_history,
            ) == is_outburst(
                r,
                sso,
                candidate,
                histories,
                baselines,
                max_separation,
                from_history,
            )
        }),
{
    lemma_later_points_are_dropped(history_in(histories, name), k, later, candidate.jd);
    let none = Seq::<(Double, Point)>::empty();
    assert(earlier_than(none, candidate.jd) =~= none) by {
        reveal(Seq::filter);
    }
}

/// The names of the objects in these alerts, each once, in the order in which they come.
pub open spec fn names_in(alerts: Seq<ZtfAlertForEnrichment>) -> Seq<Seq<char>>
    decreases alerts.len(),
{
    if alerts.len() == 0 {
        Seq::empty()
    } else {
        let before = names_in(alerts.drop_last());
        match designation::text_view(alerts.last().candidate.candidate.ssnamenr) {
            Some(name) => if before.contains(name) {
                before
            } else {
                before.push(name)
            },
            None => before,
        }
    }
}

/// The names of the objects in a batch, each once.
pub fn object_names(alerts: &Vec<ZtfAlertForEnrichment>) -> (r: Vec<String>)
    ensures
        text::texts(r@) == names_in(alerts@),
{
    let mut out: Vec<String> = Vec::new();
    let mut seen: StringHashSet = StringHashSet::new();
    let mut i: usize = 0;
    assert(text::texts(out@) =~= names_in(alerts@.take(0)));
    assert(seen@ =~= text::texts(out@).to_set());
    while i < alerts.len()
        invariant
            i <= alerts.len(),
            text::texts(out@) == names_in(alerts@.take(i as int)),
            seen@ == text::texts(out@).to_set(),
        decreases alerts.len() - i,
    {
        assert(alerts@.take(i + 1).drop_last() =~= alerts@.take(i as int));
        if let Some(name) = &alerts[i].candidate.candidate.ssnamenr {
            let ghost names = text::texts(out@);
            if seen.insert(name.clone()) {
                out.push(name.clone());
                proof {
                    assert(text::texts(out@) =~= names.push(name@));
                    lists::lemma_to_set_push(names, name@);
                }
            } else {
                assert(seen@ =~= names.to_set());
            }
        }
        i = i + 1;
    }
    assert(alerts@.take(i as int) =~= alerts@);
    out
}

/// The catalogue keys of these names, each once, in the order in which they come.
pub open spec fn keys_of(names: Seq<Seq<char>>) -> Seq<Seq<char>>
    decreases names.len(),
{
    if names.len() == 0 {
        Seq::empty()
    } else {
        let before = keys_of(names.drop_last());
        match designation::name_key(names.last()) {
            Some(key) => if before.contains(key) {
                before
            } else {
                before.push(key)
            },
            None => before,
        }
    }
}

/// The catalogue keys of these names. A number and its "(number)Name" form reduce to the
/// same key, which is asked for once.
pub fn orbit_keys(names: &Vec<String>) -> (r: Vec<String>)
    ensures
        text::texts(r@) == keys_of(text::texts(names@)),
{
    let mut out: Vec<String> = Vec::new();
    let mut seen: StringHashSet = StringHashSet::new();
    let ghost all = text::texts(names@);
    let mut i: usize = 0;
    assert(text::texts(out@) =~= keys_of(all.take(0)));
    assert(seen@ =~= text::texts(out@).to_set());
    while i < names.len()
        invariant
            i <= names.len(),
            all == text::texts(names@),
            text::texts(out@) == keys_of(all.take(i as int)),
            seen@ == text::texts(out@).to_set(),
        decreases names.len() - i,
    {
        assert(all.take(i + 1).drop_last() =~= all.take(i as int));
        if let Some(key) = normalize_ztf_ssnamenr(names[i].as_str()) {
            let ghost keys = text::texts(out@);
            if seen.insert(key.clone()) {
                out.push(key);
                proof {
                    assert(text::texts(out@) =~= keys.push(key@));
                    lists::lemma_to_set_push(keys, key@);
                }
            } else {
                assert(seen@ =~= keys.to_set());
            }
        }
        i = i + 1;
    }
    assert(all.take(i as int) =~= all);
    out
}

/// `map` gives each of the names whose key has elements those elements.
pub open spec fn are_orbits_of(
    map: Map<Seq<char>, OrbitalElements>,
    names: Seq<Seq<char>>,
    by_key: Map<Seq<char>, OrbitalElements>,
) -> bool {
    forall|name: Seq<char>|
        (#[trigger] map.contains_key(name) <==> names.contains(name) && designation::name_key(
            name,
        ) is Some && by_key.contains_key(designation::name_key(name)->0)) && (map.contains_key(name)
            ==> map[name] == by_key[designation::name_key(name)->0])
}

/// The elements of the objects in a batch, keyed by `ssnamenr` as the alert carries it, not
/// by the MPCORB key, so each distinct name is normalised once here rather than again per
/// alert.
pub fn orbits_by_name(names: &Vec<String>, by_key: &StringHashMap<OrbitalElements>) -> (r:
    StringHashMap<OrbitalElements>)
    ensures
        are_orbits_of(r@, text::texts(names@), by_key@),
{
    let mut map: StringHashMap<OrbitalElements> = StringHashMap::new();
    let ghost all = text::texts(names@);
    let mut i: usize = 0;
    while i < names.len()
        invariant
            i <= names.len(),
            all == text::texts(names@),
            are_orbits_of(map@, all.take(i as int), by_key@),
        decreases names.len() - i,
    {
        let ghost before = map@;
        let ghost prefix = all.take(i as int);
        if let Some(key) = normalize_ztf_ssnamenr(names[i].as_str()) {
            if let Some(elements) = by_key.get(key.as_str()) {
                map.insert(names[i].clone(), *elements);
            }
        }
        proof {
            let next = all.take(i + 1);
            assert(next =~= prefix.push(all[i as int]));
            assert forall|name: Seq<char>|
                (#[trigger] map@.contains_key(name) <==> next.contains(name)
                    && designation::name_key(name) is Some && by_key@.contains_key(
                    designation::name_key(name)->0,
                )) && (map@.contains_key(name) ==> map@[name] == by_key@[designation::name_key(
                    name,
                )->0]) by {
                assert(before.contains_key(name) <==> prefix.contains(name)
                    && designation::name_key(name) is Some && by_key@.contains_key(
                    designation::name_key(name)->0,
                ));
                if prefix.contains(name) {
                    let k = choose|k: int| 0 <= k < prefix.len() && prefix[k] == name;
                    assert(next[k] == name);
                }
                assert(next[i as int] == all[i as int]);
            }
        }
        i = i + 1;
    }
    assert(all.take(i as int) =~= all);
    map
}

/// The lesser of two times; the other one where one is not a number.
pub open spec fn lesser(a: Double, b: Double) -> Double {
    if double::is_nan(b) || double::le(a, b) {
        a
    } else {
        b
    }
}

/// The earliest time of these alerts: infinity where there is none.
pub open spec fn earliest(alerts: Seq<ZtfAlertForEnrichment>) -> Double
    decreases alerts.len(),
{
    if alerts.len() == 0 {
        Double { bits: 0x7ff0_0000_0000_0000 }
    } else {
        lesser(earliest(alerts.drop_last()), alerts.last().candidate.candidate.jd)
    }
}

/// The earliest time of a batch.
pub fn earliest_of(alerts: &Vec<ZtfAlertForEnrichment>) -> (r: Double)
    ensures
        r == earliest(alerts@),
{
    let mut least = Double { bits: 0x7ff0_0000_0000_0000 };
    let mut i: usize = 0;
    while i < alerts.len()
        invariant
            i <= alerts.len(),
            least == earliest(alerts@.take(i as int)),
        decreases alerts.len() - i,
    {
        assert(alerts@.take(i + 1).drop_last() =~= alerts@.take(i as int));
        let jd = alerts[i].candidate.candidate.jd;
        if !(jd.is_nan() || least.at_most(jd)) {
            least = jd;
        }
        i = i + 1;
    }
    assert(alerts@.take(i as int) =~= alerts@);
    least
}

/// A detection close to the predicted position.
pub open spec fn separation_fields(max_separation: Double) -> Seq<(Seq<char>, Content)> {
    let d = bson_doc::no_fields();
    let d = bson_doc::with_field(d, "$gte"@, Content::Double(0));
    bson_doc::with_field(d, "$lt"@, Content::Double(max_separation.bits))
}

/// A detection close to the predicted position.
fn separation(max_separation: Double) -> (r: Document)
    ensures
        bson_doc::document_fields(r) == separation_fields(max_separation),
{
    let d = new_document();
    let d = with(d, "$gte", double_value(Double { bits: 0 }));
    with(d, "$lt", double_value(max_separation))
}

/// The query for the detections of these objects since a time, close to their predicted
/// positions.
pub open spec fn history_filter_fields(
    names: Seq<Seq<char>>,
    from: Double,
    max_separation: Double,
) -> Seq<(Seq<char>, Content)> {
    let d = bson_doc::no_fields();
    let d = bson_doc::with_field(
        d,
        "candidate.ssnamenr"@,
        bson_doc::wrapped("$in"@, Content::Array(bson_doc::text_values(names))),
    );
    let d = bson_doc::with_field(
        d,
        "candidate.jd"@,
        bson_doc::wrapped("$gte"@, Content::Double(from.bits)),
    );
    bson_doc::with_field(
        d,
        "candidate.ssdistnr"@,
        Content::Object(separation_fields(max_separation)),
    )
}

/// The query for the detections of these objects since a time, close to their predicted
/// positions.
pub fn history_filter(names: &Vec<String>, from: Double, max_separation: Double) -> (r: Document)
    ensures
        bson_doc::document_fields(r) == history_filter_fields(
            text::texts(names@),
            from,
            max_separation,
        ),
{
    let d = new_document();
    let d = with(d, "candidate.ssnamenr", wrap("$in", text_list(names)));
    let d = with(d, "candidate.jd", wrap("$gte", double_value(from)));
    with(d, "candidate.ssdistnr", object(separation(max_separation)))
}

/// Longest window that an outburst is scored over, so also how far back history is read:
/// 30 days.
pub open spec fn history_window_days() -> Double {
    Double { bits: 0x403e_0000_0000_0000 }
}

/// The query for the history of the objects in a batch, in one go, reaching back from the
/// earliest alert of the batch. `objectId` cannot be used to join a mover's detections, so it
/// goes by `ssnamenr`. Without objects there is nothing to ask for.
///
/// `minus` subtracts the window from a time.
pub fn history_query<M: Fn(Double, Double) -> Double>(
    alerts: &Vec<ZtfAlertForEnrichment>,
    max_separation: Double,
    minus: &M,
) -> (r: Option<Document>)
    requires
        forall|a: Double, b: Double| #[trigger] minus.requires((a, b)),
    ensures
        match r {
            Some(filter) => names_in(alerts@).len() > 0 && exists|from: Double|
                minus.ensures((earliest(alerts@), history_window_days()), from)
                    && bson_doc::document_fields(filter) == #[trigger] history_filter_fields(
                    names_in(alerts@),
                    from,
                    max_separation,
                ),
            None => names_in(alerts@).len() == 0,
        },
{
    let names = object_names(alerts);
    if names.is_empty() {
        assert(text::texts(names@).len() == 0);
        None
    } else {
        let from = minus(earliest_of(alerts), Double { bits: 0x403e_0000_0000_0000 });
        assert(text::texts(names@).len() == names@.len());
        Some(history_filter(&names, from, max_separation))
    }
}

/// What is read of them.
pub open spec fn history_projection_fields() -> Seq<(Seq<char>, Content)> {
    let d = bson_doc::no_fields();
    let d = bson_doc::with_field(d, "_id"@, Content::Int32(0));
    let d = bson_doc::with_field(d, "candidate.ssnamenr"@, Content::Int32(1));
    let d = bson_doc::with_field(d, "candidate.jd"@, Content::Int32(1));
    let d = bson_doc::with_field(d, "candidate.fid"@, Content::Int32(1));
    let d = bson_doc::with_field(d, "candidate.magpsf"@, Content::Int32(1));
    let d = bson_doc::with_field(d, "candidate.sigmapsf"@, Content::Int32(1));
    let d = bson_doc::with_field(d, "candidate.ssdistnr"@, Content::Int32(1));
    let d = bson_doc::with_field(d, "properties.sso.helio_dist"@, Content::Int32(1));
    let d = bson_doc::with_field(d, "properties.sso.topo_dist"@, Content::Int32(1));
    bson_doc::with_field(d, "properties.sso.phase_angle"@, Content::Int32(1))
}

/// What is read of them.
pub fn history_projection() -> (r: Document)
    ensures
        bson_doc::document_fields(r) == history_projection_fields(),
{
    let d = new_document();
    let d = with(d, "_id", int32(0));
    let d = with(d, "candidate.ssnamenr", int32(1));
    let d = with(d, "candidate.jd", int32(1));
    let d = with(d, "candidate.fid", int32(1));
    let d = with(d, "candidate.magpsf", int32(1));
    let d = with(d, "candidate.sigmapsf", int32(1));
    let d = with(d, "candidate.ssdistnr", int32(1));
    let d = with(d, "properties.sso.helio_dist", int32(1));
    let d = with(d, "properties.sso.topo_dist", int32(1));
    with(d, "properties.sso.phase_angle", int32(1))
}

/// The last of these documents with an identifier; -1 where there is none.
pub open spec fn last_with_id(docs: Seq<Seq<(Seq<char>, Content)>>, id: Seq<char>) -> int
    decreases docs.len(),
{
    if docs.len() == 0 {
        -1
    } else if bson_doc::text_field(docs.last(), "_id"@) == Some(id) {
        docs.len() - 1
    } else {
        last_with_id(docs.drop_last(), id)
    }
}

/// `map` holds, under each identifier of the documents, what `curves` makes of the last
/// document with it.
pub open spec fn are_baselines<C, F: Fn(&Document) -> C>(
    map: Map<Seq<char>, C>,
    docs: Seq<Document>,
    curves: F,
) -> bool {
    forall|id: Seq<char>|
        (#[trigger] map.contains_key(id) <==> last_with_id(bson_doc::documents(docs), id) >= 0)
            && (map.contains_key(id) ==> curves.ensures(
            (&docs[last_with_id(bson_doc::documents(docs), id)],),
            map[id],
        ))
}

/// Fitted phase curves for the objects of a batch, keyed by `ssnamenr`, from the documents
/// that a query returned. `curves` reads the curves of a document.
pub fn baselines_from_documents<C, F: Fn(&Document) -> C>(docs: &Vec<Document>, curves: &F) -> (r:
    StringHashMap<C>)
    requires
        forall|d: &Document| #[trigger] curves.requires((d,)),
    ensures
        are_baselines(r@, docs@, *curves),
{
    let mut map: StringHashMap<C> = StringHashMap::new();
    let mut i: usize = 0;
    while i < docs.len()
        invariant
            i <= docs.len(),
            forall|d: &Document| #[trigger] curves.requires((d,)),
            are_baselines(map@, docs@.take(i as int), *curves),
        decreases docs.len() - i,
    {
        let ghost before = map@;
        let ghost prefix = docs@.take(i as int);
        let ghost next = docs@.take(i + 1);
        proof {
            assert(bson_doc::documents(next).drop_last() =~= bson_doc::documents(prefix));
        }
        if let Some(id) = get_text(&docs[i], "_id") {
            let value = curves(&docs[i]);
            map.insert(id.to_owned(), value);
        }
        proof {
            assert forall|id: Seq<char>|
                (#[trigger] map@.contains_key(id) <==> last_with_id(bson_doc::documents(next), id)
                    >= 0) && (map@.contains_key(id) ==> curves.ensures(
                    (&next[last_with_id(bson_doc::documents(next), id)],),
                    map@[id],
                )) by {
                assert(before.contains_key(id) <==> last_with_id(bson_doc::documents(prefix), id)
                    >= 0);
                lemma_last_with_id(bson_doc::documents(prefix), id);
            }
        }
        i = i + 1;
    }
    assert(docs@.take(i as int) =~= docs@);
    map
}

proof fn lemma_last_with_id(docs: Seq<Seq<(Seq<char>, Content)>>, id: Seq<char>)
    ensures
        -1 <= last_with_id(docs, id) < docs.len(),
    decreases docs.len(),
{
    if docs.len() > 0 {
        lemma_last_with_id(docs.drop_last(), id);
    }
}

} // verus!
