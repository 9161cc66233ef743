//! What holds of moving objects: what a detection is scored with, and what is remembered of
//! earlier ones.

use crate::enrichment::alert::{Candidate, ZtfAlertForEnrichment};
use crate::enrichment::association;
use crate::enrichment::association::{Point, ZtfSsoAssociation};
use crate::utils::bson_doc;
use crate::utils::bson_doc::Content;
use crate::utils::designation;
use crate::utils::double;
use crate::utils::double::Double;
use crate::utils::double_laws;
use crate::utils::sorting;
use crate::utils::sso_geometry::{Geometry, OrbitalElements};
use std::collections::HashMap;
use vstd::prelude::*;

verus! {

/// A detection that can be scored is scored at its own geometry: the distance from the Sun,
/// the distance from the observer, the phase angle, and the magnitude that was measured of
/// it, in its band.
pub proof fn law_detections_are_scored_at_their_geometry(
    sso: ZtfSsoAssociation,
    candidate: Candidate,
    histories: Map<Seq<char>, Vec<(Double, Point)>>,
    max_separation: Double,
)
    requires
        association::scoring(sso, candidate, histories, max_separation) is Some,
    ensures
        ({
            let test = association::scoring(sso, candidate, histories, max_separation)->0.test;
            &&& sso.helio_dist == Some(test.rh)
            &&& sso.topo_dist == Some(test.delta)
            &&& sso.phase_angle == Some(test.phase)
            &&& candidate.magpsf == test.mag
            &&& candidate.sigmapsf == test.mag_err
            &&& 0 <= candidate.fid <= 255 ==> test.band == candidate.fid
        }),
{
}

/// A detection can be scored exactly where it lies less than the greatest separation from the
/// predicted position, and has geometry and a designation.
pub proof fn law_what_can_be_scored(
    sso: ZtfSsoAssociation,
    candidate: Candidate,
    histories: Map<Seq<char>, Vec<(Double, Point)>>,
    max_separation: Double,
)
    ensures
        association::scoring(sso, candidate, histories, max_separation) is Some <==> {
            &&& sso.separation_arcsec matches Some(s) && !double::le(max_separation, s)
            &&& sso.helio_dist is Some && sso.topo_dist is Some && sso.phase_angle is Some
            &&& sso.designation is Some
        },
{
}

/// The point that is scored live and the one that is read back from the stored alert agree:
/// where a document holds the candidate and the association, its detection is the scored
/// point, under the name and at the time of the candidate.
pub proof fn law_live_and_stored_points_agree(
    sso: ZtfSsoAssociation,
    candidate: Candidate,
    name: Seq<char>,
    fields: Seq<(Seq<char>, Content)>,
    stored: Seq<(Seq<char>, Content)>,
    properties: Seq<(Seq<char>, Content)>,
    stored_sso: Seq<(Seq<char>, Content)>,
    histories: Map<Seq<char>, Vec<(Double, Point)>>,
    max_separation: Double,
)
    requires
        association::scoring(sso, candidate, histories, max_separation) is Some,
        0 <= candidate.fid <= 255,
        bson_doc::lookup(fields, "candidate"@) == Some(Content::Object(stored)),
        bson_doc::lookup(fields, "properties"@) == Some(Content::Object(properties)),
        bson_doc::lookup(properties, "sso"@) == Some(Content::Object(stored_sso)),
        bson_doc::lookup(stored, "ssnamenr"@) == Some(Content::Text(name)),
        bson_doc::lookup(stored, "jd"@) == Some(Content::Double(candidate.jd.bits)),
        bson_doc::lookup(stored, "magpsf"@) == Some(Content::Double(candidate.magpsf.bits)),
        bson_doc::lookup(stored, "sigmapsf"@) == Some(Content::Double(candidate.sigmapsf.bits)),
        bson_doc::lookup(stored, "fid"@) == Some(Content::Int32(candidate.fid)),
        bson_doc::lookup(stored_sso, "helio_dist"@) == Some(
            Content::Double(sso.helio_dist->0.bits),
        ),
        bson_doc::lookup(stored_sso, "topo_dist"@) == Some(Content::Double(sso.topo_dist->0.bits)),
        bson_doc::lookup(stored_sso, "phase_angle"@) == Some(
            Content::Double(sso.phase_angle->0.bits),
        ),
    ensures
        association::detection(fields) == Some(
            (
                name,
                candidate.jd,
                association::scoring(sso, candidate, histories, max_separation)->0.test,
            ),
        ),
{
    double_laws::law_bytes_survive_as_numbers(candidate.fid as u8);
}

/// A number counts the same at whatever width it was written.
pub proof fn law_numbers_count_at_any_width(n: i32)
    ensures
        bson_doc::number_value(Content::Int32(n)) == bson_doc::number_value(
            Content::Int64(n as i64),
        ),
        bson_doc::number_value(Content::Int32(n)) == bson_doc::number_value(
            Content::Double(double::of_integer(n as int).bits),
        ),
        bson_doc::number_value(Content::Null) is None && bson_doc::number_value(
            Content::Bool(true),
        ) is None,
{
}

/// A detection is scored against all earlier ones of its object and no others, in their order.
pub proof fn law_all_earlier_detections_are_compared(
    sso: ZtfSsoAssociation,
    candidate: Candidate,
    histories: Map<Seq<char>, Vec<(Double, Point)>>,
    max_separation: Double,
)
    requires
        association::scoring(sso, candidate, histories, max_separation) is Some,
    ensures
        ({
            let s = association::scoring(sso, candidate, histories, max_separation)->0;
            let name = sso.designation->0@;
            &&& histories.contains_key(name) ==> s.history == histories[name]@.filter(
                |p: (Double, Point)| double::lt(p.0, candidate.jd),
            )
            &&& !histories.contains_key(name) ==> s.history.len() == 0
        }),
{
}

/// An outburst is scored at the time of the detection, against the baseline of its own object
/// in its own band where there is one, and against none where there is none.
pub proof fn law_outbursts_are_of_the_object<
    C,
    O,
    F: Fn(&Vec<(Double, Point)>, Point, Double, Option<&C>) -> Option<O>,
>(
    r: Option<O>,
    sso: ZtfSsoAssociation,
    candidate: Candidate,
    histories: Map<Seq<char>, Vec<(Double, Point)>>,
    baselines: Map<Seq<char>, HashMap<u8, C>>,
    max_separation: Double,
    from_history: F,
)
    requires
        association::is_outburst(
            r,
            sso,
            candidate,
            histories,
            baselines,
            max_separation,
            from_history,
        ),
        r is Some,
    ensures
        association::scoring(sso, candidate, histories, max_separation) is Some,
        ({
            let s = association::scoring(sso, candidate, histories, max_separation)->0;
            let name = sso.designation->0@;
            let known = baselines.contains_key(name) && baselines[name]@.contains_key(s.test.band);
            exists|history: &Vec<(Double, Point)>, curve: Option<&C>|
                {
                    &&& #[trigger] from_history.ensures((history, s.test, candidate.jd, curve), r)
                    &&& history@ == s.history
                    &&& curve is Some <==> known
                    &&& curve matches Some(c) ==> *c == baselines[name]@[s.test.band]
                }
        }),
{
    let s = association::scoring(sso, candidate, histories, max_separation)->0;
    let (history, curve) = choose|history: &Vec<(Double, Point)>, curve: Option<&C>|
        history@ == s.history && association::is_curve(
            curve,
            association::baseline(
                baselines,
                designation::text_view(sso.designation),
                s.test.band,
            ),
        ) && #[trigger] from_history.ensures((history, s.test, candidate.jd, curve), r);
    assert(from_history.ensures((history, s.test, candidate.jd, curve), r));
}

/// An association says who was identified and by whom, and keeps separation and magnitude
/// where they were measured; a negative number is a sentinel and is dropped. It has no
/// geometry of its own.
pub proof fn law_associations_drop_sentinels(
    a: ZtfSsoAssociation,
    name: Option<String>,
    ssdistnr: Option<Double>,
    ssmagnr: Option<Double>,
)
    requires
        association::is_association(a, name, ssdistnr, ssmagnr),
    ensures
        a.is_sso <==> name is Some,
        a.designation == name,
        name is Some ==> a.source is Some && a.source->0@ == "ipac"@,
        name is None ==> a.source is None,
        ssdistnr matches Some(d) ==> a.separation_arcsec == if double::le(
            double::of_integer(0),
            d,
        ) {
            Some(d)
        } else {
            None
        },
        ssmagnr matches Some(m) ==> a.predicted_mag == if double::le(double::of_integer(0), m) {
            Some(m)
        } else {
            None
        },
        ssdistnr is None ==> a.separation_arcsec is None,
        ssmagnr is None ==> a.predicted_mag is None,
        a.helio_dist is None && a.topo_dist is None && a.phase_angle is None,
        a.true_anomaly is None && a.perihelion_time is None,
{
    double_laws::lemma_named_numbers();
}

/// Geometry is filled in field by field, in single precision but for the time of perihelion,
/// and leaves what was identified as it was.
pub proof fn law_geometry_is_filled_in_by_name(a: ZtfSsoAssociation, g: Geometry)
    ensures
        ({
            let r = association::with_geometry_of(a, g);
            &&& r.helio_dist == Some(double::narrowed(g.helio_dist))
            &&& r.topo_dist == Some(double::narrowed(g.topo_dist))
            &&& r.phase_angle == Some(double::narrowed(g.phase_angle))
            &&& r.true_anomaly == Some(double::narrowed(g.true_anomaly))
            &&& r.perihelion_time == Some(g.perihelion_time)
            &&& r.is_sso == a.is_sso && r.designation == a.designation && r.source == a.source
            &&& r.separation_arcsec == a.separation_arcsec
            &&& r.predicted_mag == a.predicted_mag
        }),
{
}

proof fn lemma_detections_are_held(
    docs: Seq<Seq<(Seq<char>, Content)>>,
    name: Seq<char>,
    p: (Double, Point),
)
    ensures
        association::detections_of(docs, name).contains(p) <==> exists|i: int|
            0 <= i < docs.len() && association::detection(#[trigger] docs[i]) == Some(
                (name, p.0, p.1),
            ),
    decreases docs.len(),
{
    if docs.len() > 0 {
        let front = docs.drop_last();
        lemma_detections_are_held(front, name, p);
        let before = association::detections_of(front, name);
        let now = association::detections_of(docs, name);
        if before.contains(p) {
            let k = choose|k: int| 0 <= k < before.len() && before[k] == p;
            assert(now[k] == p);
            let i = choose|i: int|
                0 <= i < front.len() && association::detection(#[trigger] front[i]) == Some(
                    (name, p.0, p.1),
                );
            assert(docs[i] == front[i]);
        }
        if association::detection(docs.last()) == Some((name, p.0, p.1)) {
            assert(now[before.len() as int] == p);
            assert(docs[docs.len() - 1] == docs.last());
        }
        if now.contains(p) && !before.contains(p) {
            let k = choose|k: int| 0 <= k < now.len() && now[k] == p;
            if k < before.len() {
                assert(before[k] == p);
            }
        }
        if exists|i: int|
            0 <= i < docs.len() && association::detection(#[trigger] docs[i]) == Some(
                (name, p.0, p.1),
            ) {
            let i = choose|i: int|
                0 <= i < docs.len() && association::detection(#[trigger] docs[i]) == Some(
                    (name, p.0, p.1),
                );
            if i < front.len() {
                assert(front[i] == docs[i]);
            }
        }
    }
}

/// The history of an object holds the detections that stored alerts describe of it, all of
/// them and no others, and in the order of time.
pub proof fn law_histories_hold_every_detection(
    map: Map<Seq<char>, Vec<(Double, Point)>>,
    docs: Seq<Seq<(Seq<char>, Content)>>,
    name: Seq<char>,
    p: (Double, Point),
)
    requires
        association::are_histories(map, docs),
    ensures
        map.contains_key(name) && map[name]@.contains(p) <==> exists|i: int|
            0 <= i < docs.len() && association::detection(#[trigger] docs[i]) == Some(
                (name, p.0, p.1),
            ),
        map.contains_key(name) ==> forall|i: int, j: int|
            0 <= i <= j < map[name]@.len() ==> double::total_order((#[trigger] map[name]@[i]).0)
                <= double::total_order((#[trigger] map[name]@[j]).0),
{
    broadcast use vstd::seq_lib::group_to_multiset_ensures;

    let found = association::detections_of(docs, name);
    let key = association::detection_time();
    lemma_detections_are_held(docs, name, p);
    sorting::law_sorting_is_stable(found, key, 0);
    let kept = sorting::sorted(found, key);
    assert(kept.contains(p) <==> kept.to_multiset().count(p) > 0);
    assert(found.contains(p) <==> found.to_multiset().count(p) > 0);
    if map.contains_key(name) {
        assert(map[name]@ == kept);
        assert forall|i: int, j: int| 0 <= i <= j < kept.len() implies double::total_order(
            (#[trigger] kept[i]).0,
        ) <= double::total_order((#[trigger] kept[j]).0) by {
            assert(key(kept[i]) <= key(kept[j]));
        }
    }
}

/// The objects of a batch are those that its alerts name, each once.
pub proof fn law_objects_are_named_once(alerts: Seq<ZtfAlertForEnrichment>, name: Seq<char>)
    ensures
        association::names_in(alerts).no_duplicates(),
        association::names_in(alerts).contains(name) <==> exists|i: int|
            0 <= i < alerts.len() && ((#[trigger] alerts[i]).candidate.candidate.ssnamenr matches Some(
                s,
            ) && s@ == name),
    decreases alerts.len(),
{
    if alerts.len() > 0 {
        let front = alerts.drop_last();
        law_objects_are_named_once(front, name);
        let before = association::names_in(front);
        let now = association::names_in(alerts);
        let last = designation::text_view(alerts.last().candidate.candidate.ssnamenr);
        if before.contains(name) {
            let k = choose|k: int| 0 <= k < before.len() && before[k] == name;
            assert(now[k] == name);
            let i = choose|i: int|
                0 <= i < front.len() && ((
                #[trigger] front[i]).candidate.candidate.ssnamenr matches Some(s) && s@ == name);
            assert(alerts[i] == front[i]);
        }
        if last == Some(name) {
            if !before.contains(name) {
                assert(now[before.len() as int] == name);
            }
            assert(alerts[alerts.len() - 1] == alerts.last());
        }
        if now.contains(name) && !before.contains(name) {
            let k = choose|k: int| 0 <= k < now.len() && now[k] == name;
            if k < before.len() {
                assert(before[k] == name);
            }
        }
        if exists|i: int|
            0 <= i < alerts.len() && ((
            #[trigger] alerts[i]).candidate.candidate.ssnamenr matches Some(s) && s@ == name) {
            let i = choose|i: int|
                0 <= i < alerts.len() && ((
                #[trigger] alerts[i]).candidate.candidate.ssnamenr matches Some(s) && s@ == name);
            if i < front.len() {
                assert(front[i] == alerts[i]);
            }
        }
    }
}

/// The keys that are asked for are those of the names, each once.
pub proof fn law_keys_are_asked_for_once(names: Seq<Seq<char>>, key: Seq<char>)
    ensures
        association::keys_of(names).no_duplicates(),
        association::keys_of(names).contains(key) <==> exists|i: int|
            0 <= i < names.len() && designation::name_key(#[trigger] names[i]) == Some(key),
    decreases names.len(),
{
    if names.len() > 0 {
        let front = names.drop_last();
        law_keys_are_asked_for_once(front, key);
        let before = association::keys_of(front);
        let now = association::keys_of(names);
        if before.contains(key) {
            let k = choose|k: int| 0 <= k < before.len() && before[k] == key;
            assert(now[k] == key);
            let i = choose|i: int|
                0 <= i < front.len() && designation::name_key(#[trigger] front[i]) == Some(key);
            assert(names[i] == front[i]);
        }
        if designation::name_key(names.last()) == Some(key) {
            if !before.contains(key) {
                assert(now[before.len() as int] == key);
            }
            assert(names[names.len() - 1] == names.last());
        }
        if now.contains(key) && !before.contains(key) {
            let k = choose|k: int| 0 <= k < now.len() && now[k] == key;
            if k < before.len() {
                assert(before[k] == key);
            }
        }
        if exists|i: int|
            0 <= i < names.len() && designation::name_key(#[trigger] names[i]) == Some(key) {
            let i = choose|i: int|
                0 <= i < names.len() && designation::name_key(#[trigger] names[i]) == Some(key);
            if i < front.len() {
                assert(front[i] == names[i]);
            }
        }
    }
}

/// The earliest time of a batch comes after none of its alerts, and is the time of one of
/// them, or beyond all numbers where none has a time.
pub proof fn law_no_alert_is_earlier_than_the_earliest(
    alerts: Seq<ZtfAlertForEnrichment>,
    i: int,
)
    ensures
        !double::is_nan(association::earliest(alerts)),
        0 <= i < alerts.len() && !double::is_nan(alerts[i].candidate.candidate.jd) ==> double::le(
            association::earliest(alerts),
            alerts[i].candidate.candidate.jd,
        ),
        association::earliest(alerts).bits == 0x7ff0_0000_0000_0000 || exists|k: int|
            0 <= k < alerts.len() && (#[trigger] alerts[k]).candidate.candidate.jd
                == association::earliest(alerts),
    decreases alerts.len(),
{
    if alerts.len() > 0 {
        let front = alerts.drop_last();
        law_no_alert_is_earlier_than_the_earliest(front, i);
        assert(alerts[alerts.len() - 1] == alerts.last());
        if 0 <= i < front.len() {
            assert(front[i] == alerts[i]);
        }
        if exists|k: int|
            0 <= k < front.len() && (#[trigger] front[k]).candidate.candidate.jd
                == association::earliest(front) {
            let k = choose|k: int|
                0 <= k < front.len() && (#[trigger] front[k]).candidate.candidate.jd
                    == association::earliest(front);
            assert(alerts[k] == front[k]);
        }
    }
}

/// The query for a history asks, of the stored candidates, for these names, for times from
/// this one on, and for separations that were measured and lie below the greatest; and for
/// nothing else.
pub proof fn law_history_queries_ask_by_name(
    names: Seq<Seq<char>>,
    from: Double,
    max_separation: Double,
    key: Seq<char>,
)
    ensures
        bson_doc::lookup(association::history_filter_fields(names, from, max_separation), key)
            == if key == "candidate.ssdistnr"@ {
            Some(Content::Object(association::separation_fields(max_separation)))
        } else if key == "candidate.jd"@ {
            Some(bson_doc::wrapped("$gte"@, Content::Double(from.bits)))
        } else if key == "candidate.ssnamenr"@ {
            Some(
                bson_doc::wrapped(
                    "$in"@,
                    Content::Array(names.map_values(|n: Seq<char>| Content::Text(n))),
                ),
            )
        } else {
            None::<Content>
        },
        bson_doc::lookup(association::separation_fields(max_separation), key) == if key == "$lt"@ {
            Some(Content::Double(max_separation.bits))
        } else if key == "$gte"@ {
            Some(Content::Double(double::of_integer(0).bits))
        } else {
            None::<Content>
        },
        bson_doc::lookup(bson_doc::one("$gte"@, Content::Double(from.bits)), key) == if key
            == "$gte"@ {
            Some(Content::Double(from.bits))
        } else {
            None::<Content>
        },
{
    double_laws::lemma_named_numbers();
    let none = bson_doc::no_fields();
    let a = bson_doc::wrapped("$in"@, Content::Array(bson_doc::text_values(names)));
    let b = bson_doc::wrapped("$gte"@, Content::Double(from.bits));
    let c = Content::Object(association::separation_fields(max_separation));
    assert(bson_doc::text_values(names) =~= names.map_values(|n: Seq<char>| Content::Text(n)));
    bson_doc::law_reads_give_back_writes(none, "candidate.ssnamenr"@, a, key);
    let d = bson_doc::with_field(none, "candidate.ssnamenr"@, a);
    bson_doc::law_reads_give_back_writes(d, "candidate.jd"@, b, key);
    let d = bson_doc::with_field(d, "candidate.jd"@, b);
    bson_doc::law_reads_give_back_writes(d, "candidate.ssdistnr"@, c, key);
    let e = bson_doc::with_field(none, "$gte"@, Content::Double(0));
    bson_doc::law_reads_give_back_writes(none, "$gte"@, Content::Double(0), key);
    bson_doc::law_reads_give_back_writes(e, "$lt"@, Content::Double(max_separation.bits), key);
    bson_doc::law_reads_give_back_writes(none, "$gte"@, Content::Double(from.bits), key);
}

/// A history is read thirty days back.
pub proof fn law_the_window_is_thirty_days()
    ensures
        association::history_window_days() == double::of_integer(30),
{
    double_laws::lemma_named_numbers();
}

/// What is read of a history: of each candidate its name, time, band, magnitude, uncertainty
/// and separation, and the three fields of its geometry.
pub proof fn law_history_projections_keep_what_is_read(key: Seq<char>)
    ensures
        bson_doc::lookup(association::history_projection_fields(), key) == if key
            == "candidate.ssnamenr"@ || key == "candidate.jd"@ || key == "candidate.fid"@
            || key == "candidate.magpsf"@ || key == "candidate.sigmapsf"@ || key
            == "candidate.ssdistnr"@ || key == "properties.sso.helio_dist"@ || key
            == "properties.sso.topo_dist"@ || key == "properties.sso.phase_angle"@ {
            Some(Content::Int32(1))
        } else if key == "_id"@ {
            Some(Content::Int32(0))
        } else {
            None::<Content>
        },
{
    let one = Content::Int32(1);
    let d = bson_doc::no_fields();
    bson_doc::law_reads_give_back_writes(d, "_id"@, Content::Int32(0), key);
    let d = bson_doc::with_field(d, "_id"@, Content::Int32(0));
    bson_doc::law_reads_give_back_writes(d, "candidate.ssnamenr"@, one, key);
    let d = bson_doc::with_field(d, "candidate.ssnamenr"@, one);
    bson_doc::law_reads_give_back_writes(d, "candidate.jd"@, one, key);
    let d = bson_doc::with_field(d, "candidate.jd"@, one);
    bson_doc::law_reads_give_back_writes(d, "candidate.fid"@, one, key);
    let d = bson_doc::with_field(d, "candidate.fid"@, one);
    bson_doc::law_reads_give_back_writes(d, "candidate.magpsf"@, one, key);
    let d = bson_doc::with_field(d, "candidate.magpsf"@, one);
    bson_doc::law_reads_give_back_writes(d, "candidate.sigmapsf"@, one, key);
    let d = bson_doc::with_field(d, "candidate.sigmapsf"@, one);
    bson_doc::law_reads_give_back_writes(d, "candidate.ssdistnr"@, one, key);
    let d = bson_doc::with_field(d, "candidate.ssdistnr"@, one);
    bson_doc::law_reads_give_back_writes(d, "properties.sso.helio_dist"@, one, key);
    let d = bson_doc::with_field(d, "properties.sso.helio_dist"@, one);
    bson_doc::law_reads_give_back_writes(d, "properties.sso.topo_dist"@, one, key);
    let d = bson_doc::with_field(d, "properties.sso.topo_dist"@, one);
    bson_doc::law_reads_give_back_writes(d, "properties.sso.phase_angle"@, one, key);
}

/// The elements of an object are found under its name exactly where its key has elements, and
/// are those of its key, so that two names of one object have the same.
pub proof fn law_names_of_one_object_have_the_same_elements(
    map: Map<Seq<char>, OrbitalElements>,
    names: Seq<Seq<char>>,
    by_key: Map<Seq<char>, OrbitalElements>,
    a: Seq<char>,
    b: Seq<char>,
)
    requires
        association::are_orbits_of(map, names, by_key),
        names.contains(a),
        names.contains(b),
        designation::name_key(a) is Some,
        designation::name_key(a) == designation::name_key(b),
    ensures
        map.contains_key(a) <==> by_key.contains_key(designation::name_key(a)->0),
        map.contains_key(a) ==> map[a] == by_key[designation::name_key(a)->0],
        map.contains_key(a) <==> map.contains_key(b),
        map.contains_key(a) ==> map[a] == map[b],
{
}

/// The baseline of an object is made of the last document with its identifier, and there is
/// one exactly where there is such a document.
pub proof fn law_the_last_document_counts(docs: Seq<Seq<(Seq<char>, Content)>>, id: Seq<char>)
    ensures
        ({
            let i = association::last_with_id(docs, id);
            &&& -1 <= i < docs.len()
            &&& i >= 0 ==> bson_doc::lookup(docs[i], "_id"@) == Some(Content::Text(id))
            &&& forall|k: int|
                i < k < docs.len() ==> bson_doc::lookup(#[trigger] docs[k], "_id"@) != Some(
                    Content::Text(id),
                )
        }),
    decreases docs.len(),
{
    if docs.len() > 0 {
        let front = docs.drop_last();
        law_the_last_document_counts(front, id);
        let i = association::last_with_id(docs, id);
        if i == docs.len() - 1 {
            assert(docs[i] == docs.last());
        } else {
            assert forall|k: int| i < k < docs.len() implies bson_doc::lookup(
                #[trigger] docs[k],
                "_id"@,
            ) != Some(Content::Text(id)) by {
                if k < front.len() {
                    assert(docs[k] == front[k]);
                } else {
                    assert(docs[k] == docs.last());
                }
            }
            if i >= 0 {
                assert(docs[i] == front[i]);
            }
        }
    }
}

/// A single earlier detection of the object is enough: a detection that can be scored is then
/// scored, with all earlier ones of its object, at its own time, and what comes of it is what
/// the score says.
pub proof fn law_one_earlier_detection_is_enough<
    C,
    O,
    F: Fn(&Vec<(Double, Point)>, Point, Double, Option<&C>) -> Option<O>,
>(
    r: Option<O>,
    sso: ZtfSsoAssociation,
    candidate: Candidate,
    histories: Map<Seq<char>, Vec<(Double, Point)>>,
    baselines: Map<Seq<char>, HashMap<u8, C>>,
    max_separation: Double,
    from_history: F,
    i: int,
)
    requires
        association::is_outburst(
            r,
            sso,
            candidate,
            histories,
            baselines,
            max_separation,
            from_history,
        ),
        association::scoring(sso, candidate, histories, max_separation) is Some,
        histories.contains_key(sso.designation->0@),
        0 <= i < histories[sso.designation->0@]@.len(),
        double::lt(histories[sso.designation->0@]@[i].0, candidate.jd),
    ensures
        exists|history: &Vec<(Double, Point)>, test: Point, curve: Option<&C>|
            {
                &&& #[trigger] from_history.ensures((history, test, candidate.jd, curve), r)
                &&& history@ == histories[sso.designation->0@]@.filter(
                    |p: (Double, Point)| double::lt(p.0, candidate.jd),
                )
                &&& Some(test.rh) == sso.helio_dist && Some(test.delta) == sso.topo_dist
            },
{
    let s = association::scoring(sso, candidate, histories, max_separation)->0;
    let all = histories[sso.designation->0@]@;
    let earlier = |p: (Double, Point)| double::lt(p.0, candidate.jd);
    law_all_earlier_detections_are_compared(sso, candidate, histories, max_separation);
    assert(s.history == all.filter(earlier));
    all.lemma_filter_contains(earlier, i);
    assert(all.filter(earlier).contains(all[i]));
    let (history, curve) = choose|history: &Vec<(Double, Point)>, curve: Option<&C>|
        history@ == s.history && association::is_curve(
            curve,
            association::baseline(
                baselines,
                designation::text_view(sso.designation),
                s.test.band,
            ),
        ) && #[trigger] from_history.ensures((history, s.test, candidate.jd, curve), r);
    assert(from_history.ensures((history, s.test, candidate.jd, curve), r));
}

/// A detection is unscored exactly where it lies at or beyond the greatest separation or has
/// none, lacks geometry or a designation, or its object has no detection before it.
pub proof fn law_what_is_unscored(
    sso: ZtfSsoAssociation,
    candidate: Candidate,
    histories: Map<Seq<char>, Vec<(Double, Point)>>,
    max_separation: Double,
)
    ensures
        association::is_unscored(sso, candidate, histories, max_separation) <==> {
            ||| association::scoring(sso, candidate, histories, max_separation) is None
            ||| association::scoring(
                sso,
                candidate,
                histories,
                max_separation,
            )->0.history.len() == 0
        },
{
    if association::scoring(sso, candidate, histories, max_separation) is Some {
        let name = sso.designation->0@;
        let all = association::history_in(histories, name);
        let earlier = |p: (Double, Point)| double::lt(p.0, candidate.jd);
        let kept = all.filter(earlier);
        law_all_earlier_detections_are_compared(sso, candidate, histories, max_separation);
        assert(association::scoring(sso, candidate, histories, max_separation)->0.history
            == kept) by {
            if !histories.contains_key(name) {
                reveal(Seq::filter);
                assert(kept =~= Seq::empty());
            }
        }
        if kept.len() > 0 {
            all.lemma_filter_pred(earlier, 0);
            all.lemma_filter_contains_rev(earlier, kept[0]);
            let i = choose|i: int| 0 <= i < all.len() && all[i] == kept[0];
            assert(double::lt(association::history_in(histories, name)[i].0, candidate.jd));
        } else {
            assert forall|i: int|
                0 <= i < association::history_in(histories, name).len() implies !double::lt(
                (#[trigger] association::history_in(histories, name)[i]).0,
                candidate.jd,
            ) by {
                if double::lt(all[i].0, candidate.jd) {
                    all.lemma_filter_contains(earlier, i);
                    assert(kept.contains(all[i]));
                }
            }
        }
    }
}

} // verus!
