//! What holds of stored orbits: which element is kept under which name.

use crate::utils::bson_doc;
use crate::utils::bson_doc::Content;
use crate::utils::comets::CometEntry;
use crate::utils::double;
use crate::utils::double::Double;
use crate::utils::double_laws;
use crate::utils::mpcorb;
use crate::utils::orbits;
use crate::utils::refresh;
use crate::utils::sso_geometry;
use crate::utils::sso_geometry::{Geometry, OrbitalElements, Perihelion};
use crate::utils::stage_laws;
use crate::utils::text;
use mongodb::bson::Document;
use vstd::prelude::*;

verus! {

/// An orbit is stored by its designation, each element under its own name, the magnitude and
/// the slope as null where there is none, and the time at which it was written.
pub proof fn law_orbits_are_stored_by_name(
    designation: Seq<char>,
    el: OrbitalElements,
    h: Option<Double>,
    g: Option<Double>,
    updated_at: Double,
    key: Seq<char>,
)
    ensures
        bson_doc::lookup(orbits::orbit_fields(designation, el, h, g, updated_at), key) == if key
            == "updated_at"@ {
            Some(Content::Double(updated_at.bits))
        } else if key == "g"@ {
            Some(if g is Some {
                Content::Double(g->0.bits)
            } else {
                Content::Null
            })
        } else if key == "h"@ {
            Some(if h is Some {
                Content::Double(h->0.bits)
            } else {
                Content::Null
            })
        } else if key == "tp"@ {
            Some(Content::Double(el.tp.bits))
        } else if key == "q"@ {
            Some(Content::Double(el.q.bits))
        } else if key == "mean_anomaly"@ {
            Some(Content::Double(el.mean_anomaly.bits))
        } else if key == "peri"@ {
            Some(Content::Double(el.peri.bits))
        } else if key == "node"@ {
            Some(Content::Double(el.node.bits))
        } else if key == "incl"@ {
            Some(Content::Double(el.incl.bits))
        } else if key == "e"@ {
            Some(Content::Double(el.e.bits))
        } else if key == "a"@ {
            Some(Content::Double(el.a.bits))
        } else if key == "epoch_jd"@ {
            Some(Content::Double(el.epoch_jd.bits))
        } else if key == "_id"@ {
            Some(Content::Text(designation))
        } else {
            None::<Content>
        },
{
    let d = bson_doc::no_fields();
    let v = Content::Text(designation);
    bson_doc::law_reads_give_back_writes(d, "_id"@, v, key);
    let d = bson_doc::with_field(d, "_id"@, v);
    let v = Content::Double(el.epoch_jd.bits);
    bson_doc::law_reads_give_back_writes(d, "epoch_jd"@, v, key);
    let d = bson_doc::with_field(d, "epoch_jd"@, v);
    let v = Content::Double(el.a.bits);
    bson_doc::law_reads_give_back_writes(d, "a"@, v, key);
    let d = bson_doc::with_field(d, "a"@, v);
    let v = Content::Double(el.e.bits);
    bson_doc::law_reads_give_back_writes(d, "e"@, v, key);
    let d = bson_doc::with_field(d, "e"@, v);
    let v = Content::Double(el.incl.bits);
    bson_doc::law_reads_give_back_writes(d, "incl"@, v, key);
    let d = bson_doc::with_field(d, "incl"@, v);
    let v = Content::Double(el.node.bits);
    bson_doc::law_reads_give_back_writes(d, "node"@, v, key);
    let d = bson_doc::with_field(d, "node"@, v);
    let v = Content::Double(el.peri.bits);
    bson_doc::law_reads_give_back_writes(d, "peri"@, v, key);
    let d = bson_doc::with_field(d, "peri"@, v);
    let v = Content::Double(el.mean_anomaly.bits);
    bson_doc::law_reads_give_back_writes(d, "mean_anomaly"@, v, key);
    let d = bson_doc::with_field(d, "mean_anomaly"@, v);
    let v = Content::Double(el.q.bits);
    bson_doc::law_reads_give_back_writes(d, "q"@, v, key);
    let d = bson_doc::with_field(d, "q"@, v);
    let v = Content::Double(el.tp.bits);
    bson_doc::law_reads_give_back_writes(d, "tp"@, v, key);
    let d = bson_doc::with_field(d, "tp"@, v);
    let v = bson_doc::optional_value(h);
    bson_doc::law_reads_give_back_writes(d, "h"@, v, key);
    let d = bson_doc::with_field(d, "h"@, v);
    let v = bson_doc::optional_value(g);
    bson_doc::law_reads_give_back_writes(d, "g"@, v, key);
    let d = bson_doc::with_field(d, "g"@, v);
    let v = Content::Double(updated_at.bits);
    bson_doc::law_reads_give_back_writes(d, "updated_at"@, v, key);
}

/// Elements are read under their own names. A document without any of the seven that a
/// catalogue gives has no elements; one without a perihelion gets the one that is derived from
/// the rest.
pub proof fn law_elements_are_read_by_name<P: Fn(OrbitalElements) -> Perihelion>(
    elements: Option<OrbitalElements>,
    fields: Seq<(Seq<char>, Content)>,
    perihelion: P,
)
    requires
        orbits::are_elements_of(elements, fields, perihelion),
    ensures
        elements is Some <==> {
            &&& bson_doc::double_field(fields, "epoch_jd"@) is Some
            &&& bson_doc::double_field(fields, "a"@) is Some
            &&& bson_doc::double_field(fields, "e"@) is Some
            &&& bson_doc::double_field(fields, "incl"@) is Some
            &&& bson_doc::double_field(fields, "node"@) is Some
            &&& bson_doc::double_field(fields, "peri"@) is Some
            &&& bson_doc::double_field(fields, "mean_anomaly"@) is Some
        },
        elements matches Some(el) ==> {
            &&& bson_doc::double_field(fields, "epoch_jd"@) == Some(el.epoch_jd)
            &&& bson_doc::double_field(fields, "a"@) == Some(el.a)
            &&& bson_doc::double_field(fields, "e"@) == Some(el.e)
            &&& bson_doc::double_field(fields, "incl"@) == Some(el.incl)
            &&& bson_doc::double_field(fields, "node"@) == Some(el.node)
            &&& bson_doc::double_field(fields, "peri"@) == Some(el.peri)
            &&& bson_doc::double_field(fields, "mean_anomaly"@) == Some(el.mean_anomaly)
        },
        elements is Some && (bson_doc::double_field(fields, "tp"@) matches Some(tp) && !double::eq(
            tp,
            double::of_integer(0),
        )) ==> {
            &&& elements->0.tp == bson_doc::double_field(fields, "tp"@)->0
            &&& elements->0.q == if bson_doc::double_field(fields, "q"@) is Some {
                bson_doc::double_field(fields, "q"@)->0
            } else {
                double::of_integer(0)
            }
        },
        elements is Some && bson_doc::double_field(fields, "tp"@) is None ==> exists|
            stored: OrbitalElements,
        | #[trigger]
            perihelion.ensures(
                (stored,),
                (Perihelion { q: elements->0.q, tp: elements->0.tp }),
            ) && stored == (OrbitalElements {
                q: stored.q,
                tp: double::of_integer(0),
                ..elements->0
            }),
{
    double_laws::lemma_named_numbers();
    if elements is Some && bson_doc::double_field(fields, "tp"@) is None {
        let stored = orbits::stored_elements(fields)->0;
        assert(double::eq(stored.tp, Double { bits: 0 }));
        let p = choose|p: Perihelion|
            perihelion.ensures((stored,), p) && elements->0
                == #[trigger] sso_geometry::at_perihelion(stored, p);
        assert(p == Perihelion { q: elements->0.q, tp: elements->0.tp });
        assert(perihelion.ensures(
            (stored,),
            (Perihelion { q: elements->0.q, tp: elements->0.tp }),
        ));
    }
}

/// Filling in geometry stores the distance from the Sun, the distance from the observer and the
/// phase angle under their own names, and leaves every other field as it was.
pub proof fn law_geometry_is_stored_by_name(
    fields: Seq<(Seq<char>, Content)>,
    geometry: Geometry,
    key: Seq<char>,
)
    ensures
        ({
            let after = orbits::with_geometry_fields(fields, geometry);
            &&& bson_doc::double_field(after, "helio_dist"@) == Some(geometry.helio_dist)
            &&& bson_doc::double_field(after, "topo_dist"@) == Some(geometry.topo_dist)
            &&& bson_doc::double_field(after, "phase_angle"@) == Some(geometry.phase_angle)
            &&& key != "helio_dist"@ && key != "topo_dist"@ && key != "phase_angle"@
                ==> bson_doc::lookup(after, key) == bson_doc::lookup(fields, key)
        }),
{
    reveal_strlit("helio_dist");
    reveal_strlit("topo_dist");
    reveal_strlit("phase_angle");
    assert("phase_angle"@[0] == 'p');
    assert("helio_dist"@[0] == 'h');
    assert("topo_dist"@[0] == 't');
    orbits::lemma_geometry_lookup(fields, geometry, "helio_dist"@);
    orbits::lemma_geometry_lookup(fields, geometry, "topo_dist"@);
    orbits::lemma_geometry_lookup(fields, geometry, "phase_angle"@);
    orbits::lemma_geometry_lookup(fields, geometry, key);
}

/// Geometry is there exactly where all three numbers are, and is filled in only where one is
/// missing and the orbit is known.
pub proof fn law_geometry_is_there_when_all_of_it_is(
    fields: Seq<(Seq<char>, Content)>,
    key: Seq<char>,
    elements: Map<Seq<char>, OrbitalElements>,
)
    ensures
        orbits::carries_geometry(fields) <==> {
            &&& bson_doc::double_field(fields, "helio_dist"@) is Some
            &&& bson_doc::double_field(fields, "topo_dist"@) is Some
            &&& bson_doc::double_field(fields, "phase_angle"@) is Some
        },
        orbits::needs_geometry(fields, key, elements) <==> !orbits::carries_geometry(fields)
            && elements.contains_key(key),
{
    let names = orbits::GEOMETRY_FIELDS@;
    assert(names[0]@ == "helio_dist"@ && names[1]@ == "topo_dist"@ && names[2]@ == "phase_angle"@);
}

/// Orbits are asked for by their identifiers, all of the keys in their order.
pub proof fn law_orbits_are_asked_for_by_identifier(keys: Seq<Seq<char>>, key: Seq<char>)
    ensures
        bson_doc::lookup(orbits::ids_filter_fields(keys), key) == if key == "_id"@ {
            Some(
                bson_doc::wrapped(
                    "$in"@,
                    Content::Array(keys.map_values(|k: Seq<char>| Content::Text(k))),
                ),
            )
        } else {
            None::<Content>
        },
{
    assert(bson_doc::text_values(keys) =~= keys.map_values(|k: Seq<char>| Content::Text(k)));
    let ids = bson_doc::wrapped("$in"@, Content::Array(bson_doc::text_values(keys)));
    stage_laws::law_one_field("_id"@, ids, key);
}

/// The keys that are still to be asked for are those that were not asked for before.
pub proof fn law_known_keys_are_not_asked_for(
    queried: Set<Seq<char>>,
    keys: Seq<Seq<char>>,
    key: Seq<char>,
)
    ensures
        orbits::missing_keys(queried, keys).contains(key) <==> keys.contains(key)
            && !queried.contains(key),
{
    let missing = |k: Seq<char>| !queried.contains(k);
    if keys.contains(key) && !queried.contains(key) {
        let i = choose|i: int| 0 <= i < keys.len() && keys[i] == key;
        keys.lemma_filter_contains(missing, i);
    }
    if keys.filter(missing).contains(key) {
        keys.lemma_filter_contains_rev(missing, key);
        let k = choose|k: int|
            0 <= k < keys.filter(missing).len() && keys.filter(missing)[k] == key;
        keys.lemma_filter_pred(missing, k);
    }
}

/// What is found under an identifier are the elements of the last document that has both the
/// identifier and elements; nothing is found where there is none.
pub proof fn law_orbits_are_found_by_identifier(
    docs: Seq<Seq<(Seq<char>, Content)>>,
    found: Seq<Option<OrbitalElements>>,
    id: Seq<char>,
    i: int,
)
    requires
        found.len() == docs.len(),
        0 <= i < docs.len(),
        bson_doc::lookup(docs[i], "_id"@) == Some(Content::Text(id)),
        found[i] is Some,
        forall|k: int|
            i < k < docs.len() && bson_doc::lookup(#[trigger] docs[k], "_id"@) == Some(
                Content::Text(id),
            ) ==> found[k] is None,
    ensures
        orbits::orbits_by_id(docs, found).contains_key(id),
        orbits::orbits_by_id(docs, found)[id] == found[i]->0,
    decreases docs.len(),
{
    if i < docs.len() - 1 {
        let front = docs.drop_last();
        assert forall|k: int|
            i < k < front.len() && bson_doc::lookup(#[trigger] front[k], "_id"@) == Some(
                Content::Text(id),
            ) implies found.drop_last()[k] is None by {
            assert(docs[k] == front[k]);
        }
        law_orbits_are_found_by_identifier(front, found.drop_last(), id, i);
        assert(docs[docs.len() - 1] == docs.last());
    }
}

/// Nothing is found that no document has.
pub proof fn law_nothing_is_found_that_was_not_stored(
    docs: Seq<Seq<(Seq<char>, Content)>>,
    found: Seq<Option<OrbitalElements>>,
    id: Seq<char>,
)
    requires
        found.len() == docs.len(),
        orbits::orbits_by_id(docs, found).contains_key(id),
    ensures
        exists|i: int|
            0 <= i < docs.len() && bson_doc::lookup(#[trigger] docs[i], "_id"@) == Some(
                Content::Text(id),
            ) && found[i] == Some(orbits::orbits_by_id(docs, found)[id]),
    decreases docs.len(),
{
    let front = docs.drop_last();
    if bson_doc::text_field(docs.last(), "_id"@) == Some(id) && found.last() is Some {
        assert(docs[docs.len() - 1] == docs.last());
    } else {
        law_nothing_is_found_that_was_not_stored(front, found.drop_last(), id);
        let i = choose|i: int|
            0 <= i < front.len() && bson_doc::lookup(#[trigger] front[i], "_id"@) == Some(
                Content::Text(id),
            ) && found.drop_last()[i] == Some(
                orbits::orbits_by_id(front, found.drop_last())[id],
            );
        assert(docs[i] == front[i]);
    }
}

/// A refreshed catalogue takes the place of the live one in the same database: the staged
/// collection is renamed to it, and what was there is dropped.
pub proof fn law_staged_orbits_replace_the_live_ones(database: Seq<char>, key: Seq<char>)
    ensures
        bson_doc::lookup(refresh::rename_fields(database), key) == if key == "dropTarget"@ {
            Some(Content::Bool(true))
        } else if key == "to"@ {
            Some(Content::Text(database + "."@ + "MPC_orbits"@))
        } else if key == "renameCollection"@ {
            Some(Content::Text(database + "."@ + "MPC_orbits_staging"@))
        } else {
            None::<Content>
        },
{
    let from = Content::Text(database + "."@ + refresh::STAGING_COLLECTION@);
    let to = Content::Text(database + "."@ + orbits::ORBITS_COLLECTION@);
    let d = bson_doc::no_fields();
    bson_doc::law_reads_give_back_writes(d, "renameCollection"@, from, key);
    let d = bson_doc::with_field(d, "renameCollection"@, from);
    bson_doc::law_reads_give_back_writes(d, "to"@, to, key);
    let d = bson_doc::with_field(d, "to"@, to);
    bson_doc::law_reads_give_back_writes(d, "dropTarget"@, Content::Bool(true), key);
}

/// Every comet that was parsed is stored with its own elements, and nothing else is: there are
/// as many documents as comets, and each is that of one of them.
pub proof fn law_every_comet_is_stored(
    entries: Seq<Option<CometEntry>>,
    now: Double,
    i: int,
    d: Seq<(Seq<char>, Content)>,
)
    ensures
        0 <= i < entries.len() && entries[i] is Some ==> refresh::comet_fields(
            entries,
            now,
        ).contains(
            orbits::orbit_fields(
                entries[i]->0.designation@,
                entries[i]->0.elements,
                entries[i]->0.h,
                entries[i]->0.g,
                now,
            ),
        ),
        refresh::comet_fields(entries, now).contains(d) ==> exists|k: int|
            0 <= k < entries.len() && (#[trigger] entries[k] matches Some(e)
                && d == orbits::orbit_fields(e.designation@, e.elements, e.h, e.g, now)),
        refresh::comet_fields(entries, now).len() == entries.filter(
            |e: Option<CometEntry>| e is Some,
        ).len(),
    decreases entries.len(),
{
    reveal(Seq::filter);
    let all = refresh::comet_fields(entries, now);
    if entries.len() > 0 {
        let front = entries.drop_last();
        let before = refresh::comet_fields(front, now);
        law_every_comet_is_stored(front, now, i, d);
        assert(entries[entries.len() - 1] == entries.last());
        if entries.last() is Some {
            assert(all[before.len() as int] == all.last());
            assert forall|x: Seq<(Seq<char>, Content)>| before.contains(x) implies all.contains(
                x,
            ) by {
                let k = choose|k: int| 0 <= k < before.len() && before[k] == x;
                assert(all[k] == x);
            }
        }
        if all.contains(d) {
            let m = choose|m: int| 0 <= m < all.len() && all[m] == d;
            if m < before.len() {
                assert(before[m] == d);
                let k = choose|k: int|
                    0 <= k < front.len() && (#[trigger] front[k] matches Some(e)
                        && d == orbits::orbit_fields(e.designation@, e.elements, e.h, e.g, now));
                assert(entries[k] == front[k]);
            }
        }
    }
}

/// A catalogue of fewer than a hundred thousand orbits is not believed; five lines that were
/// rejected are shown, a hundred and twenty characters of each; progress is told every two
/// hundred thousand orbits; and a download may take half an hour.
pub proof fn law_limits_of_a_refresh()
    ensures
        refresh::MIN_PLAUSIBLE_ORBITS == 100_000,
        refresh::MAX_SAMPLES == 5,
        refresh::SAMPLE_CHARS == 120,
        refresh::PROGRESS_INTERVAL == 200_000,
        refresh::DOWNLOAD_TIMEOUT == 30 * 60,
{
}

/// Reading a line counts it once, as parsed with its document last in the batch or as skipped,
/// and of a skipped line that looks like a record the beginning is kept, up to five of them.
pub proof fn law_lines_are_counted_once(
    p: refresh::Progress,
    line: Seq<char>,
    document: Option<Seq<(Seq<char>, Content)>>,
)
    ensures
        ({
            let next = refresh::after_reading(p, line, document);
            &&& next.lines == p.lines + 1
            &&& next.mark == p.mark
            &&& document is Some ==> {
                &&& next.parsed == p.parsed + 1 && next.skipped == p.skipped
                &&& next.batch == p.batch + seq![document->0]
                &&& next.samples == p.samples
            }
            &&& document is None ==> {
                &&& next.parsed == p.parsed && next.skipped == p.skipped + 1
                &&& next.batch == p.batch
                &&& next.samples == if p.samples.len() < 5 && mpcorb::has_record_shape(
                    line,
                ) {
                    p.samples + seq![line.take(if line.len() < 120 {
                        line.len() as int
                    } else {
                        120
                    })]
                } else {
                    p.samples
                }
            }
        }),
{
    let next = refresh::after_reading(p, line, document);
    assert(line.take(line.len() as int) =~= line);
    if document is Some {
        assert(next.batch =~= p.batch + seq![document->0]);
    } else {
        assert(p.samples.push(refresh::sample(line)) =~= p.samples + seq![refresh::sample(line)]);
    }
}

/// A batch is handed over when it is full, and then begins anew; whatever else was counted
/// stays. Progress is told when enough orbits were parsed since it was told last.
pub proof fn law_full_batches_are_handed_over(p: refresh::Progress, batch_size: int)
    ensures
        refresh::is_full(p, batch_size) <==> batch_size <= p.batch.len(),
        refresh::is_due(p) <==> p.mark + 200_000 <= p.parsed,
        ({
            let next = refresh::after_flush(p);
            &&& next.batch.len() == 0
            &&& next.lines == p.lines && next.parsed == p.parsed && next.skipped == p.skipped
            &&& next.samples == p.samples
            &&& next.mark == if p.mark + 200_000 <= p.parsed {
                p.parsed
            } else {
                p.mark
            }
        }),
{
}

/// A refused refresh tells how many orbits were parsed and which collection stays; any other
/// failure tells what went wrong.
pub proof fn law_failures_tell_what_went_wrong(why: String, parsed: u64, collection: String)
    ensures
        refresh::error_text(refresh::RefreshError::Download(why)) == "failed to download MPCORB: "@
            + why@,
        refresh::error_text(refresh::RefreshError::Io(why)) == "failed to read the download: "@
            + why@,
        refresh::error_text(refresh::RefreshError::Mongo(why)) == why@,
        refresh::error_text(refresh::RefreshError::ImplausiblyShort { parsed, collection })
            == "only "@ + text::decimal(parsed as nat) + " orbits parsed, refusing to replace "@
            + collection@,
{
}

/// The age of the catalogue is the time now less the time at which a document of it was
/// written; there is none where no document is found or it does not tell.
pub proof fn law_ages_are_counted_from_writing<E, M: Fn(Double, Double) -> Double>(
    d: Document,
    now: Double,
    minus: M,
    r: Result<Option<Double>, E>,
    none: Result<Option<Double>, E>,
)
    requires
        call_ensures(
            orbits::orbits_age_seconds::<E, M>,
            (Ok::<Option<Document>, E>(Some(d)), now, &minus),
            r,
        ),
        call_ensures(
            orbits::orbits_age_seconds::<E, M>,
            (Ok::<Option<Document>, E>(None), now, &minus),
            none,
        ),
    ensures
        bson_doc::lookup(bson_doc::document_fields(d), "updated_at"@) matches Some(
            Content::Double(bits),
        ) ==> (r matches Ok(Some(age)) && minus.ensures((now, Double { bits }), age)),
        none == Ok::<Option<Double>, E>(None),
{
}

/// A report tells what was counted: the lines, the orbits, the skipped lines, the comets and the
/// rejected lines, each in its place; reading starts with nothing counted.
pub proof fn law_reports_tell_what_was_counted(
    report: refresh::RefreshReport,
    p: refresh::Progress,
    comets: int,
)
    requires
        refresh::reports(report, p, comets),
    ensures
        report.lines == p.lines && report.parsed == p.parsed && report.skipped == p.skipped,
        report.comets == comets,
        text::texts(report.rejected_samples@) == p.samples,
        ({
            let start = refresh::at_start();
            &&& start.lines == 0 && start.parsed == 0 && start.skipped == 0 && start.mark == 0
            &&& start.batch.len() == 0 && start.samples.len() == 0
        }),
{
}

} // verus!
