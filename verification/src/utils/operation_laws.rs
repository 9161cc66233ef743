//! What the operations on catalogues do, in terms of what they are given and what they return.

use crate::utils::bson_doc;
use crate::utils::bson_doc::Content;
use crate::utils::calendar::DateTerms;
use crate::utils::catalogue_laws;
use crate::utils::comets;
use crate::utils::comets::CometEntry;
use crate::utils::double;
use crate::utils::double::Double;
use crate::utils::mpcorb;
use crate::utils::mpcorb::MpcorbEntry;
use crate::utils::orbit_laws;
use crate::utils::orbits;
use crate::utils::refresh;
use crate::utils::refresh::{Publication, RefreshError, RefreshReport};
use crate::utils::sso_geometry::{OrbitalElements, Perihelion};
use mongodb::bson::Document;
use vstd::hash_map::*;
use vstd::prelude::*;

verus! {

/// Every comet that is parsed has its argument of perihelion from the bytes 50 to 59 of its
/// line, its node from the bytes 60 to 69, and its inclination, distance, eccentricity,
/// magnitude and slope from their own.
pub proof fn law_parsed_comets_have_their_elements_from_their_columns<
    F: Fn(&str) -> Option<Double>,
    D: Fn(DateTerms, Double) -> Double,
    A: Fn(Double, Double) -> Double,
>(line: &str, number: F, date: D, axis: A, entry: CometEntry)
    requires
        call_ensures(
            comets::parse_line::<F, D, A>,
            (line, &number, &date, &axis),
            Some(entry),
        ),
    ensures
        catalogue_laws::holds(number, line@, 30, 39, Some(entry.elements.q)),
        catalogue_laws::holds(number, line@, 40, 49, Some(entry.elements.e)),
        catalogue_laws::holds(number, line@, 50, 59, Some(entry.elements.peri)),
        catalogue_laws::holds(number, line@, 60, 69, Some(entry.elements.node)),
        catalogue_laws::holds(number, line@, 70, 79, Some(entry.elements.incl)),
        catalogue_laws::holds(number, line@, 90, 95, entry.h),
        catalogue_laws::holds(number, line@, 96, 100, entry.g),
{
    assert(refresh::is_comet_parse_of(Some(entry), line@, number, date, axis));
    catalogue_laws::law_comets_are_read_from_their_columns(entry, line@, number, date, axis);
}

/// Every minor planet that is parsed has its elements from its own columns, and the perihelion
/// that is derived from them.
pub proof fn law_parsed_orbits_have_their_elements_from_their_columns<
    F: Fn(&str) -> Option<Double>,
    P: Fn(OrbitalElements) -> Perihelion,
>(line: &str, number: F, perihelion: P, entry: MpcorbEntry)
    requires
        call_ensures(mpcorb::parse_line::<F, P>, (line, &number, &perihelion), Some(entry)),
    ensures
        catalogue_laws::holds(number, line@, 8, 13, entry.h),
        catalogue_laws::holds(number, line@, 14, 19, entry.g),
        catalogue_laws::holds(number, line@, 26, 35, Some(entry.elements.mean_anomaly)),
        catalogue_laws::holds(number, line@, 37, 46, Some(entry.elements.peri)),
        catalogue_laws::holds(number, line@, 48, 57, Some(entry.elements.node)),
        catalogue_laws::holds(number, line@, 59, 68, Some(entry.elements.incl)),
        catalogue_laws::holds(number, line@, 70, 79, Some(entry.elements.e)),
        catalogue_laws::holds(number, line@, 92, 103, Some(entry.elements.a)),
{
    assert(refresh::is_parse_of(Some(entry), line@, number, perihelion));
    catalogue_laws::law_orbits_are_read_from_their_columns(entry, line@, number, perihelion);
}

/// What is stored of a minor planet reads back as its elements, where its perihelion is known.
pub proof fn law_stored_orbits_read_back<P: Fn(OrbitalElements) -> Perihelion>(
    entry: MpcorbEntry,
    now: Double,
    doc: Document,
    perihelion: P,
    r: Option<OrbitalElements>,
)
    requires
        call_ensures(orbits::to_document, (&entry, now), doc),
        call_ensures(orbits::elements_from_document::<P>, (&doc, &perihelion), r),
        !double::eq(entry.elements.tp, Double { bits: 0 }),
    ensures
        r == Some(entry.elements),
        bson_doc::lookup(bson_doc::document_fields(doc), "_id"@) == Some(
            Content::Text(entry.designation@),
        ),
{
    orbits::law_stored_elements_are_read_back(
        entry.designation@,
        entry.elements,
        entry.h,
        entry.g,
        now,
    );
    reveal_strlit("_id");
    reveal_strlit("h");
    reveal_strlit("g");
    reveal_strlit("a");
    reveal_strlit("e");
    reveal_strlit("q");
    reveal_strlit("tp");
    reveal_strlit("epoch_jd");
    reveal_strlit("incl");
    reveal_strlit("node");
    reveal_strlit("peri");
    reveal_strlit("mean_anomaly");
    reveal_strlit("updated_at");
    assert("_id"@.len() == 3 && "h"@.len() == 1 && "g"@.len() == 1 && "a"@.len() == 1);
    assert("e"@.len() == 1 && "q"@.len() == 1 && "tp"@.len() == 2 && "epoch_jd"@.len() == 8);
    assert("incl"@.len() == 4 && "node"@.len() == 4 && "peri"@.len() == 4);
    assert("mean_anomaly"@.len() == 12 && "updated_at"@.len() == 10);
    orbit_laws::law_orbits_are_stored_by_name(
        entry.designation@,
        entry.elements,
        entry.h,
        entry.g,
        now,
        "_id"@,
    );
}

/// A catalogue that was filled replaces the live one in its database, and one that was not is
/// discarded, with the reason; without a database there is nothing to replace or discard.
pub proof fn law_only_filled_catalogues_are_published(
    database: &str,
    report: RefreshReport,
    why: RefreshError,
    filled: Publication,
    failed: Publication,
)
    requires
        call_ensures(
            refresh::refresh_orbits,
            (Some(database), Ok::<RefreshReport, RefreshError>(report)),
            filled,
        ),
        call_ensures(
            refresh::refresh_orbits,
            (Some(database), Err::<RefreshReport, RefreshError>(why)),
            failed,
        ),
    ensures
        filled matches Publication::Rename { command, report: told } && told == report
            && bson_doc::lookup(bson_doc::document_fields(command), "renameCollection"@) == Some(
            Content::Text(database@ + "."@ + "MPC_orbits_staging"@),
        ) && bson_doc::lookup(bson_doc::document_fields(command), "to"@) == Some(
            Content::Text(database@ + "."@ + "MPC_orbits"@),
        ),
        failed == Publication::Discard(why),
{
    reveal_strlit("renameCollection");
    reveal_strlit("to");
    reveal_strlit("dropTarget");
    assert("renameCollection"@.len() == 16 && "to"@.len() == 2 && "dropTarget"@.len() == 10);
    orbit_laws::law_staged_orbits_replace_the_live_ones(database@, "renameCollection"@);
    orbit_laws::law_staged_orbits_replace_the_live_ones(database@, "to"@);
}

/// Nothing is asked of the database where no key is wanted, and nothing is found then; a failed
/// query fails.
pub proof fn law_no_query_without_keys<E, P: Fn(OrbitalElements) -> Perihelion>(
    keys: Vec<String>,
    answer: Result<Vec<Document>, E>,
    perihelion: P,
    query: Option<Document>,
    r: Result<StringHashMap<OrbitalElements>, E>,
)
    requires
        call_ensures(orbits::orbits_query, (&keys,), query),
        call_ensures(orbits::fetch_orbits::<E, P>, (&keys, answer, &perihelion), r),
    ensures
        query is None <==> keys@.len() == 0,
        keys@.len() == 0 ==> (r matches Ok(map) && map@.dom().is_empty()),
        keys@.len() > 0 && answer is Err ==> r is Err && r->Err_0 == answer->Err_0,
        keys@.len() > 0 && answer is Ok ==> r is Ok,
{
}

} // verus!
