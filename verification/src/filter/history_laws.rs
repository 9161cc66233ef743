//! What holds of the histories that filters annotate alerts with.

use crate::filter::history;
use crate::utils::bson_doc;
use crate::utils::bson_doc::Content;
use crate::utils::designation;
use crate::utils::double::Double;
use crate::utils::orbit_laws;
use crate::utils::orbits;
use crate::utils::sso_geometry::{Geometry, OrbitalElements};
use vstd::prelude::*;

verus! {

/// A history is the list `sso_history` among the annotations; an alert without annotations, or
/// without that list in them, has none.
pub proof fn law_histories_are_annotations(
    fields: Seq<(Seq<char>, Content)>,
    items: Seq<Content>,
)
    ensures
        history::history_of(fields) == Some(items) <==> (bson_doc::lookup(
            fields,
            "annotations"@,
        ) matches Some(Content::Object(a)) && bson_doc::lookup(a, "sso_history"@) == Some(
            Content::Array(items),
        )),
{
}

/// The entries of a history are the documents in it, all of them and nothing else.
pub proof fn law_entries_are_the_documents_in_a_history(
    items: Seq<Content>,
    entry: Seq<(Seq<char>, Content)>,
)
    ensures
        history::objects(items).contains(entry) <==> items.contains(Content::Object(entry)),
        history::objects(items).len() == items.filter(|c: Content| c is Object).len(),
    decreases items.len(),
{
    reveal(Seq::filter);
    if items.len() > 0 {
        let front = items.drop_last();
        law_entries_are_the_documents_in_a_history(front, entry);
        let a = history::objects(items);
        let b = history::objects(front);
        let value = Content::Object(entry);
        assert(items[items.len() - 1] == items.last());
        if b.contains(entry) {
            let k = choose|k: int| 0 <= k < b.len() && b[k] == entry;
            assert(a[k] == entry);
            let i = choose|i: int| 0 <= i < front.len() && front[i] == value;
            assert(items[i] == value);
        }
        if items.last() == value {
            assert(a[b.len() as int] == entry);
        }
        if a.contains(entry) && !b.contains(entry) {
            let k = choose|k: int| 0 <= k < a.len() && a[k] == entry;
            if k < b.len() {
                assert(b[k] == entry);
            }
        }
        if items.contains(value) {
            let i = choose|i: int| 0 <= i < items.len() && items[i] == value;
            if i < front.len() {
                assert(front[i] == value);
            }
        }
    }
}

/// The orbit of an object is wanted exactly where an entry names it without geometry, and is
/// asked for by the key of that name.
pub proof fn law_orbits_are_wanted_for_bare_entries(
    entry: Seq<(Seq<char>, Content)>,
    name: Seq<char>,
)
    ensures
        history::is_bare(entry, name) <==> {
            &&& bson_doc::lookup(entry, "designation"@) == Some(Content::Text(name))
            &&& designation::name_key(name) is Some
            &&& !orbits::carries_geometry(entry)
        },
        history::is_bare(entry, name) ==> history::wanted_key(entry) == designation::name_key(name),
        orbits::carries_geometry(entry) ==> history::wanted_key(entry) is None,
{
}

/// An entry without geometry, of a known orbit and a known time, gets the geometry of the orbit
/// of its own object at its own time, each number under its own name, and keeps all else.
pub proof fn law_entries_get_their_own_geometry<G: Fn(OrbitalElements, Double) -> Geometry>(
    new: Seq<(Seq<char>, Content)>,
    was: Seq<(Seq<char>, Content)>,
    keys: Map<Seq<char>, String>,
    elements: Map<Seq<char>, OrbitalElements>,
    geometry_at: G,
    name: Seq<char>,
    jd: Double,
    other: Seq<char>,
)
    requires
        history::is_filled(new, was, keys, elements, geometry_at),
        !orbits::carries_geometry(was),
        bson_doc::lookup(was, "designation"@) == Some(Content::Text(name)),
        bson_doc::lookup(was, "jd"@) == Some(Content::Double(jd.bits)),
        keys.contains_key(name),
        elements.contains_key(keys[name]@),
    ensures
        exists|g: Geometry| #[trigger]
            geometry_at.ensures((elements[keys[name]@], jd), g) && bson_doc::double_field(
                new,
                "helio_dist"@,
            ) == Some(g.helio_dist) && bson_doc::double_field(new, "topo_dist"@) == Some(
                g.topo_dist,
            ) && bson_doc::double_field(new, "phase_angle"@) == Some(g.phase_angle),
        other != "helio_dist"@ && other != "topo_dist"@ && other != "phase_angle"@
            ==> bson_doc::lookup(new, other) == bson_doc::lookup(was, other),
{
    let g = choose|g: Geometry|
        geometry_at.ensures(
            (
                elements[history::entry_key(was, keys)->0],
                bson_doc::double_field(was, "jd"@)->0,
            ),
            g,
        ) && new == #[trigger] orbits::with_geometry_fields(was, g);
    orbit_laws::law_geometry_is_stored_by_name(was, g, other);
    assert(geometry_at.ensures((elements[keys[name]@], jd), g));
}

/// An entry that has its geometry, or of which the time or the orbit is not known, stays as it
/// is.
pub proof fn law_other_entries_stay<G: Fn(OrbitalElements, Double) -> Geometry>(
    new: Seq<(Seq<char>, Content)>,
    was: Seq<(Seq<char>, Content)>,
    keys: Map<Seq<char>, String>,
    elements: Map<Seq<char>, OrbitalElements>,
    geometry_at: G,
)
    requires
        history::is_filled(new, was, keys, elements, geometry_at),
        orbits::carries_geometry(was) || bson_doc::double_field(was, "jd"@) is None
            || bson_doc::text_field(was, "designation"@) is None || !keys.contains_key(
            bson_doc::text_field(was, "designation"@)->0,
        ) || !elements.contains_key(keys[bson_doc::text_field(was, "designation"@)->0]@),
    ensures
        new == was,
{
}

/// A filled history takes the place of the old one, entry by entry, and nothing else of the
/// alert or of its annotations changes; an alert without a history stays as it is.
pub proof fn law_histories_are_put_back_in_their_place<
    G: Fn(OrbitalElements, Double) -> Geometry,
>(
    new: Seq<(Seq<char>, Content)>,
    was: Seq<(Seq<char>, Content)>,
    keys: Map<Seq<char>, String>,
    elements: Map<Seq<char>, OrbitalElements>,
    geometry_at: G,
    other: Seq<char>,
)
    requires
        history::is_filled_document(new, was, keys, elements, geometry_at),
    ensures
        other != "annotations"@ ==> bson_doc::lookup(new, other) == bson_doc::lookup(was, other),
        history::history_of(was) is None ==> new == was,
        history::history_of(was) matches Some(items) ==> {
            &&& history::history_of(new) matches Some(filled)
            &&& filled.len() == items.len()
            &&& forall|i: int|
                0 <= i < items.len() ==> history::is_filled_value(
                    #[trigger] filled[i],
                    items[i],
                    keys,
                    elements,
                    geometry_at,
                )
            &&& other != "sso_history"@ ==> bson_doc::lookup(
                bson_doc::object_field(new, "annotations"@)->0,
                other,
            ) == bson_doc::lookup(bson_doc::object_field(was, "annotations"@)->0, other)
        },
{
    if history::history_of(was) is Some {
        let items = history::history_of(was)->0;
        let filled = choose|filled: Seq<Content>| #[trigger]
            history::are_filled_values(filled, items, keys, elements, geometry_at) && new
                == history::with_history(was, filled);
        let a = bson_doc::object_field(was, "annotations"@)->0;
        bson_doc::law_reads_give_back_writes(a, "sso_history"@, Content::Array(filled), other);
        let b = bson_doc::with_field(a, "sso_history"@, Content::Array(filled));
        bson_doc::law_reads_give_back_writes(was, "annotations"@, Content::Object(b), other);
        assert(history::history_of(new) == Some(filled));
    }
}

/// A value of a history that is no document stays as it is.
pub proof fn law_values_that_are_no_entries_stay<G: Fn(OrbitalElements, Double) -> Geometry>(
    new: Content,
    was: Content,
    keys: Map<Seq<char>, String>,
    elements: Map<Seq<char>, OrbitalElements>,
    geometry_at: G,
)
    requires
        history::is_filled_value(new, was, keys, elements, geometry_at),
    ensures
        !(was is Object) ==> new == was,
        was matches Content::Object(entry) ==> (new matches Content::Object(filled)
            && history::is_filled(filled, entry, keys, elements, geometry_at)),
{
}

/// As many entries are filled as can be.
pub proof fn law_entries_that_can_be_filled_are_counted(
    items: Seq<Content>,
    keys: Map<Seq<char>, String>,
    elements: Map<Seq<char>, OrbitalElements>,
)
    ensures
        history::fillable_count(items, keys, elements) == items.filter(
            |c: Content| c is Object && history::is_fillable(c->Object_0, keys, elements),
        ).len(),
    decreases items.len(),
{
    reveal(Seq::filter);
    if items.len() > 0 {
        law_entries_that_can_be_filled_are_counted(items.drop_last(), keys, elements);
    }
}

/// An orbit is wanted exactly where some entry of some alert names it and lacks geometry.
pub proof fn law_orbits_are_wanted_where_an_entry_lacks_geometry(
    docs: Seq<Seq<(Seq<char>, Content)>>,
    name: Seq<char>,
    k: int,
    i: int,
)
    ensures
        0 <= k < docs.len() && 0 <= i < history::entries(docs[k]).len() && history::is_bare(
            history::entries(docs[k])[i],
            name,
        ) ==> history::is_wanted(docs, name),
        history::is_wanted(docs, name) ==> exists|m: int, j: int|
            0 <= m < docs.len() && 0 <= j < history::entries(docs[m]).len() && history::is_bare(
                #[trigger] history::entries(docs[m])[j],
                name,
            ),
{
    if 0 <= k < docs.len() && 0 <= i < history::entries(docs[k]).len() && history::is_bare(
        history::entries(docs[k])[i],
        name,
    ) {
        assert(history::is_wanted_in(history::entries(docs[k]), name));
    }
    if history::is_wanted(docs, name) {
        let m = choose|m: int|
            0 <= m < docs.len() && history::is_wanted_in(
                history::entries(#[trigger] docs[m]),
                name,
            );
        let list = history::entries(docs[m]);
        let j = choose|j: int| 0 <= j < list.len() && history::is_bare(#[trigger] list[j], name);
        assert(history::is_bare(history::entries(docs[m])[j], name));
    }
}

/// Each name that is wanted is kept with its own key, and no other name is.
pub proof fn law_wanted_names_are_kept_with_their_key(
    keys: Map<Seq<char>, String>,
    docs: Seq<Seq<(Seq<char>, Content)>>,
    name: Seq<char>,
)
    requires
        history::are_keys(keys, docs),
    ensures
        keys.contains_key(name) <==> history::is_wanted(docs, name),
        keys.contains_key(name) ==> designation::name_key(name) == Some(keys[name]@),
{
}

} // verus!
