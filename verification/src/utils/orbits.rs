//! The stored catalogue of orbits: what its documents hold, which of them are asked for,
//! and the geometry that they give to documents of alerts.

use crate::utils::bson_doc;
use crate::utils::bson_doc::{
    double_value, get_double, get_text, insert, new_document, object, optional_double, text_list,
    with,
};
use crate::utils::double;
use crate::utils::double::Double;
use crate::utils::mpcorb::MpcorbEntry;
use crate::utils::sso_geometry;
use crate::utils::sso_geometry::{Geometry, OrbitalElements, Perihelion};
use crate::utils::text;
use mongodb::bson::Document;
use vstd::hash_map::StringHashMap;
use vstd::hash_set::StringHashSet;
use vstd::prelude::*;

verus! {

/// Collection that the catalogue is published in and enrichment reads.
pub const ORBITS_COLLECTION: &'static str = "MPC_orbits";

/// The fields of a stored orbit.
pub open spec fn orbit_fields(
    designation: Seq<char>,
    el: OrbitalElements,
    h: Option<Double>,
    g: Option<Double>,
    updated_at: Double,
) -> Seq<(Seq<char>, bson_doc::Content)> {
    let d = bson_doc::no_fields();
    let d = bson_doc::with_field(d, "_id"@, bson_doc::Content::Text(designation));
    let d = bson_doc::with_field(d, "epoch_jd"@, bson_doc::Content::Double(el.epoch_jd.bits));
    let d = bson_doc::with_field(d, "a"@, bson_doc::Content::Double(el.a.bits));
    let d = bson_doc::with_field(d, "e"@, bson_doc::Content::Double(el.e.bits));
    let d = bson_doc::with_field(d, "incl"@, bson_doc::Content::Double(el.incl.bits));
    let d = bson_doc::with_field(d, "node"@, bson_doc::Content::Double(el.node.bits));
    let d = bson_doc::with_field(d, "peri"@, bson_doc::Content::Double(el.peri.bits));
    let d = bson_doc::with_field(
        d,
        "mean_anomaly"@,
        bson_doc::Content::Double(el.mean_anomaly.bits),
    );
    let d = bson_doc::with_field(d, "q"@, bson_doc::Content::Double(el.q.bits));
    let d = bson_doc::with_field(d, "tp"@, bson_doc::Content::Double(el.tp.bits));
    let d = bson_doc::with_field(d, "h"@, bson_doc::optional_value(h));
    let d = bson_doc::with_field(d, "g"@, bson_doc::optional_value(g));
    bson_doc::with_field(d, "updated_at"@, bson_doc::Content::Double(updated_at.bits))
}

/// Render an orbit as the stored document.
pub fn orbit_document(
    designation: &str,
    el: &OrbitalElements,
    h: Option<Double>,
    g: Option<Double>,
    updated_at: Double,
) -> (r: Document)
    ensures
        bson_doc::document_fields(r) == orbit_fields(designation@, *el, h, g, updated_at),
{
    let d = with(new_document(), "_id", bson_doc::text_value(designation));
    let d = with(d, "epoch_jd", double_value(el.epoch_jd));
    let d = with(d, "a", double_value(el.a));
    let d = with(d, "e", double_value(el.e));
    let d = with(d, "incl", double_value(el.incl));
    let d = with(d, "node", double_value(el.node));
    let d = with(d, "peri", double_value(el.peri));
    let d = with(d, "mean_anomaly", double_value(el.mean_anomaly));
    let d = with(d, "q", double_value(el.q));
    let d = with(d, "tp", double_value(el.tp));
    let d = with(d, "h", optional_double(h));
    let d = with(d, "g", optional_double(g));
    with(d, "updated_at", double_value(updated_at))
}

/// Render one entry as the stored document. Kept next to the reader below so
/// the two halves of this collection's schema cannot drift apart.
pub fn to_document(entry: &MpcorbEntry, updated_at: Double) -> (r: Document)
    ensures
        bson_doc::document_fields(r) == orbit_fields(
            entry.designation@,
            entry.elements,
            entry.h,
            entry.g,
            updated_at,
        ),
{
    orbit_document(entry.designation.as_str(), &entry.elements, entry.h, entry.g, updated_at)
}

/// The elements as they stand in a stored document. Perihelion distance and time are 0
/// where they are absent.
pub open spec fn stored_elements(fields: Seq<(Seq<char>, bson_doc::Content)>) -> Option<
    OrbitalElements,
> {
    let zero = Double { bits: 0 };
    match (
        bson_doc::double_field(fields, "epoch_jd"@),
        bson_doc::double_field(fields, "a"@),
        bson_doc::double_field(fields, "e"@),
        bson_doc::double_field(fields, "incl"@),
        bson_doc::double_field(fields, "node"@),
        bson_doc::double_field(fields, "peri"@),
        bson_doc::double_field(fields, "mean_anomaly"@),
    ) {
        (
            Some(epoch_jd),
            Some(a),
            Some(e),
            Some(incl),
            Some(node),
            Some(peri),
            Some(mean_anomaly),
        ) => Some(
            OrbitalElements {
                epoch_jd,
                a,
                e,
                incl,
                node,
                peri,
                mean_anomaly,
                q: match bson_doc::double_field(fields, "q"@) {
                    Some(q) => q,
                    None => zero,
                },
                tp: match bson_doc::double_field(fields, "tp"@) {
                    Some(tp) => tp,
                    None => zero,
                },
            },
        ),
        _ => None,
    }
}

/// `elements` are what a stored document gives: as they stand where it has a perihelion
/// time, and with the perihelion that `perihelion` derives where it has none.
pub open spec fn are_elements_of<P: Fn(OrbitalElements) -> Perihelion>(
    elements: Option<OrbitalElements>,
    fields: Seq<(Seq<char>, bson_doc::Content)>,
    perihelion: P,
) -> bool {
    match stored_elements(fields) {
        Some(stored) => elements is Some && if double::eq(stored.tp, Double { bits: 0 }) {
            sso_geometry::is_completed(elements->0, stored, perihelion)
        } else {
            elements->0 == stored
        },
        None => elements is None,
    }
}

/// Read elements back out of a stored document.
pub fn elements_from_document<P: Fn(OrbitalElements) -> Perihelion>(
    doc: &Document,
    perihelion: &P,
) -> (r: Option<OrbitalElements>)
    requires
        forall|e: OrbitalElements| #[trigger] perihelion.requires((e,)),
    ensures
        are_elements_of(r, bson_doc::document_fields(*doc), *perihelion),
{
    match (
        get_double(doc, "epoch_jd"),
        get_double(doc, "a"),
        get_double(doc, "e"),
        get_double(doc, "incl"),
        get_double(doc, "node"),
        get_double(doc, "peri"),
        get_double(doc, "mean_anomaly"),
    ) {
        (
            Some(epoch_jd),
            Some(a),
            Some(e),
            Some(incl),
            Some(node),
            Some(peri),
            Some(mean_anomaly),
        ) => {
            // Absent on documents written before comets were ingested; every
            // elliptical orbit can recover both from `a` and the mean anomaly.
            let q = match get_double(doc, "q") {
                Some(q) => q,
                None => Double::zero(),
            };
            let tp = match get_double(doc, "tp") {
                Some(tp) => tp,
                None => Double::zero(),
            };
            let stored = OrbitalElements {
                epoch_jd,
                a,
                e,
                incl,
                node,
                peri,
                mean_anomaly,
                q,
                tp,
            };
            if tp.equals(Double::zero()) {
                Some(stored.with_perihelion(perihelion))
            } else {
                Some(stored)
            }
        },
        _ => None,
    }
}

/// What is found under a name in a stored orbit.
proof fn lemma_orbit_lookup(
    designation: Seq<char>,
    el: OrbitalElements,
    h: Option<Double>,
    g: Option<Double>,
    updated_at: Double,
    key: Seq<char>,
)
    ensures
        bson_doc::double_field(orbit_fields(designation, el, h, g, updated_at), key) == if key
            == "updated_at"@ {
            Some(updated_at)
        } else if key == "g"@ {
            g
        } else if key == "h"@ {
            h
        } else if key == "tp"@ {
            Some(el.tp)
        } else if key == "q"@ {
            Some(el.q)
        } else if key == "mean_anomaly"@ {
            Some(el.mean_anomaly)
        } else if key == "peri"@ {
            Some(el.peri)
        } else if key == "node"@ {
            Some(el.node)
        } else if key == "incl"@ {
            Some(el.incl)
        } else if key == "e"@ {
            Some(el.e)
        } else if key == "a"@ {
            Some(el.a)
        } else if key == "epoch_jd"@ {
            Some(el.epoch_jd)
        } else {
            None::<Double>
        },
{
    let d = bson_doc::no_fields();
    let v = bson_doc::Content::Text(designation);
    bson_doc::law_reads_give_back_writes(d, "_id"@, v, key);
    let d = bson_doc::with_field(d, "_id"@, v);
    let v = bson_doc::Content::Double(el.epoch_jd.bits);
    bson_doc::law_reads_give_back_writes(d, "epoch_jd"@, v, key);
    let d = bson_doc::with_field(d, "epoch_jd"@, v);
    let v = bson_doc::Content::Double(el.a.bits);
    bson_doc::law_reads_give_back_writes(d, "a"@, v, key);
    let d = bson_doc::with_field(d, "a"@, v);
    let v = bson_doc::Content::Double(el.e.bits);
    bson_doc::law_reads_give_back_writes(d, "e"@, v, key);
    let d = bson_doc::with_field(d, "e"@, v);
    let v = bson_doc::Content::Double(el.incl.bits);
    bson_doc::law_reads_give_back_writes(d, "incl"@, v, key);
    let d = bson_doc::with_field(d, "incl"@, v);
    let v = bson_doc::Content::Double(el.node.bits);
    bson_doc::law_reads_give_back_writes(d, "node"@, v, key);
    let d = bson_doc::with_field(d, "node"@, v);
    let v = bson_doc::Content::Double(el.peri.bits);
    bson_doc::law_reads_give_back_writes(d, "peri"@, v, key);
    let d = bson_doc::with_field(d, "peri"@, v);
    let v = bson_doc::Content::Double(el.mean_anomaly.bits);
    bson_doc::law_reads_give_back_writes(d, "mean_anomaly"@, v, key);
    let d = bson_doc::with_field(d, "mean_anomaly"@, v);
    let v = bson_doc::Content::Double(el.q.bits);
    bson_doc::law_reads_give_back_writes(d, "q"@, v, key);
    let d = bson_doc::with_field(d, "q"@, v);
    let v = bson_doc::Content::Double(el.tp.bits);
    bson_doc::law_reads_give_back_writes(d, "tp"@, v, key);
    let d = bson_doc::with_field(d, "tp"@, v);
    bson_doc::law_reads_give_back_writes(d, "h"@, bson_doc::optional_value(h), key);
    let d = bson_doc::with_field(d, "h"@, bson_doc::optional_value(h));
    bson_doc::law_reads_give_back_writes(d, "g"@, bson_doc::optional_value(g), key);
    let d = bson_doc::with_field(d, "g"@, bson_doc::optional_value(g));
    let v = bson_doc::Content::Double(updated_at.bits);
    bson_doc::law_reads_give_back_writes(d, "updated_at"@, v, key);
}

/// The elements that were stored are read back as they were: with `stored_elements` the
/// document of an orbit gives its elements, whatever else it holds.
pub proof fn law_stored_elements_are_read_back(
    designation: Seq<char>,
    el: OrbitalElements,
    h: Option<Double>,
    g: Option<Double>,
    updated_at: Double,
)
    ensures
        stored_elements(orbit_fields(designation, el, h, g, updated_at)) == Some(el),
        bson_doc::double_field(
            orbit_fields(designation, el, h, g, updated_at),
            "updated_at"@,
        ) == Some(updated_at),
{
    reveal_strlit("epoch_jd");
    reveal_strlit("a");
    reveal_strlit("e");
    reveal_strlit("incl");
    reveal_strlit("node");
    reveal_strlit("peri");
    reveal_strlit("mean_anomaly");
    reveal_strlit("q");
    reveal_strlit("tp");
    reveal_strlit("h");
    reveal_strlit("g");
    reveal_strlit("updated_at");
    assert("a"@[0] == 'a' && "e"@[0] == 'e' && "q"@[0] == 'q' && "h"@[0] == 'h' && "g"@[0] == 'g');
    assert("incl"@[0] == 'i' && "node"@[0] == 'n' && "peri"@[0] == 'p');
    assert("epoch_jd"@.len() == 8 && "mean_anomaly"@.len() == 12 && "updated_at"@.len() == 10);
    lemma_orbit_lookup(designation, el, h, g, updated_at, "epoch_jd"@);
    lemma_orbit_lookup(designation, el, h, g, updated_at, "a"@);
    lemma_orbit_lookup(designation, el, h, g, updated_at, "e"@);
    lemma_orbit_lookup(designation, el, h, g, updated_at, "incl"@);
    lemma_orbit_lookup(designation, el, h, g, updated_at, "node"@);
    lemma_orbit_lookup(designation, el, h, g, updated_at, "peri"@);
    lemma_orbit_lookup(designation, el, h, g, updated_at, "mean_anomaly"@);
    lemma_orbit_lookup(designation, el, h, g, updated_at, "q"@);
    lemma_orbit_lookup(designation, el, h, g, updated_at, "tp"@);
    lemma_orbit_lookup(designation, el, h, g, updated_at, "updated_at"@);
}

/// The query for the orbits with these keys.
pub open spec fn ids_filter_fields(keys: Seq<Seq<char>>) -> Seq<(Seq<char>, bson_doc::Content)> {
    let inner = bson_doc::with_field(
        bson_doc::no_fields(),
        "$in"@,
        bson_doc::Content::Array(bson_doc::text_values(keys)),
    );
    bson_doc::with_field(bson_doc::no_fields(), "_id"@, bson_doc::Content::Object(inner))
}

/// The filter that selects the documents with these identifiers.
pub fn ids_filter(keys: &Vec<String>) -> (r: Document)
    ensures
        bson_doc::document_fields(r) == ids_filter_fields(text::texts(keys@)),
{
    let inner = with(new_document(), "$in", text_list(keys));
    with(new_document(), "_id", object(inner))
}

/// The query that loads the elements for a set of MPCORB keys. Without keys there is
/// nothing to ask for.
pub fn orbits_query(keys: &Vec<String>) -> (r: Option<Document>)
    ensures
        match r {
            Some(filter) => keys@.len() > 0 && bson_doc::document_fields(filter)
                == ids_filter_fields(text::texts(keys@)),
            None => keys@.len() == 0,
        },
{
    if keys.is_empty() {
        None
    } else {
        Some(ids_filter(keys))
    }
}

/// The orbits of these documents by their identifiers, where `found` holds what each
/// document gave. A later document takes the place of an earlier one.
pub open spec fn orbits_by_id(
    docs: Seq<Seq<(Seq<char>, bson_doc::Content)>>,
    found: Seq<Option<OrbitalElements>>,
) -> Map<Seq<char>, OrbitalElements>
    decreases docs.len(),
{
    if docs.len() == 0 {
        Map::empty()
    } else {
        let before = orbits_by_id(docs.drop_last(), found.drop_last());
        match (bson_doc::text_field(docs.last(), "_id"@), found.last()) {
            (Some(id), Some(elements)) => before.insert(id, elements),
            _ => before,
        }
    }
}

/// `found` holds what each of the documents gives.
pub open spec fn are_all_elements_of<P: Fn(OrbitalElements) -> Perihelion>(
    found: Seq<Option<OrbitalElements>>,
    docs: Seq<Seq<(Seq<char>, bson_doc::Content)>>,
    perihelion: P,
) -> bool {
    found.len() == docs.len() && forall|i: int|
        0 <= i < docs.len() ==> are_elements_of(#[trigger] found[i], docs[i], perihelion)
}

/// Read the elements of each document.
pub fn all_elements<P: Fn(OrbitalElements) -> Perihelion>(
    docs: &Vec<Document>,
    perihelion: &P,
) -> (r: Vec<Option<OrbitalElements>>)
    requires
        forall|e: OrbitalElements| #[trigger] perihelion.requires((e,)),
    ensures
        are_all_elements_of(r@, bson_doc::documents(docs@), *perihelion),
{
    let mut out: Vec<Option<OrbitalElements>> = Vec::new();
    let mut i: usize = 0;
    while i < docs.len()
        invariant
            i <= docs.len(),
            out@.len() == i,
            forall|e: OrbitalElements| #[trigger] perihelion.requires((e,)),
            forall|k: int|
                0 <= k < i ==> are_elements_of(
                    #[trigger] out@[k],
                    bson_doc::document_fields(docs@[k]),
                    *perihelion,
                ),
        decreases docs.len() - i,
    {
        out.push(elements_from_document(&docs[i], perihelion));
        i = i + 1;
    }
    out
}

/// Key what the documents gave by their identifiers.
pub fn key_by_id(docs: &Vec<Document>, found: &Vec<Option<OrbitalElements>>) -> (r: StringHashMap<
    OrbitalElements,
>)
    requires
        found@.len() == docs@.len(),
    ensures
        r@ == orbits_by_id(bson_doc::documents(docs@), found@),
{
    let mut out: StringHashMap<OrbitalElements> = StringHashMap::new();
    let mut i: usize = 0;
    let ghost all = bson_doc::documents(docs@);
    while i < docs.len()
        invariant
            i <= docs.len(),
            found@.len() == docs@.len(),
            all == bson_doc::documents(docs@),
            out@ == orbits_by_id(all.take(i as int), found@.take(i as int)),
        decreases docs.len() - i,
    {
        proof {
            assert(all.take(i + 1).drop_last() =~= all.take(i as int));
            assert(found@.take(i + 1).drop_last() =~= found@.take(i as int));
        }
        match (get_text(&docs[i], "_id"), found[i]) {
            (Some(id), Some(elements)) => {
                out.insert(id.to_owned(), elements);
            },
            _ => {},
        }
        i = i + 1;
    }
    assert(all.take(i as int) =~= all);
    assert(found@.take(i as int) =~= found@);
    out
}

/// Elements for a set of MPCORB keys, from the answer to the query for them. Without keys
/// nothing was asked and nothing is found.
pub fn fetch_orbits<E, P: Fn(OrbitalElements) -> Perihelion>(
    keys: &Vec<String>,
    answer: Result<Vec<Document>, E>,
    perihelion: &P,
) -> (r: Result<StringHashMap<OrbitalElements>, E>)
    requires
        forall|e: OrbitalElements| #[trigger] perihelion.requires((e,)),
    ensures
        if keys@.len() == 0 {
            r matches Ok(map) && map@ == Map::<Seq<char>, OrbitalElements>::empty()
        } else {
            match answer {
                Err(e) => r == Err::<StringHashMap<OrbitalElements>, E>(e),
                Ok(docs) => r is Ok && exists|found: Seq<Option<OrbitalElements>>| #[trigger]
                    are_all_elements_of(found, bson_doc::documents(docs@), *perihelion)
                        && r->Ok_0@ == orbits_by_id(bson_doc::documents(docs@), found),
            }
        },
{
    if keys.is_empty() {
        return Ok(StringHashMap::new());
    }
    match answer {
        Ok(docs) => {
            let found = all_elements(&docs, perihelion);
            Ok(key_by_id(&docs, &found))
        },
        Err(e) => Err(e),
    }
}

/// Elements held across a run of documents, so a designation that recurs costs
/// a single query.
pub struct OrbitCache {
    elements: StringHashMap<OrbitalElements>,
    queried: StringHashSet,
}

/// The keys among `keys` that are not in `queried`, in their order.
pub open spec fn missing_keys(queried: Set<Seq<char>>, keys: Seq<Seq<char>>) -> Seq<Seq<char>> {
    keys.filter(|k: Seq<char>| !queried.contains(k))
}

impl OrbitCache {
    /// The elements that were found.
    pub closed spec fn held(self) -> Map<Seq<char>, OrbitalElements> {
        self.elements@
    }

    /// The keys that were asked for.
    pub closed spec fn asked(self) -> Set<Seq<char>> {
        self.queried@
    }

    /// A cache that holds nothing yet.
    pub fn new() -> (r: Self)
        ensures
            r.held() == Map::<Seq<char>, OrbitalElements>::empty(),
            r.asked() == Set::<Seq<char>>::empty(),
    {
        OrbitCache { elements: StringHashMap::new(), queried: StringHashSet::new() }
    }

    /// Whichever of `keys` were not asked for yet.
    pub fn missing(&self, keys: &Vec<String>) -> (r: Vec<String>)
        ensures
            text::texts(r@) == missing_keys(self.asked(), text::texts(keys@)),
    {
        let mut out: Vec<String> = Vec::new();
        let mut i: usize = 0;
        let ghost names = text::texts(keys@);
        let ghost wanted = |k: Seq<char>| !self.asked().contains(k);
        proof {
            assert(names.take(0).filter(wanted) =~= Seq::<Seq<char>>::empty()) by {
                reveal_with_fuel(Seq::filter, 1);
            }
            assert(text::texts(out@) =~= Seq::<Seq<char>>::empty());
        }
        while i < keys.len()
            invariant
                i <= keys.len(),
                names == text::texts(keys@),
                wanted == (|k: Seq<char>| !self.asked().contains(k)),
                text::texts(out@) == names.take(i as int).filter(wanted),
            decreases keys.len() - i,
        {
            proof {
                assert(names.take(i + 1).drop_last() =~= names.take(i as int));
                assert(names.take(i + 1).last() == keys@[i as int]@);
                reveal_with_fuel(Seq::filter, 2);
            }
            if !self.queried.contains(keys[i].as_str()) {
                let ghost before = out@;
                out.push(keys[i].clone());
                assert(text::texts(out@) =~= text::texts(before).push(keys@[i as int]@));
            }
            i = i + 1;
        }
        assert(names.take(i as int) =~= names);
        out
    }

    /// Take in what a query for the `missing` keys returned.
    ///
    /// A key with no MPCORB document is remembered as queried too, so a
    /// designation MPCORB does not carry is asked for once. After a failed query
    /// everything is asked for again.
    pub fn load<E>(
        &mut self,
        missing: Vec<String>,
        found: Result<StringHashMap<OrbitalElements>, E>,
    ) -> (r: Result<(), E>)
        ensures
            match found {
                Ok(elements) => {
                    &&& r is Ok
                    &&& final(self).held() == old(self).held().union_prefer_right(elements@)
                    &&& final(self).asked() == old(self).asked().union(
                        text::texts(missing@).to_set(),
                    )
                },
                Err(e) => r == Err::<(), E>(e) && final(self).held() == old(self).held()
                    && final(self).asked() == old(self).asked(),
            },
    {
        match found {
            Ok(elements) => {
                self.elements.union_prefer_right(elements);
                let ghost names = text::texts(missing@);
                let ghost before = self.queried@;
                let mut i: usize = 0;
                assert(before.union(names.take(0).to_set()) =~= before);
                while i < missing.len()
                    invariant
                        i <= missing.len(),
                        names == text::texts(missing@),
                        self.queried@ == before.union(names.take(i as int).to_set()),
                        self.elements@ == old(self).held().union_prefer_right(elements@),
                    decreases missing.len() - i,
                {
                    self.queried.insert(missing[i].clone());
                    proof {
                        let prefix = names.take(i as int);
                        let next = names.take(i + 1);
                        assert(next =~= prefix.push(names[i as int]));
                        assert forall|k: Seq<char>|
                            next.to_set().contains(k) == prefix.to_set().insert(
                                names[i as int],
                            ).contains(k) by {
                            if prefix.contains(k) {
                                let j = choose|j: int| 0 <= j < prefix.len() && prefix[j] == k;
                                assert(next[j] == k);
                            }
                            assert(next[i as int] == names[i as int]);
                        }
                        assert(self.queried@ =~= before.union(next.to_set()));
                    }
                    i = i + 1;
                }
                assert(names.take(i as int) =~= names);
                Ok(())
            },
            Err(e) => Err(e),
        }
    }

    /// The elements loaded so far, keyed by MPCORB designation.
    pub fn elements(&self) -> (r: &StringHashMap<OrbitalElements>)
        ensures
            r@ == self.held(),
    {
        &self.elements
    }
}

/// A key is asked for once: when a query for the keys that were missing has been taken
/// in, none of them is missing any more, and neither is one that was not missing before.
pub proof fn law_a_key_is_asked_for_once(
    asked: Set<Seq<char>>,
    keys: Seq<Seq<char>>,
    later: Seq<Seq<char>>,
)
    ensures
        ({
            let now = asked.union(missing_keys(asked, keys).to_set());
            &&& missing_keys(now, keys) == Seq::<Seq<char>>::empty()
            &&& forall|i: int|
                0 <= i < missing_keys(now, later).len() ==> !keys.contains(
                    #[trigger] missing_keys(now, later)[i],
                ) && missing_keys(asked, later).contains(missing_keys(now, later)[i])
        }),
{
    broadcast use vstd::seq_lib::group_filter_ensures;
    broadcast use vstd::seq::Seq::lemma_filter_contains_rev;

    let now = asked.union(missing_keys(asked, keys).to_set());
    assert forall|k: Seq<char>| keys.contains(k) implies now.contains(k) by {
        if !asked.contains(k) {
            assert(missing_keys(asked, keys).contains(k));
        }
    }
    let rest = missing_keys(now, keys);
    if rest.len() > 0 {
        assert(rest.contains(rest[0]));
        assert(keys.contains(rest[0]));
    }
    assert forall|i: int| 0 <= i < missing_keys(now, later).len() implies !keys.contains(
        #[trigger] missing_keys(now, later)[i],
    ) && missing_keys(asked, later).contains(missing_keys(now, later)[i]) by {
        let k = missing_keys(now, later)[i];
        assert(missing_keys(now, later).contains(k));
        assert(later.contains(k) && !now.contains(k));
        assert(!asked.contains(k));
    }
}

/// Geometry fields derived together from one set of elements.
pub const GEOMETRY_FIELDS: [&'static str; 3] = ["helio_dist", "topo_dist", "phase_angle"];

/// Every geometry field holds a double.
pub open spec fn carries_geometry(fields: Seq<(Seq<char>, bson_doc::Content)>) -> bool {
    forall|i: int|
        0 <= i < 3 ==> bson_doc::double_field(fields, (#[trigger] GEOMETRY_FIELDS@[i])@) is Some
}

/// Whether a document already carries every geometry field.
pub fn has_geometry(doc: &Document) -> (r: bool)
    ensures
        r == carries_geometry(bson_doc::document_fields(*doc)),
{
    let names = GEOMETRY_FIELDS;
    let mut i: usize = 0;
    while i < 3
        invariant
            i <= 3,
            names@ == GEOMETRY_FIELDS@,
            names@.len() == 3,
            forall|k: int|
                0 <= k < i ==> bson_doc::double_field(
                    bson_doc::document_fields(*doc),
                    (#[trigger] GEOMETRY_FIELDS@[k])@,
                ) is Some,
        decreases 3 - i,
    {
        let name: &'static str = names[i];
        assert(name == GEOMETRY_FIELDS@[i as int]);
        if get_double(doc, name).is_none() {
            return false;
        }
        i = i + 1;
    }
    true
}

/// The fields with the geometry written into them.
pub open spec fn with_geometry_fields(
    fields: Seq<(Seq<char>, bson_doc::Content)>,
    geometry: Geometry,
) -> Seq<(Seq<char>, bson_doc::Content)> {
    let d = bson_doc::with_field(
        fields,
        "helio_dist"@,
        bson_doc::Content::Double(geometry.helio_dist.bits),
    );
    let d = bson_doc::with_field(
        d,
        "topo_dist"@,
        bson_doc::Content::Double(geometry.topo_dist.bits),
    );
    bson_doc::with_field(d, "phase_angle"@, bson_doc::Content::Double(geometry.phase_angle.bits))
}

/// Write geometry into a document.
pub fn insert_geometry(target: &mut Document, geometry: Geometry)
    ensures
        bson_doc::document_fields(*final(target)) == with_geometry_fields(
            bson_doc::document_fields(*old(target)),
            geometry,
        ),
{
    insert(target, "helio_dist", double_value(geometry.helio_dist));
    insert(target, "topo_dist", double_value(geometry.topo_dist));
    insert(target, "phase_angle", double_value(geometry.phase_angle));
}

/// Geometry is derived for this document: it lacks some of it, and there are elements for
/// its key.
pub open spec fn needs_geometry(
    fields: Seq<(Seq<char>, bson_doc::Content)>,
    key: Seq<char>,
    elements: Map<Seq<char>, OrbitalElements>,
) -> bool {
    !carries_geometry(fields) && elements.contains_key(key)
}

/// Derive geometry into `target` for the MPCORB key `key` at `jd`. Returns
/// whether it wrote anything.
///
/// Enrichment only began writing geometry recently, so most of the archive has
/// none. It is a pure function of designation and epoch, so it can be recomputed
/// on read rather than backfilled across the alert collection. A complete set of
/// values already present is left alone: recomputing would re-derive the same
/// numbers from the same elements.
pub fn fill_geometry<G: Fn(OrbitalElements, Double) -> Geometry>(
    target: &mut Document,
    key: &str,
    jd: Double,
    elements: &StringHashMap<OrbitalElements>,
    geometry_at: &G,
) -> (r: bool)
    requires
        forall|e: OrbitalElements, t: Double| #[trigger] geometry_at.requires((e, t)),
    ensures
        r == needs_geometry(bson_doc::document_fields(*old(target)), key@, elements@),
        r ==> exists|g: Geometry|
            geometry_at.ensures((elements@[key@], jd), g) && bson_doc::document_fields(
                *final(target),
            ) == #[trigger] with_geometry_fields(bson_doc::document_fields(*old(target)), g),
        !r ==> bson_doc::document_fields(*final(target)) == bson_doc::document_fields(*old(target)),
{
    if has_geometry(target) {
        return false;
    }
    match elements.get(key) {
        Some(found) => {
            let geometry = geometry_at(*found, jd);
            insert_geometry(target, geometry);
            true
        },
        None => false,
    }
}

/// A document that geometry was written into carries it, so that writing is done once;
/// and every other field stays as it was.
pub proof fn law_geometry_is_filled_once(
    fields: Seq<(Seq<char>, bson_doc::Content)>,
    geometry: Geometry,
    other: Seq<char>,
)
    ensures
        carries_geometry(with_geometry_fields(fields, geometry)),
        !GEOMETRY_FIELDS@.map_values(|s: &'static str| s@).contains(other) ==> bson_doc::lookup(
            with_geometry_fields(fields, geometry),
            other,
        ) == bson_doc::lookup(fields, other),
{
    let new = with_geometry_fields(fields, geometry);
    let names = GEOMETRY_FIELDS@.map_values(|s: &'static str| s@);
    assert(names[0] == "helio_dist"@ && names[1] == "topo_dist"@ && names[2] == "phase_angle"@);
    reveal_strlit("helio_dist");
    reveal_strlit("topo_dist");
    reveal_strlit("phase_angle");
    assert("helio_dist"@.len() == 10 && "topo_dist"@.len() == 9 && "phase_angle"@.len() == 11);
    lemma_geometry_lookup(fields, geometry, "helio_dist"@);
    lemma_geometry_lookup(fields, geometry, "topo_dist"@);
    lemma_geometry_lookup(fields, geometry, "phase_angle"@);
    assert forall|i: int| 0 <= i < 3 implies bson_doc::double_field(
        new,
        (#[trigger] GEOMETRY_FIELDS@[i])@,
    ) is Some by {
        assert(GEOMETRY_FIELDS@[i]@ == names[i]);
        assert(i == 0 || i == 1 || i == 2);
    }
    if !names.contains(other) {
        assert(names.contains(names[0]) && names.contains(names[1]) && names.contains(names[2]));
        lemma_geometry_lookup(fields, geometry, other);
    }
}

pub proof fn lemma_geometry_lookup(
    fields: Seq<(Seq<char>, bson_doc::Content)>,
    geometry: Geometry,
    key: Seq<char>,
)
    ensures
        bson_doc::lookup(with_geometry_fields(fields, geometry), key) == if key == "phase_angle"@ {
            Some(bson_doc::Content::Double(geometry.phase_angle.bits))
        } else if key == "topo_dist"@ {
            Some(bson_doc::Content::Double(geometry.topo_dist.bits))
        } else if key == "helio_dist"@ {
            Some(bson_doc::Content::Double(geometry.helio_dist.bits))
        } else {
            bson_doc::lookup(fields, key)
        },
{
    let v = bson_doc::Content::Double(geometry.helio_dist.bits);
    bson_doc::law_reads_give_back_writes(fields, "helio_dist"@, v, key);
    let d = bson_doc::with_field(fields, "helio_dist"@, v);
    let v = bson_doc::Content::Double(geometry.topo_dist.bits);
    bson_doc::law_reads_give_back_writes(d, "topo_dist"@, v, key);
    let d = bson_doc::with_field(d, "topo_dist"@, v);
    let v = bson_doc::Content::Double(geometry.phase_angle.bits);
    bson_doc::law_reads_give_back_writes(d, "phase_angle"@, v, key);
}

/// When the catalogue was written, by any one of its documents: every document in a given
/// refresh carries the same `updated_at`.
pub fn written_at(document: Option<&Document>) -> (r: Option<Double>)
    ensures
        r == match document {
            Some(d) => bson_doc::double_field(bson_doc::document_fields(*d), "updated_at"@),
            None => None,
        },
{
    match document {
        Some(d) => get_double(d, "updated_at"),
        None => None,
    }
}

/// Seconds since the catalogue was last written, from the answer to a query for one of
/// its documents.
///
/// `Ok(None)` means it has genuinely never been written; an error means we could
/// not tell, which is deliberately not the same thing -- treating a failed query
/// as "absent" would re-download the whole catalogue on a transient blip.
///
/// `minus` subtracts the time of writing from the present.
pub fn orbits_age_seconds<E, M: Fn(Double, Double) -> Double>(
    found: Result<Option<Document>, E>,
    now: Double,
    minus: &M,
) -> (r: Result<Option<Double>, E>)
    requires
        forall|a: Double, b: Double| #[trigger] minus.requires((a, b)),
    ensures
        match found {
            Err(e) => r == Err::<Option<Double>, E>(e),
            Ok(None) => r == Ok::<Option<Double>, E>(None),
            Ok(Some(d)) => match bson_doc::double_field(
                bson_doc::document_fields(d),
                "updated_at"@,
            ) {
                Some(written) => r matches Ok(Some(age)) && minus.ensures((now, written), age),
                None => r == Ok::<Option<Double>, E>(None),
            },
        },
{
    match found {
        Err(e) => Err(e),
        Ok(document) => match written_at(document.as_ref()) {
            Some(written) => Ok(Some(minus(now, written))),
            None => Ok(None),
        },
    }
}

} // verus!
