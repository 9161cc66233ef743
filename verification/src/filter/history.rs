//! Geometry for the histories that filters return.

use crate::utils::bson_doc;
use crate::utils::bson_doc::{
    array, as_document, clone_bson, clone_document, get_array, get_double, get_object, get_text,
    insert, object, Content,
};
use crate::utils::designation;
use crate::utils::designation::normalize_ztf_ssnamenr;
use crate::utils::double::Double;
use crate::utils::lists;
use crate::utils::orbits;
use crate::utils::orbits::{fill_geometry, has_geometry};
use crate::utils::sso_geometry::{Geometry, OrbitalElements};
use crate::utils::text;
use mongodb::bson::{Bson, Document};
use vstd::hash_map::StringHashMap;
use vstd::hash_set::StringHashSet;
use vstd::prelude::*;

verus! {

/// Where a filter must project `sso_history` for its geometry to be filled in.
pub const SSO_HISTORY_ANNOTATION: &'static str = "sso_history";

/// The history that a filter projected into its annotations.
pub open spec fn history_of(fields: Seq<(Seq<char>, Content)>) -> Option<Seq<Content>> {
    match bson_doc::object_field(fields, "annotations"@) {
        Some(annotations) => bson_doc::array_field(annotations, SSO_HISTORY_ANNOTATION@),
        None => None,
    }
}

/// The documents among these values, in order.
pub open spec fn objects(items: Seq<Content>) -> Seq<Seq<(Seq<char>, Content)>>
    decreases items.len(),
{
    if items.len() == 0 {
        Seq::empty()
    } else {
        match items.last() {
            Content::Object(fields) => objects(items.drop_last()).push(fields),
            _ => objects(items.drop_last()),
        }
    }
}

/// The entries of the history of a document.
pub open spec fn entries(fields: Seq<(Seq<char>, Content)>) -> Seq<Seq<(Seq<char>, Content)>> {
    match history_of(fields) {
        Some(items) => objects(items),
        None => Seq::empty(),
    }
}

/// What documents behind references hold.
pub open spec fn borrowed(docs: Seq<&Document>) -> Seq<Seq<(Seq<char>, Content)>> {
    docs.map_values(|d: &Document| bson_doc::document_fields(*d))
}

/// The `sso_history` entries a filter projected into its annotations.
pub fn sso_history_entries(doc: &Document) -> (r: Vec<&Document>)
    ensures
        borrowed(r@) == entries(bson_doc::document_fields(*doc)),
{
    let mut out: Vec<&Document> = Vec::new();
    assert(borrowed(out@) =~= Seq::empty());
    if let Some(annotations) = get_object(doc, "annotations") {
        if let Some(items) = get_array(annotations, SSO_HISTORY_ANNOTATION) {
            let ghost all = bson_doc::values(items@);
            let mut i: usize = 0;
            assert(borrowed(out@) =~= objects(all.take(0)));
            while i < items.len()
                invariant
                    i <= items.len(),
                    all == bson_doc::values(items@),
                    borrowed(out@) == objects(all.take(i as int)),
                decreases items.len() - i,
            {
                assert(all.take(i + 1).drop_last() =~= all.take(i as int));
                assert(all.take(i + 1).last() == bson_doc::bson_value(items@[i as int]));
                if let Some(entry) = as_document(&items[i]) {
                    let ghost before = out@;
                    out.push(entry);
                    assert(borrowed(out@) =~= borrowed(before).push(
                        bson_doc::document_fields(*entry),
                    ));
                }
                i = i + 1;
            }
            assert(all.take(i as int) =~= all);
        }
    }
    out
}

/// An entry that lacks geometry and names an object that can be looked up.
pub open spec fn is_bare(entry: Seq<(Seq<char>, Content)>, designation: Seq<char>) -> bool {
    &&& !orbits::carries_geometry(entry)
    &&& bson_doc::text_field(entry, "designation"@) == Some(designation)
    &&& designation::name_key(designation) is Some
}

/// An entry among these names the object, and lacks geometry.
pub open spec fn is_wanted_in(
    list: Seq<Seq<(Seq<char>, Content)>>,
    designation: Seq<char>,
) -> bool {
    exists|i: int| 0 <= i < list.len() && is_bare(#[trigger] list[i], designation)
}

/// An entry of one of the documents names the object, and lacks geometry.
pub open spec fn is_wanted(
    docs: Seq<Seq<(Seq<char>, Content)>>,
    designation: Seq<char>,
) -> bool {
    exists|k: int| 0 <= k < docs.len() && is_wanted_in(entries(#[trigger] docs[k]), designation)
}

/// `keys` gives each object that is wanted its key, and no other.
pub open spec fn are_keys(
    keys: Map<Seq<char>, String>,
    docs: Seq<Seq<(Seq<char>, Content)>>,
) -> bool {
    forall|d: Seq<char>|
        (#[trigger] keys.contains_key(d) <==> is_wanted(docs, d)) && (keys.contains_key(d)
            ==> designation::name_key(d) == Some(keys[d]@))
}

/// Add the keys that the entries of one document need.
fn add_keys(keys: &mut StringHashMap<String>, doc: &Document)
    ensures
        forall|d: Seq<char>| #[trigger]
            final(keys)@.contains_key(d) <==> old(keys)@.contains_key(d) || is_wanted_in(
                entries(bson_doc::document_fields(*doc)),
                d,
            ),
        forall|d: Seq<char>|
            old(keys)@.contains_key(d) ==> #[trigger] final(keys)@[d] == old(keys)@[d],
        forall|d: Seq<char>|
            #![trigger final(keys)@[d]]
            final(keys)@.contains_key(d) && !old(keys)@.contains_key(d)
                ==> designation::name_key(d) == Some(final(keys)@[d]@),
{
    let ghost start = keys@;
    let list = sso_history_entries(doc);
    let ghost all = entries(bson_doc::document_fields(*doc));
    let mut i: usize = 0;
    while i < list.len()
        invariant
            i <= list.len(),
            all == borrowed(list@),
            forall|d: Seq<char>| #[trigger]
                keys@.contains_key(d) <==> start.contains_key(d) || is_wanted_in(
                    all.take(i as int),
                    d,
                ),
            forall|d: Seq<char>| start.contains_key(d) ==> #[trigger] keys@[d] == start[d],
            forall|d: Seq<char>|
                #![trigger keys@[d]]
                keys@.contains_key(d) && !start.contains_key(d) ==> designation::name_key(d)
                    == Some(keys@[d]@),
        decreases list.len() - i,
    {
        let entry = list[i];
        let ghost fields = bson_doc::document_fields(*entry);
        let ghost before = keys@;
        let ghost prefix = all.take(i as int);
        let ghost next = all.take(i + 1);
        proof {
            assert(next =~= prefix.push(fields));
            assert forall|d: Seq<char>| is_wanted_in(next, d) == (is_wanted_in(prefix, d)
                || is_bare(fields, d)) by {
                if is_wanted_in(prefix, d) {
                    let j = choose|j: int| 0 <= j < prefix.len() && is_bare(
                        #[trigger] prefix[j],
                        d,
                    );
                    assert(is_bare(next[j], d));
                }
                if is_bare(fields, d) {
                    assert(is_bare(next[i as int], d));
                }
                if is_wanted_in(next, d) && !is_bare(fields, d) {
                    let j = choose|j: int| 0 <= j < next.len() && is_bare(#[trigger] next[j], d);
                    assert(is_bare(prefix[j], d));
                }
            }
        }
        if !has_geometry(entry) {
            if let Some(name) = get_text(entry, "designation") {
                if !keys.contains_key(name) {
                    if let Some(key) = normalize_ztf_ssnamenr(name) {
                        keys.insert(name.to_owned(), key);
                    }
                }
            }
        }
        proof {
            assert forall|d: Seq<char>| #[trigger]
                keys@.contains_key(d) <==> start.contains_key(d) || is_wanted_in(next, d) by {
                assert(before.contains_key(d) <==> start.contains_key(d) || is_wanted_in(
                    prefix,
                    d,
                ));
            }
        }
        i = i + 1;
    }
    assert(all.take(i as int) =~= all);
}

/// MPCORB key for each designation in the history that still needs geometry.
pub fn sso_history_keys(documents: &Vec<Document>) -> (r: StringHashMap<String>)
    ensures
        are_keys(r@, bson_doc::documents(documents@)),
{
    let mut keys: StringHashMap<String> = StringHashMap::new();
    let ghost all = bson_doc::documents(documents@);
    let mut i: usize = 0;
    while i < documents.len()
        invariant
            i <= documents.len(),
            all == bson_doc::documents(documents@),
            are_keys(keys@, all.take(i as int)),
        decreases documents.len() - i,
    {
        let ghost before = keys@;
        add_keys(&mut keys, &documents[i]);
        proof {
            let prefix = all.take(i as int);
            let next = all.take(i + 1);
            let fields = all[i as int];
            assert(next =~= prefix.push(fields));
            assert forall|d: Seq<char>|
                (#[trigger] keys@.contains_key(d) <==> is_wanted(next, d)) && (keys@.contains_key(
                    d,
                ) ==> designation::name_key(d) == Some(keys@[d]@)) by {
                assert(before.contains_key(d) <==> is_wanted(prefix, d));
                if is_wanted(prefix, d) {
                    let k = choose|k: int| 0 <= k < prefix.len() && is_wanted_in(
                        entries(#[trigger] prefix[k]),
                        d,
                    );
                    assert(is_wanted_in(entries(next[k]), d));
                }
                if is_wanted_in(entries(fields), d) {
                    assert(is_wanted_in(entries(next[i as int]), d));
                }
                if is_wanted(next, d) && !is_wanted_in(entries(fields), d) {
                    let k = choose|k: int| 0 <= k < next.len() && is_wanted_in(
                        entries(#[trigger] next[k]),
                        d,
                    );
                    assert(is_wanted_in(entries(prefix[k]), d));
                }
                if before.contains_key(d) {
                    assert(keys@[d] == before[d]);
                }
            }
        }
        i = i + 1;
    }
    assert(all.take(i as int) =~= all);
    keys
}

/// The key under which an entry that lacks geometry is looked up.
pub open spec fn wanted_key(entry: Seq<(Seq<char>, Content)>) -> Option<Seq<char>> {
    if orbits::carries_geometry(entry) {
        None
    } else {
        match bson_doc::text_field(entry, "designation"@) {
            Some(name) => designation::name_key(name),
            None => None,
        }
    }
}

/// `keys` with another one, where it is not among them.
pub open spec fn with_key(keys: Seq<Seq<char>>, key: Option<Seq<char>>) -> Seq<Seq<char>> {
    match key {
        Some(k) => if keys.contains(k) {
            keys
        } else {
            keys.push(k)
        },
        None => keys,
    }
}

/// `keys` with those of the entries, each once, in the order in which they come.
pub open spec fn with_entry_keys(
    keys: Seq<Seq<char>>,
    list: Seq<Seq<(Seq<char>, Content)>>,
) -> Seq<Seq<char>>
    decreases list.len(),
{
    if list.len() == 0 {
        keys
    } else {
        with_key(with_entry_keys(keys, list.drop_last()), wanted_key(list.last()))
    }
}

/// The keys of all entries that lack geometry, each once, in the order in which they come.
pub open spec fn all_wanted(docs: Seq<Seq<(Seq<char>, Content)>>) -> Seq<Seq<char>>
    decreases docs.len(),
{
    if docs.len() == 0 {
        Seq::empty()
    } else {
        with_entry_keys(all_wanted(docs.drop_last()), entries(docs.last()))
    }
}

/// The keys to ask the catalogue for, so that the whole batch is one query.
pub fn wanted_keys(documents: &Vec<Document>) -> (r: Vec<String>)
    ensures
        text::texts(r@) == all_wanted(bson_doc::documents(documents@)),
{
    let mut out: Vec<String> = Vec::new();
    let mut seen: StringHashSet = StringHashSet::new();
    let ghost docs = bson_doc::documents(documents@);
    let mut i: usize = 0;
    assert(text::texts(out@) =~= all_wanted(docs.take(0)));
    assert(seen@ =~= text::texts(out@).to_set());
    while i < documents.len()
        invariant
            i <= documents.len(),
            docs == bson_doc::documents(documents@),
            text::texts(out@) == all_wanted(docs.take(i as int)),
            seen@ == text::texts(out@).to_set(),
        decreases documents.len() - i,
    {
        let list = sso_history_entries(&documents[i]);
        let ghost all = entries(docs[i as int]);
        let ghost base = all_wanted(docs.take(i as int));
        let mut k: usize = 0;
        assert(with_entry_keys(base, all.take(0)) == base);
        while k < list.len()
            invariant
                k <= list.len(),
                all == borrowed(list@),
                text::texts(out@) == with_entry_keys(base, all.take(k as int)),
                seen@ == text::texts(out@).to_set(),
            decreases list.len() - k,
        {
            let entry = list[k];
            proof {
                assert(all.take(k + 1).drop_last() =~= all.take(k as int));
                assert(all.take(k + 1).last() == bson_doc::document_fields(*entry));
            }
            if !has_geometry(entry) {
                if let Some(name) = get_text(entry, "designation") {
                    if let Some(key) = normalize_ztf_ssnamenr(name) {
                        let ghost names = text::texts(out@);
                        if seen.insert(key.clone()) {
                            out.push(key);
                            proof {
                                assert(text::texts(out@) =~= names.push(key@));
                                lists::lemma_to_set_push(names, key@);
                            }
                        } else {
                            assert(seen@ =~= names.to_set());
                        }
                    }
                }
            }
            k = k + 1;
        }
        proof {
            assert(all.take(k as int) =~= all);
            assert(docs.take(i + 1).drop_last() =~= docs.take(i as int));
        }
        i = i + 1;
    }
    assert(docs.take(i as int) =~= docs);
    out
}

/// Every object that is wanted is asked for, and no key is asked for twice.
pub proof fn law_every_wanted_key_is_asked_for_once(
    docs: Seq<Seq<(Seq<char>, Content)>>,
    designation: Seq<char>,
)
    ensures
        all_wanted(docs).no_duplicates(),
        is_wanted(docs, designation) ==> all_wanted(docs).contains(
            designation::name_key(designation)->0,
        ),
    decreases docs.len(),
{
    if docs.len() > 0 {
        let front = docs.drop_last();
        law_every_wanted_key_is_asked_for_once(front, designation);
        lemma_entry_keys(all_wanted(front), entries(docs.last()), designation);
        if is_wanted(docs, designation) && !is_wanted_in(entries(docs.last()), designation) {
            let k = choose|k: int|
                0 <= k < docs.len() && is_wanted_in(entries(#[trigger] docs[k]), designation);
            assert(is_wanted_in(entries(front[k]), designation));
        }
    }
}

proof fn lemma_entry_keys(
    keys: Seq<Seq<char>>,
    list: Seq<Seq<(Seq<char>, Content)>>,
    designation: Seq<char>,
)
    requires
        keys.no_duplicates(),
    ensures
        with_entry_keys(keys, list).no_duplicates(),
        forall|k: Seq<char>| keys.contains(k) ==> #[trigger] with_entry_keys(keys, list).contains(k),
        is_wanted_in(list, designation) ==> with_entry_keys(keys, list).contains(
            designation::name_key(designation)->0,
        ),
    decreases list.len(),
{
    if list.len() > 0 {
        let front = list.drop_last();
        lemma_entry_keys(keys, front, designation);
        let before = with_entry_keys(keys, front);
        let now = with_entry_keys(keys, list);
        assert forall|k: Seq<char>| before.contains(k) implies #[trigger] now.contains(k) by {
            let i = choose|i: int| 0 <= i < before.len() && before[i] == k;
            assert(now[i] == k);
        }
        if is_bare(list.last(), designation) {
            let k = designation::name_key(designation)->0;
            if !before.contains(k) {
                assert(now[before.len() as int] == k);
            }
        } else if is_wanted_in(list, designation) {
            let i = choose|i: int| 0 <= i < list.len() && is_bare(#[trigger] list[i], designation);
            assert(is_bare(front[i], designation));
        }
        assert forall|k: Seq<char>| keys.contains(k) implies #[trigger] now.contains(k) by {
            assert(before.contains(k));
        }
    }
}

/// The key of an entry, by the designation that it carries.
pub open spec fn entry_key(
    entry: Seq<(Seq<char>, Content)>,
    keys: Map<Seq<char>, String>,
) -> Option<Seq<char>> {
    match bson_doc::text_field(entry, "designation"@) {
        Some(d) => if keys.contains_key(d) {
            Some(keys[d]@)
        } else {
            None
        },
        None => None,
    }
}

/// Geometry is derived for this entry: it has an epoch and a key, lacks geometry, and there
/// are elements for its key.
pub open spec fn is_fillable(
    entry: Seq<(Seq<char>, Content)>,
    keys: Map<Seq<char>, String>,
    elements: Map<Seq<char>, OrbitalElements>,
) -> bool {
    &&& bson_doc::double_field(entry, "jd"@) is Some
    &&& entry_key(entry, keys) matches Some(key)
    &&& orbits::needs_geometry(entry, key, elements)
}

/// `new` is the entry `old`, with the geometry of its own epoch where it can be derived.
pub open spec fn is_filled<G: Fn(OrbitalElements, Double) -> Geometry>(
    new: Seq<(Seq<char>, Content)>,
    old_entry: Seq<(Seq<char>, Content)>,
    keys: Map<Seq<char>, String>,
    elements: Map<Seq<char>, OrbitalElements>,
    geometry_at: G,
) -> bool {
    if is_fillable(old_entry, keys, elements) {
        exists|g: Geometry|
            geometry_at.ensures(
                (
                    elements[entry_key(old_entry, keys)->0],
                    bson_doc::double_field(old_entry, "jd"@)->0,
                ),
                g,
            ) && new == #[trigger] orbits::with_geometry_fields(old_entry, g)
    } else {
        new == old_entry
    }
}

/// Derive geometry for one history entry, reading the designation and epoch the
/// entry carries. A designation absent from `keys` has no MPCORB form.
pub fn fill_entry_geometry<G: Fn(OrbitalElements, Double) -> Geometry>(
    entry: &mut Document,
    keys: &StringHashMap<String>,
    elements: &StringHashMap<OrbitalElements>,
    geometry_at: &G,
) -> (r: bool)
    requires
        forall|e: OrbitalElements, t: Double| #[trigger] geometry_at.requires((e, t)),
    ensures
        r == is_fillable(bson_doc::document_fields(*old(entry)), keys@, elements@),
        is_filled(
            bson_doc::document_fields(*final(entry)),
            bson_doc::document_fields(*old(entry)),
            keys@,
            elements@,
            *geometry_at,
        ),
{
    let jd = match get_double(entry, "jd") {
        Some(jd) => jd,
        None => {
            return false;
        },
    };
    let key = match get_text(entry, "designation") {
        Some(d) => match keys.get(d) {
            Some(key) => key,
            None => {
                return false;
            },
        },
        None => {
            return false;
        },
    };
    fill_geometry(entry, key.as_str(), jd, elements, geometry_at)
}

/// `new` is the value `was`, filled where it is an entry.
pub open spec fn is_filled_value<G: Fn(OrbitalElements, Double) -> Geometry>(
    new: Content,
    was: Content,
    keys: Map<Seq<char>, String>,
    elements: Map<Seq<char>, OrbitalElements>,
    geometry_at: G,
) -> bool {
    match was {
        Content::Object(entry) => new is Object && is_filled(
            new->Object_0,
            entry,
            keys,
            elements,
            geometry_at,
        ),
        _ => new == was,
    }
}

/// `new` holds the values of `was` in their order, each filled where it is an entry.
pub open spec fn are_filled_values<G: Fn(OrbitalElements, Double) -> Geometry>(
    new: Seq<Content>,
    was: Seq<Content>,
    keys: Map<Seq<char>, String>,
    elements: Map<Seq<char>, OrbitalElements>,
    geometry_at: G,
) -> bool {
    new.len() == was.len() && forall|i: int|
        0 <= i < was.len() ==> is_filled_value(
            #[trigger] new[i],
            was[i],
            keys,
            elements,
            geometry_at,
        )
}

/// A document with another history in its annotations.
pub open spec fn with_history(
    fields: Seq<(Seq<char>, Content)>,
    history: Seq<Content>,
) -> Seq<(Seq<char>, Content)> {
    bson_doc::with_field(
        fields,
        "annotations"@,
        Content::Object(
            bson_doc::with_field(
                bson_doc::object_field(fields, "annotations"@)->0,
                SSO_HISTORY_ANNOTATION@,
                Content::Array(history),
            ),
        ),
    )
}

/// `new` is the document `was` with the entries of its history filled, and unchanged where
/// it has none.
pub open spec fn is_filled_document<G: Fn(OrbitalElements, Double) -> Geometry>(
    new: Seq<(Seq<char>, Content)>,
    was: Seq<(Seq<char>, Content)>,
    keys: Map<Seq<char>, String>,
    elements: Map<Seq<char>, OrbitalElements>,
    geometry_at: G,
) -> bool {
    match history_of(was) {
        Some(items) => exists|filled: Seq<Content>| #[trigger]
            are_filled_values(filled, items, keys, elements, geometry_at) && new == with_history(
                was,
                filled,
            ),
        None => new == was,
    }
}

/// How many of these values are entries that geometry is derived for.
pub open spec fn fillable_count(
    items: Seq<Content>,
    keys: Map<Seq<char>, String>,
    elements: Map<Seq<char>, OrbitalElements>,
) -> nat
    decreases items.len(),
{
    if items.len() == 0 {
        0
    } else {
        fillable_count(items.drop_last(), keys, elements) + match items.last() {
            Content::Object(entry) => if is_fillable(entry, keys, elements) {
                1nat
            } else {
                0nat
            },
            _ => 0nat,
        }
    }
}

/// The filled copies of the values of a history, and how many of them were filled.
fn filled_values<G: Fn(OrbitalElements, Double) -> Geometry>(
    items: &Vec<Bson>,
    keys: &StringHashMap<String>,
    elements: &StringHashMap<OrbitalElements>,
    geometry_at: &G,
) -> (r: (Vec<Bson>, usize))
    requires
        forall|e: OrbitalElements, t: Double| #[trigger] geometry_at.requires((e, t)),
    ensures
        are_filled_values(
            bson_doc::values(r.0@),
            bson_doc::values(items@),
            keys@,
            elements@,
            *geometry_at,
        ),
        r.1 == fillable_count(bson_doc::values(items@), keys@, elements@),
{
    let mut out: Vec<Bson> = Vec::new();
    let mut n: usize = 0;
    let mut i: usize = 0;
    let ghost all = bson_doc::values(items@);
    while i < items.len()
        invariant
            i <= items.len(),
            n <= i,
            out@.len() == i,
            all == bson_doc::values(items@),
            forall|e: OrbitalElements, t: Double| #[trigger] geometry_at.requires((e, t)),
            forall|k: int|
                0 <= k < i ==> is_filled_value(
                    bson_doc::bson_value(#[trigger] out@[k]),
                    all[k],
                    keys@,
                    elements@,
                    *geometry_at,
                ),
            n == fillable_count(all.take(i as int), keys@, elements@),
        decreases items.len() - i,
    {
        proof {
            assert(all.take(i + 1).drop_last() =~= all.take(i as int));
            assert(all.take(i + 1).last() == bson_doc::bson_value(items@[i as int]));
        }
        match as_document(&items[i]) {
            Some(entry) => {
                let mut copy = clone_document(entry);
                if fill_entry_geometry(&mut copy, keys, elements, geometry_at) {
                    n = n + 1;
                }
                out.push(object(copy));
            },
            None => {
                out.push(clone_bson(&items[i]));
            },
        }
        i = i + 1;
    }
    assert(all.take(i as int) =~= all);
    (out, n)
}

/// Fill the history of one document. Returns how many entries were filled.
pub fn fill_document<G: Fn(OrbitalElements, Double) -> Geometry>(
    doc: &mut Document,
    keys: &StringHashMap<String>,
    elements: &StringHashMap<OrbitalElements>,
    geometry_at: &G,
) -> (r: usize)
    requires
        forall|e: OrbitalElements, t: Double| #[trigger] geometry_at.requires((e, t)),
    ensures
        is_filled_document(
            bson_doc::document_fields(*final(doc)),
            bson_doc::document_fields(*old(doc)),
            keys@,
            elements@,
            *geometry_at,
        ),
        r == match history_of(bson_doc::document_fields(*old(doc))) {
            Some(items) => fillable_count(items, keys@, elements@),
            None => 0,
        },
{
    let mut annotations = match get_object(doc, "annotations") {
        Some(a) => clone_document(a),
        None => {
            return 0;
        },
    };
    let (filled, n) = match get_array(&annotations, SSO_HISTORY_ANNOTATION) {
        Some(items) => filled_values(items, keys, elements, geometry_at),
        None => {
            return 0;
        },
    };
    let ghost history = bson_doc::values(filled@);
    assert(are_filled_values(
        history,
        history_of(bson_doc::document_fields(*doc))->0,
        keys@,
        elements@,
        *geometry_at,
    ));
    insert(&mut annotations, SSO_HISTORY_ANNOTATION, array(filled));
    insert(doc, "annotations", object(annotations));
    n
}

/// Derive geometry for `sso_history` points that do not carry it.
///
/// Geometry is a pure function of designation and epoch, so a point stored
/// without it can be derived on read rather than backfilled.
///
/// Only fills entries under `annotations.sso_history`; a filter that projects
/// the history elsewhere keeps whatever the stored documents had.
pub fn fill_sso_history_geometry<G: Fn(OrbitalElements, Double) -> Geometry>(
    documents: Vec<Document>,
    keys: &StringHashMap<String>,
    elements: &StringHashMap<OrbitalElements>,
    geometry_at: &G,
) -> (r: Vec<Document>)
    requires
        forall|e: OrbitalElements, t: Double| #[trigger] geometry_at.requires((e, t)),
    ensures
        r@.len() == documents@.len(),
        forall|i: int|
            0 <= i < r@.len() ==> is_filled_document(
                bson_doc::document_fields(#[trigger] r@[i]),
                bson_doc::document_fields(documents@[i]),
                keys@,
                elements@,
                *geometry_at,
            ),
{
    let mut out: Vec<Document> = Vec::new();
    let mut i: usize = 0;
    while i < documents.len()
        invariant
            i <= documents.len(),
            out@.len() == i,
            forall|e: OrbitalElements, t: Double| #[trigger] geometry_at.requires((e, t)),
            forall|k: int|
                0 <= k < i ==> is_filled_document(
                    bson_doc::document_fields(#[trigger] out@[k]),
                    bson_doc::document_fields(documents@[k]),
                    keys@,
                    elements@,
                    *geometry_at,
                ),
        decreases documents.len() - i,
    {
        let mut doc = clone_document(&documents[i]);
        fill_document(&mut doc, keys, elements, geometry_at);
        out.push(doc);
        i = i + 1;
    }
    out
}

/// An entry that was filled carries geometry, so that filling it again changes nothing; and
/// an entry that carried geometry before is left as it was.
pub proof fn law_entries_are_filled_once<G: Fn(OrbitalElements, Double) -> Geometry>(
    new: Seq<(Seq<char>, Content)>,
    was: Seq<(Seq<char>, Content)>,
    keys: Map<Seq<char>, String>,
    elements: Map<Seq<char>, OrbitalElements>,
    geometry_at: G,
)
    requires
        is_filled(new, was, keys, elements, geometry_at),
    ensures
        is_fillable(was, keys, elements) ==> orbits::carries_geometry(new),
        !is_fillable(new, keys, elements),
        orbits::carries_geometry(was) ==> new == was,
{
    if is_fillable(was, keys, elements) {
        let g = choose|g: Geometry|
            geometry_at.ensures(
                (
                    elements[entry_key(was, keys)->0],
                    bson_doc::double_field(was, "jd"@)->0,
                ),
                g,
            ) && new == #[trigger] orbits::with_geometry_fields(was, g);
        orbits::law_geometry_is_filled_once(was, g, "jd"@);
    }
}

} // verus!
