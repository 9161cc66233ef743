//! The worker that runs filters over enriched alerts.

use crate::enrichment::pipeline;
use crate::enrichment::pipeline::create_ztf_alert_pipeline;
use crate::filter::alerts::{FilterResults, FilterWorkerError};
use crate::utils::bson_doc;
use crate::utils::bson_doc::{as_int64, get, get_object, new_document, Content};
use crate::utils::double::Double;
use crate::utils::grouping;
use crate::utils::grouping::group;
use crate::utils::survey;
use crate::utils::survey::{Permissions, Survey};
use mongodb::bson::Document;
use std::collections::HashMap;
use vstd::prelude::*;
use vstd::std_specs::hash::*;
use vstd::string::*;

verus! {

/// A filter that is ready to run.
pub struct LoadedFilter {
    pub id: String,
    pub name: String,
    pub pipeline: Vec<Document>,
    /// The programs that the filter may see.
    pub permissions: Permissions,
}

/// The ZTF programs that a filter may see.
pub open spec fn allowed(f: LoadedFilter) -> Seq<i32> {
    match survey::programs(f.permissions, Survey::Ztf) {
        Some(p) => p,
        None => Seq::empty(),
    }
}

/// Each program that a filter may see, with the filter.
pub open spec fn filter_permissions(f: LoadedFilter) -> Seq<(i32, String)> {
    allowed(f).map_values(|p: i32| (p, f.id))
}

/// Each program that the filters may see, with the filter, in the order of the filters.
pub open spec fn all_permissions(filters: Seq<LoadedFilter>) -> Seq<(i32, String)>
    decreases filters.len(),
{
    if filters.len() == 0 {
        Seq::empty()
    } else {
        all_permissions(filters.drop_last()) + filter_permissions(filters.last())
    }
}

/// The filters of each program that filters may see.
pub fn by_permission(filters: &Vec<LoadedFilter>) -> (r: HashMap<i32, Vec<String>>)
    ensures
        grouping::are_groups(r@, all_permissions(filters@)),
{
    broadcast use group_hash_axioms;

    let mut pairs: Vec<(i32, String)> = Vec::new();
    let mut i: usize = 0;
    while i < filters.len()
        invariant
            i <= filters.len(),
            pairs@ == all_permissions(filters@.take(i as int)),
        decreases filters.len() - i,
    {
        let filter = &filters[i];
        let ghost before = pairs@;
        let ghost own = filter_permissions(*filter);
        if let Some(permissions) = filter.permissions.get(Survey::Ztf) {
            let mut k: usize = 0;
            assert(before + own.take(0) =~= before);
            while k < permissions.len()
                invariant
                    k <= permissions.len(),
                    own == permissions@.map_values(|p: i32| (p, filter.id)),
                    pairs@ == before + own.take(k as int),
                decreases permissions.len() - k,
            {
                pairs.push((permissions[k], filter.id.clone()));
                assert(own.take(k + 1) =~= own.take(k as int).push(own[k as int]));
                assert(pairs@ =~= before + own.take(k + 1));
                k = k + 1;
            }
            assert(own.take(k as int) =~= own);
        } else {
            assert(before + own =~= before);
        }
        assert(filters@.take(i + 1).drop_last() =~= filters@.take(i as int));
        i = i + 1;
    }
    assert(filters@.take(i as int) =~= filters@);
    group(pairs)
}

/// One of the filters goes by this id.
pub open spec fn names(ids: Seq<String>, id: Seq<char>) -> bool {
    exists|i: int| 0 <= i < ids.len() && (#[trigger] ids[i])@ == id
}

/// Whether one of the filters goes by this id.
fn contains_id(ids: &Vec<String>, id: &String) -> (r: bool)
    ensures
        r == names(ids@, id@),
{
    let mut i: usize = 0;
    while i < ids.len()
        invariant
            i <= ids.len(),
            forall|k: int| 0 <= k < i ==> (#[trigger] ids@[k])@ != id@,
        decreases ids.len() - i,
    {
        if ids[i] == *id {
            assert(ids@[i as int]@ == id@);
            return true;
        }
        i = i + 1;
    }
    false
}

/// A filter that goes by this id may see the program.
pub open spec fn is_permitted(filters: Seq<LoadedFilter>, id: Seq<char>, program: i32) -> bool {
    exists|k: int|
        0 <= k < filters.len() && (#[trigger] filters[k]).id@ == id && allowed(
            filters[k],
        ).contains(program)
}

/// One of the filters may see the program.
pub open spec fn is_served(filters: Seq<LoadedFilter>, program: i32) -> bool {
    exists|k: int| 0 <= k < filters.len() && allowed(#[trigger] filters[k]).contains(program)
}

/// The filters that are run over alerts of a program, in their order.
pub open spec fn selected(filters: Seq<LoadedFilter>, program: i32) -> Seq<LoadedFilter> {
    filters.filter(|f: LoadedFilter| is_permitted(filters, f.id@, program))
}

/// Ids do not recur.
pub open spec fn have_distinct_ids(filters: Seq<LoadedFilter>) -> bool {
    forall|i: int, j: int|
        0 <= i < j < filters.len() ==> (#[trigger] filters[i]).id@ != (#[trigger] filters[j]).id@
}

proof fn lemma_all_permissions(filters: Seq<LoadedFilter>, program: i32, id: String)
    ensures
        all_permissions(filters).contains((program, id)) <==> exists|k: int|
            0 <= k < filters.len() && (#[trigger] filters[k]).id == id && allowed(
                filters[k],
            ).contains(program),
    decreases filters.len(),
{
    if filters.len() > 0 {
        let front = filters.drop_last();
        let last = filters.last();
        lemma_all_permissions(front, program, id);
        let a = all_permissions(front);
        let b = filter_permissions(last);
        let pair = (program, id);
        let here = exists|k: int|
            0 <= k < filters.len() && (#[trigger] filters[k]).id == id && allowed(
                filters[k],
            ).contains(program);
        let there = exists|k: int|
            0 <= k < front.len() && (#[trigger] front[k]).id == id && allowed(front[k]).contains(
                program,
            );
        if a.contains(pair) {
            let i = choose|i: int| 0 <= i < a.len() && a[i] == pair;
            assert((a + b)[i] == pair);
        }
        if b.contains(pair) {
            let i = choose|i: int| 0 <= i < b.len() && b[i] == pair;
            assert((a + b)[a.len() + i] == pair);
            assert(allowed(last)[i] == program);
            assert(filters[filters.len() - 1] == last);
        }
        if (a + b).contains(pair) && !a.contains(pair) {
            let i = choose|i: int| 0 <= i < (a + b).len() && (a + b)[i] == pair;
            if i < a.len() {
                assert(a[i] == pair);
            }
            assert(b[i - a.len()] == pair);
        }
        if there {
            let k = choose|k: int|
                0 <= k < front.len() && (#[trigger] front[k]).id == id && allowed(
                    front[k],
                ).contains(program);
            assert(filters[k] == front[k]);
        }
        if here && !there {
            let k = choose|k: int|
                0 <= k < filters.len() && (#[trigger] filters[k]).id == id && allowed(
                    filters[k],
                ).contains(program);
            if k < front.len() {
                assert(front[k] == filters[k]);
            }
            let i = choose|i: int| 0 <= i < allowed(last).len() && allowed(last)[i] == program;
            assert(b[i] == pair);
        }
    }
}

proof fn lemma_permitted_ids(
    filters: Seq<LoadedFilter>,
    by_program: Map<i32, Vec<String>>,
    program: i32,
    id: Seq<char>,
)
    requires
        grouping::are_groups(by_program, all_permissions(filters)),
    ensures
        (by_program.contains_key(program) && names(by_program[program]@, id)) <==> is_permitted(
            filters,
            id,
            program,
        ),
{
    let ids = by_program[program]@;
    if by_program.contains_key(program) && names(ids, id) {
        let i = choose|i: int| 0 <= i < ids.len() && (#[trigger] ids[i])@ == id;
        assert(ids.contains(ids[i]));
        grouping::law_groups_hold_what_was_given(
            by_program,
            all_permissions(filters),
            program,
            ids[i],
        );
        lemma_all_permissions(filters, program, ids[i]);
    }
    if is_permitted(filters, id, program) {
        let k = choose|k: int|
            0 <= k < filters.len() && (#[trigger] filters[k]).id@ == id && allowed(
                filters[k],
            ).contains(program);
        lemma_all_permissions(filters, program, filters[k].id);
        assert(all_permissions(filters).contains((program, filters[k].id)));
        grouping::law_groups_hold_what_was_given(
            by_program,
            all_permissions(filters),
            program,
            filters[k].id,
        );
        let i = choose|i: int| 0 <= i < ids.len() && ids[i] == filters[k].id;
        assert(ids[i]@ == id);
    }
}

proof fn lemma_permitted_programs(
    filters: Seq<LoadedFilter>,
    by_program: Map<i32, Vec<String>>,
    program: i32,
)
    requires
        grouping::are_groups(by_program, all_permissions(filters)),
    ensures
        by_program.contains_key(program) <==> is_served(filters, program),
{
    if by_program.contains_key(program) {
        let ids = by_program[program]@;
        assert(ids.len() > 0);
        assert(names(ids, ids[0]@));
        lemma_permitted_ids(filters, by_program, program, ids[0]@);
        let k = choose|k: int|
            0 <= k < filters.len() && (#[trigger] filters[k]).id@ == ids[0]@ && allowed(
                filters[k],
            ).contains(program);
        assert(allowed(filters[k]).contains(program));
    }
    if is_served(filters, program) {
        let k = choose|k: int|
            0 <= k < filters.len() && allowed(#[trigger] filters[k]).contains(program);
        assert(is_permitted(filters, filters[k].id@, program));
        lemma_permitted_ids(filters, by_program, program, filters[k].id@);
    }
}

/// A filter is run over alerts of a program exactly where it may see the program.
pub proof fn law_filters_run_where_they_are_permitted(
    filters: Seq<LoadedFilter>,
    program: i32,
    k: int,
)
    requires
        have_distinct_ids(filters),
        0 <= k < filters.len(),
    ensures
        selected(filters, program).contains(filters[k]) <==> allowed(filters[k]).contains(program),
{
    broadcast use vstd::seq_lib::group_filter_ensures;
    broadcast use vstd::seq::Seq::lemma_filter_contains_rev;

    let f = filters[k];
    assert(filters.contains(f));
    if selected(filters, program).contains(f) {
        assert(is_permitted(filters, f.id@, program));
        let j = choose|j: int|
            0 <= j < filters.len() && (#[trigger] filters[j]).id@ == f.id@ && allowed(
                filters[j],
            ).contains(program);
        assert(j == k);
    }
    if allowed(f).contains(program) {
        assert(is_permitted(filters, f.id@, program));
    }
}

/// A filter that is run over alerts of a program goes by the id of one that may see it.
pub proof fn law_no_filter_runs_without_permission(
    filters: Seq<LoadedFilter>,
    program: i32,
    i: int,
)
    requires
        0 <= i < selected(filters, program).len(),
    ensures
        filters.contains(selected(filters, program)[i]),
        is_permitted(filters, selected(filters, program)[i].id@, program),
{
    broadcast use vstd::seq_lib::group_filter_ensures;
    broadcast use vstd::seq::Seq::lemma_filter_contains_rev;

    assert(selected(filters, program).contains(selected(filters, program)[i]));
}

/// The alerts that were told apart, as program and candid.
pub open spec fn told_apart(parsed: Seq<Option<(i32, i64)>>) -> Seq<(i32, i64)>
    decreases parsed.len(),
{
    if parsed.len() == 0 {
        Seq::empty()
    } else {
        match parsed.last() {
            Some(pair) => told_apart(parsed.drop_last()).push(pair),
            None => told_apart(parsed.drop_last()),
        }
    }
}

/// Group the alerts of a batch by program. What was not told apart is left out.
pub fn alerts_by_programid(parsed: &Vec<Option<(i32, i64)>>) -> (r: HashMap<i32, Vec<i64>>)
    ensures
        grouping::are_groups(r@, told_apart(parsed@)),
{
    broadcast use group_hash_axioms;

    let mut pairs: Vec<(i32, i64)> = Vec::new();
    let mut i: usize = 0;
    while i < parsed.len()
        invariant
            i <= parsed.len(),
            pairs@ == told_apart(parsed@.take(i as int)),
        decreases parsed.len() - i,
    {
        assert(parsed@.take(i + 1).drop_last() =~= parsed@.take(i as int));
        if let Some(pair) = parsed[i] {
            pairs.push(pair);
        }
        i = i + 1;
    }
    assert(parsed@.take(i as int) =~= parsed@);
    group(pairs)
}

/// Why a value cannot be written as JSON.
#[verifier::external_type_specification]
#[verifier::external_body]
pub struct ExJsonError(serde_json::Error);

/// The JSON text of a document with these fields, where it has one.
pub uninterp spec fn json_text(fields: Seq<(Seq<char>, Content)>) -> Option<Seq<char>>;

/// `serde_json::to_string` writes a document as JSON. Which text that is, is a function of
/// the fields of the document. It is not stated which text it is.
#[verifier::external_body]
pub(crate) fn to_json(d: &Document) -> (r: Result<String, serde_json::Error>)
    ensures
        match r {
            Ok(t) => json_text(bson_doc::document_fields(*d)) == Some(t@),
            Err(_) => json_text(bson_doc::document_fields(*d)) is None,
        },
{
    serde_json::to_string(d)
}

/// The annotations of a document that a filter returned; none are an empty document.
pub open spec fn annotations(fields: Seq<(Seq<char>, Content)>) -> Seq<(Seq<char>, Content)> {
    match bson_doc::object_field(fields, "annotations"@) {
        Some(a) => a,
        None => bson_doc::no_fields(),
    }
}

/// The candid of a document that a filter returned.
pub open spec fn candid(fields: Seq<(Seq<char>, Content)>) -> Option<i64> {
    match bson_doc::lookup(fields, "_id"@) {
        Some(Content::Int64(n)) => Some(n),
        _ => None,
    }
}

/// That an alert passed the filter, with its annotations written as this JSON.
pub open spec fn is_result(
    r: FilterResults,
    filter: LoadedFilter,
    passed_at: Double,
    json: Seq<char>,
) -> bool {
    &&& r.filter_id == filter.id
    &&& r.filter_name == filter.name
    &&& r.passed_at == passed_at
    &&& r.annotations@ == json
}

/// The result for an alert whose annotations are written as `json`.
pub fn result_with(filter: &LoadedFilter, passed_at: Double, json: String) -> (r: FilterResults)
    ensures
        is_result(r, *filter, passed_at, json@),
{
    FilterResults {
        filter_id: filter.id.clone(),
        filter_name: filter.name.clone(),
        passed_at,
        annotations: json,
    }
}

/// The result for a document that a filter returned.
pub fn filter_result(filter: &LoadedFilter, doc: &Document, passed_at: Double) -> (r: Result<
    (i64, FilterResults),
    FilterWorkerError,
>)
    ensures
        ({
            let fields = bson_doc::document_fields(*doc);
            match (candid(fields), json_text(annotations(fields))) {
                (None, _) => r matches Err(FilterWorkerError::MissingCandid),
                (Some(_), None) => r matches Err(FilterWorkerError::Serialization),
                (Some(id), Some(json)) => r is Ok && r->Ok_0.0 == id && is_result(
                    r->Ok_0.1,
                    *filter,
                    passed_at,
                    json,
                ),
            }
        }),
{
    let id: i64 = match get(doc, "_id") {
        Some(b) => match as_int64(b) {
            Some(n) => n,
            None => {
                return Err(FilterWorkerError::MissingCandid);
            },
        },
        None => {
            return Err(FilterWorkerError::MissingCandid);
        },
    };
    let written = match get_object(doc, "annotations") {
        Some(a) => to_json(a),
        None => to_json(&new_document()),
    };
    match written {
        Ok(json) => Ok((id, result_with(filter, passed_at, json))),
        Err(_) => Err(FilterWorkerError::Serialization),
    }
}

/// The document gives a result.
pub open spec fn has_result(fields: Seq<(Seq<char>, Content)>) -> bool {
    candid(fields) is Some && json_text(annotations(fields)) is Some
}

/// `results` are the results for documents that a filter returned.
pub open spec fn are_results(
    results: Seq<(i64, FilterResults)>,
    filter: LoadedFilter,
    docs: Seq<Seq<(Seq<char>, Content)>>,
    passed_at: Double,
) -> bool {
    results.len() == docs.len() && forall|i: int|
        0 <= i < docs.len() ==> has_result(docs[i]) && Some((#[trigger] results[i]).0) == candid(
            docs[i],
        ) && is_result(
            results[i].1,
            filter,
            passed_at,
            json_text(annotations(docs[i]))->0,
        )
}

/// The results for the documents that a filter returned, with the candids that they are for.
/// The first document that gives none decides which error comes.
pub fn filter_results(filter: &LoadedFilter, docs: &Vec<Document>, passed_at: Double) -> (r: Result<
    Vec<(i64, FilterResults)>,
    FilterWorkerError,
>)
    ensures
        match r {
            Ok(out) => are_results(out@, *filter, bson_doc::documents(docs@), passed_at),
            Err(e) => exists|i: int|
                0 <= i < docs@.len() && (forall|k: int|
                    0 <= k < i ==> has_result(bson_doc::document_fields(#[trigger] docs@[k])))
                    && !has_result(bson_doc::document_fields(#[trigger] docs@[i])) && if candid(
                    bson_doc::document_fields(docs@[i]),
                ) is None {
                    e is MissingCandid
                } else {
                    e is Serialization
                },
        },
{
    let mut out: Vec<(i64, FilterResults)> = Vec::new();
    let ghost all = bson_doc::documents(docs@);
    let mut i: usize = 0;
    while i < docs.len()
        invariant
            i <= docs.len(),
            all == bson_doc::documents(docs@),
            are_results(out@, *filter, all.take(i as int), passed_at),
            forall|k: int|
                0 <= k < i ==> has_result(bson_doc::document_fields(#[trigger] docs@[k])),
        decreases docs.len() - i,
    {
        match filter_result(filter, &docs[i], passed_at) {
            Ok(pair) => {
                let ghost before = out@;
                out.push(pair);
                assert(are_results(out@, *filter, all.take(i + 1), passed_at)) by {
                    assert forall|k: int| 0 <= k < i + 1 implies has_result(all.take(i + 1)[k])
                        && Some((#[trigger] out@[k]).0) == candid(all.take(i + 1)[k]) && is_result(
                        out@[k].1,
                        *filter,
                        passed_at,
                        json_text(annotations(all.take(i + 1)[k]))->0,
                    ) by {
                        if k < i {
                            assert(out@[k] == before[k]);
                            assert(all.take(i + 1)[k] == all.take(i as int)[k]);
                        }
                    }
                }
            },
            Err(e) => {
                assert(!has_result(bson_doc::document_fields(docs@[i as int])));
                return Err(e);
            },
        }
        i = i + 1;
    }
    assert(all.take(i as int) =~= all);
    Ok(out)
}

/// The results of each alert, in the order in which the filters gave them.
pub fn results_by_candid(results: Vec<(i64, FilterResults)>) -> (r: HashMap<
    i64,
    Vec<FilterResults>,
>)
    ensures
        grouping::are_groups(r@, results@),
{
    broadcast use group_hash_axioms;

    group(results)
}

/// The worker that runs filters over enriched alerts.
pub struct ZtfFilterWorker {
    alert_pipeline: Vec<Document>,
    input_queue: String,
    output_topic: String,
    filters: Vec<LoadedFilter>,
    filters_by_permission: HashMap<i32, Vec<String>>,
}

impl ZtfFilterWorker {
    /// The filters that the worker runs.
    pub closed spec fn loaded(self) -> Seq<LoadedFilter> {
        self.filters@
    }

    /// The filters are known by the programs that they may see, and the pipeline fetches
    /// alerts with their classifications.
    pub closed spec fn well_formed(self) -> bool {
        &&& grouping::are_groups(self.filters_by_permission@, all_permissions(self.filters@))
        &&& bson_doc::documents(self.alert_pipeline@) == pipeline::alert_pipeline(true)
        &&& self.input_queue@ == "ZTF_alerts_filter_queue"@
        &&& self.output_topic@ == "ZTF_alerts_results"@
    }

    /// A worker that runs these filters.
    pub fn new(filters: Vec<LoadedFilter>) -> (r: Self)
        ensures
            r.well_formed(),
            r.loaded() == filters@,
    {
        let filters_by_permission = by_permission(&filters);
        ZtfFilterWorker {
            alert_pipeline: create_ztf_alert_pipeline(true),
            input_queue: "ZTF_alerts_filter_queue".to_owned(),
            output_topic: "ZTF_alerts_results".to_owned(),
            filters,
            filters_by_permission,
        }
    }

    /// Run these filters from now on.
    pub fn refresh_filters(&mut self, filters: Vec<LoadedFilter>)
        requires
            old(self).well_formed(),
        ensures
            final(self).well_formed(),
            final(self).loaded() == filters@,
    {
        self.filters_by_permission = by_permission(&filters);
        self.filters = filters;
    }

    /// The survey whose alerts are filtered.
    pub fn survey() -> (r: Survey)
        ensures
            r == Survey::Ztf,
    {
        Survey::Ztf
    }

    /// The queue that alerts are taken from.
    pub fn input_queue_name(&self) -> (r: String)
        requires
            self.well_formed(),
        ensures
            r@ == "ZTF_alerts_filter_queue"@,
    {
        self.input_queue.clone()
    }

    /// The topic that alerts are published to.
    pub fn output_topic_name(&self) -> (r: String)
        requires
            self.well_formed(),
        ensures
            r@ == "ZTF_alerts_results"@,
    {
        self.output_topic.clone()
    }

    /// Whether there are filters to run.
    pub fn has_filters(&self) -> (r: bool)
        ensures
            r == (self.loaded().len() > 0),
    {
        !self.filters.is_empty()
    }

    /// The pipeline that fetches the alerts that passed.
    pub fn alert_pipeline(&self) -> (r: &Vec<Document>)
        requires
            self.well_formed(),
        ensures
            bson_doc::documents(r@) == pipeline::alert_pipeline(true),
    {
        &self.alert_pipeline
    }

    /// The filters to run over alerts of a program, in their order.
    ///
    /// `None` where no active filter has permission for the program: there is nothing to
    /// run its alerts through. An unmatched program is a normal condition (e.g. public
    /// alerts arriving while only proprietary filters are configured), not a failure.
    pub fn filters_for(&self, programid: i32) -> (r: Option<Vec<&LoadedFilter>>)
        requires
            self.well_formed(),
        ensures
            match r {
                Some(chosen) => is_served(self.loaded(), programid) && chosen@.map_values(
                    |f: &LoadedFilter| *f,
                ) == selected(self.loaded(), programid),
                None => !is_served(self.loaded(), programid),
            },
    {
        broadcast use group_hash_axioms;

        proof {
            lemma_permitted_programs(self.filters@, self.filters_by_permission@, programid);
        }
        match self.filters_by_permission.get(&programid) {
            Some(ids) => {
                let ghost p = |f: LoadedFilter| is_permitted(self.filters@, f.id@, programid);
                let mut out: Vec<&LoadedFilter> = Vec::new();
                let mut i: usize = 0;
                proof {
                    reveal(Seq::filter);
                    assert(out@.map_values(|f: &LoadedFilter| *f) =~= self.filters@.take(0).filter(
                        p,
                    ));
                }
                while i < self.filters.len()
                    invariant
                        i <= self.filters.len(),
                        p == (|f: LoadedFilter| is_permitted(self.filters@, f.id@, programid)),
                        self.filters_by_permission@.contains_key(programid),
                        ids == self.filters_by_permission@[programid],
                        grouping::are_groups(
                            self.filters_by_permission@,
                            all_permissions(self.filters@),
                        ),
                        out@.map_values(|f: &LoadedFilter| *f) == self.filters@.take(
                            i as int,
                        ).filter(p),
                    decreases self.filters.len() - i,
                {
                    proof {
                        reveal(Seq::filter);
                        assert(self.filters@.take(i + 1).drop_last() =~= self.filters@.take(
                            i as int,
                        ));
                    }
                    let filter = &self.filters[i];
                    proof {
                        lemma_permitted_ids(
                            self.filters@,
                            self.filters_by_permission@,
                            programid,
                            filter.id@,
                        );
                    }
                    if contains_id(ids, &filter.id) {
                        let ghost before = out@;
                        out.push(filter);
                        assert(out@.map_values(|f: &LoadedFilter| *f) =~= before.map_values(
                            |f: &LoadedFilter| *f,
                        ).push(*filter));
                    }
                    i = i + 1;
                }
                assert(self.filters@.take(i as int) =~= self.filters@);
                Some(out)
            },
            None => None,
        }
    }
}

} // verus!
