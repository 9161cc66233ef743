//! What holds of the filter worker: which filters run, and what they report.

use crate::filter::alerts::FilterResults;
use crate::filter::worker;
use crate::filter::worker::LoadedFilter;
use crate::utils::bson_doc;
use crate::utils::bson_doc::Content;
use crate::utils::double::Double;
use vstd::prelude::*;

verus! {

/// A filter may see the ZTF programs that it has permission for, and none where it has no
/// entry for ZTF.
pub proof fn law_filters_see_their_ztf_programs(f: LoadedFilter)
    ensures
        f.permissions.ztf matches Some(list) ==> worker::allowed(f) == list@,
        f.permissions.ztf is None ==> worker::allowed(f).len() == 0,
{
}

/// A filter is listed under a program exactly where it may see it.
pub proof fn law_filters_are_listed_under_their_programs(
    filters: Seq<LoadedFilter>,
    program: i32,
    id: String,
)
    ensures
        worker::all_permissions(filters).contains((program, id)) <==> exists|k: int|
            0 <= k < filters.len() && (#[trigger] filters[k]).id == id && worker::allowed(
                filters[k],
            ).contains(program),
    decreases filters.len(),
{
    if filters.len() > 0 {
        let front = filters.drop_last();
        let last = filters.last();
        law_filters_are_listed_under_their_programs(front, program, id);
        let all = worker::all_permissions(filters);
        let before = worker::all_permissions(front);
        let own = worker::filter_permissions(last);
        let pair = (program, id);
        assert(filters[filters.len() - 1] == last);
        if before.contains(pair) {
            let i = choose|i: int| 0 <= i < before.len() && before[i] == pair;
            assert(all[i] == pair);
            let k = choose|k: int|
                0 <= k < front.len() && (#[trigger] front[k]).id == id && worker::allowed(
                    front[k],
                ).contains(program);
            assert(filters[k] == front[k]);
        }
        if last.id == id && worker::allowed(last).contains(program) {
            let j = choose|j: int|
                0 <= j < worker::allowed(last).len() && worker::allowed(last)[j] == program;
            assert(own[j] == pair);
            assert(all[before.len() + j] == pair);
        }
        if all.contains(pair) && !before.contains(pair) {
            let i = choose|i: int| 0 <= i < all.len() && all[i] == pair;
            if i < before.len() {
                assert(before[i] == pair);
            }
            let j = i - before.len();
            assert(own[j] == pair);
            assert(worker::allowed(last)[j] == program);
        }
        if exists|k: int|
            0 <= k < filters.len() && (#[trigger] filters[k]).id == id && worker::allowed(
                filters[k],
            ).contains(program) {
            let k = choose|k: int|
                0 <= k < filters.len() && (#[trigger] filters[k]).id == id && worker::allowed(
                    filters[k],
                ).contains(program);
            if k < front.len() {
                assert(front[k] == filters[k]);
            }
        }
    }
}

/// Alerts that could be told apart are kept, in their order, and nothing else.
pub proof fn law_alerts_that_are_told_apart_are_kept(parsed: Seq<Option<(i32, i64)>>)
    ensures
        worker::told_apart(parsed) == parsed.filter(
            |p: Option<(i32, i64)>| p is Some,
        ).map_values(|p: Option<(i32, i64)>| p->0),
    decreases parsed.len(),
{
    reveal(Seq::filter);
    let keep = |p: Option<(i32, i64)>| p is Some;
    let open = |p: Option<(i32, i64)>| p->0;
    if parsed.len() > 0 {
        law_alerts_that_are_told_apart_are_kept(parsed.drop_last());
        let kept = parsed.drop_last().filter(keep);
        if parsed.last() is Some {
            assert(kept.push(parsed.last()).map_values(open) =~= kept.map_values(open).push(
                parsed.last()->0,
            ));
        }
    } else {
        assert(parsed.filter(keep).map_values(open) =~= Seq::<(i32, i64)>::empty());
    }
}

/// The alert that a filter reports on is told by the identifier of the document, and what it
/// says by its annotations, which may be missing.
pub proof fn law_reports_are_read_by_name(fields: Seq<(Seq<char>, Content)>, n: i64)
    ensures
        worker::candid(fields) == Some(n) <==> bson_doc::lookup(fields, "_id"@) == Some(
            Content::Int64(n),
        ),
        bson_doc::lookup(fields, "annotations"@) matches Some(Content::Object(a))
            ==> worker::annotations(fields) == a,
        !(bson_doc::lookup(fields, "annotations"@) matches Some(Content::Object(_)))
            ==> worker::annotations(fields).len() == 0,
{
}

/// A report carries the filter's own identifier and name, the time, and its annotations, each in
/// its place.
pub proof fn law_reports_are_of_their_filter(
    r: FilterResults,
    filter: LoadedFilter,
    passed_at: Double,
    json: Seq<char>,
)
    requires
        worker::is_result(r, filter, passed_at, json),
    ensures
        r.filter_id@ == filter.id@,
        r.filter_name@ == filter.name@,
        r.passed_at == passed_at,
        r.annotations@ == json,
{
}

} // verus!
