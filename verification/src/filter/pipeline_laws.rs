//! What holds of the pipelines that run filters: which data they join, and under which name.

use crate::filter::pipeline;
use crate::filter::pipeline::{AuxValues, FieldUses, FilterError, LsstAux};
use crate::utils::bson_doc;
use crate::utils::bson_doc::Content;
use crate::utils::double;
use crate::utils::double::Double;
use crate::utils::double_laws;
use crate::utils::stage_laws;
use crate::utils::stages;
use mongodb::bson::{Bson, Document};
use vstd::prelude::*;

verus! {

/// The names of the light curves that a filter may use.
pub open spec fn is_light_curve(name: Seq<char>) -> bool {
    name == "prv_candidates"@ || name == "prv_nondetections"@ || name == "fp_hists"@
}

/// The names of the lists of which a filter may use the first element.
pub open spec fn is_list(name: Seq<char>) -> bool {
    name == "cross_matches"@ || name == "aliases"@
}

/// The first stage that uses the field of a name.
pub open spec fn used_at(uses: FieldUses, name: Seq<char>) -> Option<usize> {
    if name == "prv_candidates"@ {
        uses.prv_candidates
    } else if name == "prv_nondetections"@ {
        uses.prv_nondetections
    } else if name == "fp_hists"@ {
        uses.fp_hists
    } else if name == "cross_matches"@ {
        uses.cross_matches
    } else if name == "aliases"@ {
        uses.aliases
    } else {
        None
    }
}

/// `value` is what `timeseries` makes of the light curve at this path: the year up to the
/// alert, by the time of the candidate, of the points in programs that may be seen.
pub open spec fn is_year_of<T: Fn(&str, &str, i32, Vec<Document>) -> Bson>(
    value: Content,
    path: Seq<char>,
    permissions: Seq<i32>,
    timeseries: T,
) -> bool {
    exists|p: &str, time: &str, conditions: Vec<Document>, b: Bson|
        {
            &&& #[trigger] timeseries.ensures((p, time, 365i32, conditions), b)
            &&& bson_doc::bson_value(b) == value
            &&& p@ == path
            &&& time@ == "candidate.jd"@
            &&& conditions@.len() == 1
            &&& bson_doc::document_fields(conditions@[0]) == bson_doc::one(
                "$in"@,
                Content::Array(
                    seq![
                        Content::Text("$$x.programid"@),
                        Content::Array(permissions.map_values(|n: i32| Content::Int32(n))),
                    ],
                ),
            )
        }
}

/// `value` is what `first` makes of the list at this path.
pub open spec fn is_first_at<E: Fn(&str) -> Bson>(
    value: Content,
    path: Seq<char>,
    first: E,
) -> bool {
    exists|p: &str, b: Bson|
        #[trigger] first.ensures((p,), b) && bson_doc::bson_value(b) == value && p@ == path
}

proof fn lemma_names()
    ensures
        "aux."@ + "prv_candidates"@ == "aux.prv_candidates"@,
        "aux."@ + "prv_nondetections"@ == "aux.prv_nondetections"@,
        "aux."@ + "fp_hists"@ == "aux.fp_hists"@,
        "aux."@ + "cross_matches"@ == "aux.cross_matches"@,
        "aux."@ + "aliases"@ == "aux.aliases"@,
        "prv_candidates"@.len() == 14,
        "prv_nondetections"@.len() == 17,
        "fp_hists"@.len() == 8,
        "cross_matches"@.len() == 13,
        "aliases"@.len() == 7,
        "aux"@.len() == 3,
        "aux."@.len() == 4,
{
    reveal_strlit("aux");
    reveal_strlit("aux.");
    reveal_strlit("prv_candidates");
    reveal_strlit("prv_nondetections");
    reveal_strlit("fp_hists");
    reveal_strlit("cross_matches");
    reveal_strlit("aliases");
    reveal_strlit("aux.prv_candidates");
    reveal_strlit("aux.prv_nondetections");
    reveal_strlit("aux.fp_hists");
    reveal_strlit("aux.cross_matches");
    reveal_strlit("aux.aliases");
    assert("aux."@ + "prv_candidates"@ =~= "aux.prv_candidates"@);
    assert("aux."@ + "prv_nondetections"@ =~= "aux.prv_nondetections"@);
    assert("aux."@ + "fp_hists"@ =~= "aux.fp_hists"@);
    assert("aux."@ + "cross_matches"@ =~= "aux.cross_matches"@);
    assert("aux."@ + "aliases"@ =~= "aux.aliases"@);
}

proof fn lemma_optional(
    d: Seq<(Seq<char>, Content)>,
    name: Seq<char>,
    value: Option<Bson>,
    key: Seq<char>,
)
    ensures
        bson_doc::lookup(pipeline::with_optional(d, name, value), key) == if key == name
            && value is Some {
            Some(bson_doc::bson_value(value->0))
        } else {
            bson_doc::lookup(d, key)
        },
{
    if value is Some {
        bson_doc::law_reads_give_back_writes(d, name, bson_doc::bson_value(value->0), key);
    }
}

proof fn lemma_aux_fields(values: AuxValues, key: Seq<char>)
    ensures
        bson_doc::lookup(pipeline::aux_fields(values), key) == if key == "aliases"@
            && values.aliases is Some {
            Some(bson_doc::bson_value(values.aliases->0))
        } else if key == "cross_matches"@ && values.cross_matches is Some {
            Some(bson_doc::bson_value(values.cross_matches->0))
        } else if key == "fp_hists"@ && values.fp_hists is Some {
            Some(bson_doc::bson_value(values.fp_hists->0))
        } else if key == "prv_nondetections"@ && values.prv_nondetections is Some {
            Some(bson_doc::bson_value(values.prv_nondetections->0))
        } else if key == "prv_candidates"@ && values.prv_candidates is Some {
            Some(bson_doc::bson_value(values.prv_candidates->0))
        } else if key == "aux"@ {
            Some(Content::Null)
        } else {
            None::<Content>
        },
{
    let a = bson_doc::one("aux"@, Content::Null);
    stage_laws::law_one_field("aux"@, Content::Null, key);
    lemma_optional(a, "prv_candidates"@, values.prv_candidates, key);
    let b = pipeline::with_optional(a, "prv_candidates"@, values.prv_candidates);
    lemma_optional(b, "prv_nondetections"@, values.prv_nondetections, key);
    let c = pipeline::with_optional(b, "prv_nondetections"@, values.prv_nondetections);
    lemma_optional(c, "fp_hists"@, values.fp_hists, key);
    let d = pipeline::with_optional(c, "fp_hists"@, values.fp_hists);
    lemma_optional(d, "cross_matches"@, values.cross_matches, key);
    let e = pipeline::with_optional(d, "cross_matches"@, values.cross_matches);
    lemma_optional(e, "aliases"@, values.aliases, key);
}

proof fn lemma_series<T: Fn(&str, &str, i32, Vec<Document>) -> Bson>(
    value: Bson,
    path: Seq<char>,
    permissions: Seq<i32>,
    timeseries: T,
)
    requires
        pipeline::is_timeseries(value, path, permissions, timeseries),
    ensures
        is_year_of(bson_doc::bson_value(value), path, permissions, timeseries),
{
    let (p, time, conditions) = choose|p: &str, time: &str, conditions: Vec<Document>|
        p@ == path && time@ == "candidate.jd"@ && bson_doc::documents(conditions@) == seq![
            stages::permitted_fields("$$x.programid"@, permissions),
        ] && #[trigger] timeseries.ensures((p, time, 365i32, conditions), value);
    assert(timeseries.ensures((p, time, 365i32, conditions), value));
    let docs = bson_doc::documents(conditions@);
    assert(docs.len() == 1);
    assert(docs[0] == bson_doc::document_fields(conditions@[0]));
    assert(bson_doc::int_values(permissions) =~= permissions.map_values(
        |n: i32| Content::Int32(n),
    ));
}

/// Each light curve that a filter uses is added under its own name, and is read from the field
/// of that same name in the joined document: the field `name` is the year of `aux.` and the
/// name. A light curve that is not used is not added.
pub proof fn law_light_curves_are_read_by_name<
    T: Fn(&str, &str, i32, Vec<Document>) -> Bson,
    E: Fn(&str) -> Bson,
>(
    values: AuxValues,
    uses: FieldUses,
    permissions: Seq<i32>,
    timeseries: T,
    first: E,
    name: Seq<char>,
)
    requires
        pipeline::are_aux_values(values, uses, permissions, timeseries, first),
        is_light_curve(name),
    ensures
        ({
            let added = bson_doc::lookup(pipeline::aux_fields(values), name);
            &&& added is Some <==> used_at(uses, name) is Some
            &&& added matches Some(value) ==> is_year_of(
                value,
                "aux."@ + name,
                permissions,
                timeseries,
            )
        }),
{
    lemma_names();
    lemma_aux_fields(values, name);
    if uses.prv_candidates is Some {
        lemma_series(
            values.prv_candidates->0,
            "aux.prv_candidates"@,
            permissions,
            timeseries,
        );
    }
    if uses.prv_nondetections is Some {
        lemma_series(
            values.prv_nondetections->0,
            "aux.prv_nondetections"@,
            permissions,
            timeseries,
        );
    }
    if uses.fp_hists is Some {
        lemma_series(values.fp_hists->0, "aux.fp_hists"@, permissions, timeseries);
    }
}

/// The cross-matches and the aliases that a filter uses are added under their own names, and
/// are read from the fields of those same names in the joined document.
pub proof fn law_lists_are_read_by_name<
    T: Fn(&str, &str, i32, Vec<Document>) -> Bson,
    E: Fn(&str) -> Bson,
>(
    values: AuxValues,
    uses: FieldUses,
    permissions: Seq<i32>,
    timeseries: T,
    first: E,
    name: Seq<char>,
)
    requires
        pipeline::are_aux_values(values, uses, permissions, timeseries, first),
        is_list(name),
    ensures
        ({
            let added = bson_doc::lookup(pipeline::aux_fields(values), name);
            &&& added is Some <==> used_at(uses, name) is Some
            &&& added matches Some(value) ==> is_first_at(value, "aux."@ + name, first)
        }),
{
    lemma_names();
    lemma_aux_fields(values, name);
}

/// No two of these fields are read from one place, whatever they are used for.
pub proof fn law_no_two_fields_are_read_from_one_place(a: Seq<char>, b: Seq<char>)
    requires
        a != b,
    ensures
        "aux."@ + a != "aux."@ + b,
        is_light_curve(a) && is_list(b) ==> a != b,
        "prv_candidates"@ != "prv_nondetections"@,
        "prv_candidates"@ != "fp_hists"@,
        "prv_nondetections"@ != "fp_hists"@,
{
    lemma_names();
    let x = "aux."@ + a;
    let y = "aux."@ + b;
    if x == y {
        assert(x.subrange(4, x.len() as int) =~= a);
        assert(y.subrange(4, y.len() as int) =~= b);
    }
}

/// Nothing is added but what is used, and the joined document itself is dropped.
pub proof fn law_nothing_else_is_added<
    T: Fn(&str, &str, i32, Vec<Document>) -> Bson,
    E: Fn(&str) -> Bson,
>(
    values: AuxValues,
    uses: FieldUses,
    permissions: Seq<i32>,
    timeseries: T,
    first: E,
    name: Seq<char>,
)
    requires
        pipeline::are_aux_values(values, uses, permissions, timeseries, first),
    ensures
        bson_doc::lookup(pipeline::aux_fields(values), "aux"@) == Some(Content::Null),
        name != "aux"@ && used_at(uses, name) is None ==> bson_doc::lookup(
            pipeline::aux_fields(values),
            name,
        ) is None,
{
    lemma_names();
    lemma_aux_fields(values, "aux"@);
    lemma_aux_fields(values, name);
}

/// Auxiliary data is joined in front of the first stage that uses any of it: no stage that
/// uses some of it comes before that one, and that one uses some of it.
pub proof fn law_data_is_joined_where_it_is_used_first(uses: FieldUses, name: Seq<char>)
    ensures
        used_at(uses, name) matches Some(at) ==> pipeline::first_aux_use(uses) matches Some(k)
            && k <= at,
        pipeline::first_aux_use(uses) matches Some(k) ==> exists|n: Seq<char>|
            (is_light_curve(n) || is_list(n)) && #[trigger] used_at(uses, n) == Some(k),
{
    lemma_names();
    assert(used_at(uses, "prv_candidates"@) == uses.prv_candidates);
    assert(used_at(uses, "prv_nondetections"@) == uses.prv_nondetections);
    assert(used_at(uses, "fp_hists"@) == uses.fp_hists);
    assert(used_at(uses, "cross_matches"@) == uses.cross_matches);
    assert(used_at(uses, "aliases"@) == uses.aliases);
}

/// Stage `k` of a pipeline follows the join of the auxiliary document, stands in front of stage
/// `j`, and adds a light curve under its own name, read from the field of that name.
pub open spec fn is_joined<T: Fn(&str, &str, i32, Vec<Document>) -> Bson>(
    p: Seq<Seq<(Seq<char>, Content)>>,
    k: int,
    j: int,
    name: Seq<char>,
    permissions: Seq<i32>,
    timeseries: T,
) -> bool {
    &&& 0 < k < j < p.len()
    &&& p[k - 1] == stages::lookup_fields("ZTF_alerts_aux"@, "objectId"@, "_id"@, "aux"@)
    &&& bson_doc::object_field(p[k], "$addFields"@) matches Some(added)
    &&& bson_doc::lookup(added, name) matches Some(value)
    &&& is_year_of(value, "aux."@ + name, permissions, timeseries)
}

/// Where a stage of a filter uses a light curve, the pipeline joins the auxiliary document of
/// the object and adds the light curve, under its own name and read from the field of that
/// name, in front of that stage.
pub proof fn law_used_light_curves_are_there<
    T: Fn(&str, &str, i32, Vec<Document>) -> Bson,
    E: Fn(&str) -> Bson,
>(
    r: Result<Vec<Document>, FilterError>,
    filter_pipeline: Seq<serde_json::Value>,
    permissions: Option<Seq<i32>>,
    uses: FieldUses,
    lsst: LsstAux,
    max_separation: Double,
    timeseries: T,
    first: E,
    name: Seq<char>,
    at: usize,
)
    requires
        pipeline::is_pipeline(
            r,
            filter_pipeline,
            permissions,
            uses,
            lsst,
            max_separation,
            timeseries,
            first,
        ),
        r is Ok,
        is_light_curve(name),
        used_at(uses, name) == Some(at),
        at < filter_pipeline.len(),
    ensures
        permissions is Some,
        exists|k: int, j: int| #[trigger]
            is_joined(
                bson_doc::documents(r->Ok_0@),
                k,
                j,
                name,
                permissions->0,
                timeseries,
            ) && Some(bson_doc::documents(r->Ok_0@)[j]) == pipeline::json_document(
                filter_pipeline[at as int],
            ),
{
    lemma_names();
    let all = pipeline::with_aliases(uses, lsst.use_aliases_index);
    let perms = permissions->0;
    let user = pipeline::stage_documents(filter_pipeline)->0;
    let p = bson_doc::documents(r->Ok_0@);
    let values = choose|values: AuxValues| #[trigger]
        pipeline::are_aux_values(values, all, perms, timeseries, first) && p
            == pipeline::full_pipeline(
            user,
            pipeline::plan_of(
                all,
                perms,
                max_separation,
                values,
                bson_doc::documents(lsst.stages@),
            ),
        );
    let plan = pipeline::plan_of(
        all,
        perms,
        max_separation,
        values,
        bson_doc::documents(lsst.stages@),
    );
    assert(used_at(all, name) == Some(at));
    law_light_curves_are_read_by_name(values, all, perms, timeseries, first, name);
    law_data_is_joined_where_it_is_used_first(all, name);
    let k0 = pipeline::first_aux_use(all)->0 as int;
    let n = user.len() as int;
    assert(user.len() == filter_pipeline.len());
    pipeline::lemma_woven(user, plan, n, k0);
    pipeline::lemma_woven(user, plan, n, at as int);
    let w = pipeline::woven(user, plan, n);
    let front = pipeline::in_front(plan, k0);
    let from = k0 + pipeline::woven_in(plan, k0);
    let part = w.subrange(from, k0 + pipeline::woven_in(plan, k0 + 1));
    assert(part == front);
    let skipped: int = if plan.history_at matches Some(h) && h == k0 {
        2
    } else {
        0
    };
    assert(plan.history.len() == 2);
    assert(front[skipped] == plan.aux[0]);
    assert(front[skipped + 1] == plan.aux[1]);
    assert(part[skipped] == w[from + skipped]);
    assert(part[skipped + 1] == w[from + skipped + 1]);
    stage_laws::law_fields_are_added_as_given(pipeline::aux_fields(values));
    let k = 2 + from + skipped + 1;
    let j = 2 + at + pipeline::woven_in(plan, at + 1);
    assert(p[k - 1] == plan.aux[0]);
    assert(p[k] == plan.aux[1]);
    assert(p[j] == user[at as int]);
    assert(is_joined(p, k, j, name, perms, timeseries));
}

/// Where a filter uses a field is asked under the name of that field.
pub proof fn law_uses_are_asked_by_name<U: Fn(&Vec<serde_json::Value>, &str) -> Option<usize>>(
    uses: FieldUses,
    filter_pipeline: Vec<serde_json::Value>,
    uses_field: U,
    name: Seq<char>,
)
    requires
        pipeline::are_uses(uses, filter_pipeline, uses_field),
    ensures
        is_light_curve(name) || is_list(name) ==> exists|asked: &str|
            asked@ == name && #[trigger] uses_field.ensures(
                (&filter_pipeline, asked),
                used_at(uses, name),
            ),
        exists|asked: &str|
            asked@ == "sso_history"@ && #[trigger] uses_field.ensures(
                (&filter_pipeline, asked),
                uses.sso_history,
            ),
{
    lemma_names();
}

/// A filter becomes a pipeline exactly where it may see a program of the survey, its data has
/// a place, and every stage of it is a document; it is refused with what is missing, the
/// permissions first and the stages last.
pub proof fn law_what_is_refused<
    T: Fn(&str, &str, i32, Vec<Document>) -> Bson,
    E: Fn(&str) -> Bson,
>(
    r: Result<Vec<Document>, FilterError>,
    filter_pipeline: Seq<serde_json::Value>,
    permissions: Option<Seq<i32>>,
    uses: FieldUses,
    lsst: LsstAux,
    max_separation: Double,
    timeseries: T,
    first: E,
    i: int,
)
    requires
        pipeline::is_pipeline(
            r,
            filter_pipeline,
            permissions,
            uses,
            lsst,
            max_separation,
            timeseries,
            first,
        ),
        0 <= i < filter_pipeline.len(),
    ensures
        permissions is None ==> (r matches Err(FilterError::InvalidFilterPipeline(why)) && why@
            == "No ZTF permissions found for the filter"@),
        pipeline::json_document(filter_pipeline[i]) is None ==> r is Err,
        r matches Err(e) ==> permissions is None || e is Serialization || pipeline::first_aux_use(
            pipeline::with_aliases(uses, lsst.use_aliases_index),
        ) == Some(usize::MAX),
        r matches Err(FilterError::Serialization) ==> exists|k: int|
            0 <= k < filter_pipeline.len() && pipeline::json_document(
                #[trigger] filter_pipeline[k],
            ) is None,
{
}

/// The history of an object is collected over a year, of the alerts that are stored, and put
/// where filters look for it.
pub proof fn law_history_is_a_year_of_alerts(
    permissions: Seq<i32>,
    max_separation: Double,
    key: Seq<char>,
)
    ensures
        pipeline::history_part(permissions, max_separation).len() == 2,
        pipeline::history_part(permissions, max_separation)[0]
            == pipeline::designation_guard_fields(),
        bson_doc::object_field(
            pipeline::history_part(permissions, max_separation)[1],
            "$lookup"@,
        ) matches Some(join) && bson_doc::lookup(join, key) == if key == "as"@ {
            Some(Content::Text("sso_history"@))
        } else if key == "pipeline"@ {
            Some(
                Content::Array(
                    pipeline::history_stages_values(
                        permissions,
                        double::of_integer(365),
                        max_separation,
                    ),
                ),
            )
        } else if key == "let"@ {
            Some(Content::Object(pipeline::history_variables_fields()))
        } else if key == "from"@ {
            Some(Content::Text("ZTF_alerts"@))
        } else {
            None::<Content>
        },
{
    double_laws::lemma_named_numbers();
    let year = double::of_integer(365);
    let a = bson_doc::no_fields();
    bson_doc::law_reads_give_back_writes(a, "from"@, Content::Text("ZTF_alerts"@), key);
    let b = bson_doc::with_field(a, "from"@, Content::Text("ZTF_alerts"@));
    let variables = Content::Object(pipeline::history_variables_fields());
    bson_doc::law_reads_give_back_writes(b, "let"@, variables, key);
    let c = bson_doc::with_field(b, "let"@, variables);
    let stages_value = Content::Array(
        pipeline::history_stages_values(permissions, year, max_separation),
    );
    bson_doc::law_reads_give_back_writes(c, "pipeline"@, stages_value, key);
    let d = bson_doc::with_field(c, "pipeline"@, stages_value);
    bson_doc::law_reads_give_back_writes(d, "as"@, Content::Text("sso_history"@), key);
    let e = bson_doc::with_field(d, "as"@, Content::Text("sso_history"@));
    assert(e == pipeline::history_join_fields(permissions, year, max_separation));
    stage_laws::law_one_field("$lookup"@, Content::Object(e), "$lookup"@);
}

/// The history is that of the designation of the alert, as of the time of the alert.
pub proof fn law_history_is_that_of_the_alert(key: Seq<char>)
    ensures
        bson_doc::lookup(pipeline::history_variables_fields(), key) == if key == "jd"@ {
            Some(Content::Text("$candidate.jd"@))
        } else if key == "desig"@ {
            Some(Content::Text("$properties.sso.designation"@))
        } else {
            None::<Content>
        },
{
    let a = bson_doc::no_fields();
    let of = Content::Text("$properties.sso.designation"@);
    bson_doc::law_reads_give_back_writes(a, "desig"@, of, key);
    let b = bson_doc::with_field(a, "desig"@, of);
    bson_doc::law_reads_give_back_writes(b, "jd"@, Content::Text("$candidate.jd"@), key);
}

/// The comparison of two values.
pub open spec fn comparison(operator: Seq<char>, left: Content, right: Content) -> Content {
    bson_doc::wrapped(operator, Content::Array(seq![left, right]))
}

/// An alert belongs to the history of an object exactly where it has the designation, is no
/// older than the window and no newer than the alert, is of a program that may be seen, and
/// has a separation from zero up to, but not including, the greatest.
pub proof fn law_what_belongs_to_a_history(
    permissions: Seq<i32>,
    window_days: Double,
    max_separation: Double,
    c: Content,
)
    ensures
        pipeline::history_conditions_values(permissions, window_days, max_separation).contains(c)
            <==> {
            ||| c == comparison(
                "$eq"@,
                Content::Text("$candidate.ssnamenr"@),
                Content::Text("$$desig"@),
            )
            ||| c == comparison("$lte"@, Content::Text("$candidate.jd"@), Content::Text("$$jd"@))
            ||| c == comparison(
                "$gte"@,
                Content::Text("$candidate.jd"@),
                comparison(
                    "$subtract"@,
                    Content::Text("$$jd"@),
                    Content::Double(window_days.bits),
                ),
            )
            ||| c == comparison(
                "$in"@,
                Content::Text("$candidate.programid"@),
                Content::Array(permissions.map_values(|n: i32| Content::Int32(n))),
            )
            ||| c == comparison(
                "$gte"@,
                Content::Text("$candidate.ssdistnr"@),
                Content::Double(double::of_integer(0).bits),
            )
            ||| c == comparison(
                "$lt"@,
                Content::Text("$candidate.ssdistnr"@),
                Content::Double(max_separation.bits),
            )
        },
{
    double_laws::lemma_named_numbers();
    assert(bson_doc::int_values(permissions) =~= permissions.map_values(
        |n: i32| Content::Int32(n),
    ));
    let all = pipeline::history_conditions_values(permissions, window_days, max_separation);
    assert(all.len() == 6);
    assert(all.contains(all[0]) && all.contains(all[1]) && all.contains(all[2]));
    assert(all.contains(all[3]) && all.contains(all[4]) && all.contains(all[5]));
}

/// The history is selected first, then cut down to what is kept, then sorted by its time,
/// oldest first.
pub proof fn law_history_is_selected_kept_and_sorted(
    permissions: Seq<i32>,
    window_days: Double,
    max_separation: Double,
)
    ensures
        ({
            let s = pipeline::history_stages_values(permissions, window_days, max_separation);
            &&& s.len() == 3
            &&& s[0] == bson_doc::wrapped(
                "$match"@,
                bson_doc::wrapped(
                    "$expr"@,
                    bson_doc::wrapped(
                        "$and"@,
                        Content::Array(
                            pipeline::history_conditions_values(
                                permissions,
                                window_days,
                                max_separation,
                            ),
                        ),
                    ),
                ),
            )
            &&& s[1] == bson_doc::wrapped(
                "$project"@,
                Content::Object(pipeline::history_projection_fields()),
            )
            &&& s[2] == bson_doc::wrapped("$sort"@, bson_doc::wrapped("jd"@, Content::Int32(1)))
        }),
{
}

/// The names of the fields that an entry of a history has from its candidate.
pub open spec fn is_of_the_candidate(name: Seq<char>) -> bool {
    name == "jd"@ || name == "fid"@ || name == "magpsf"@ || name == "sigmapsf"@ || name == "ra"@
        || name == "dec"@
}

/// The names of the fields that an entry of a history has from its association.
pub open spec fn is_of_the_association(name: Seq<char>) -> bool {
    name == "predicted_mag"@ || name == "separation_arcsec"@ || name == "helio_dist"@ || name
        == "topo_dist"@ || name == "phase_angle"@
}

proof fn lemma_paths()
    ensures
        "$candidate."@ + "jd"@ == "$candidate.jd"@,
        "$candidate."@ + "fid"@ == "$candidate.fid"@,
        "$candidate."@ + "magpsf"@ == "$candidate.magpsf"@,
        "$candidate."@ + "sigmapsf"@ == "$candidate.sigmapsf"@,
        "$candidate."@ + "ra"@ == "$candidate.ra"@,
        "$candidate."@ + "dec"@ == "$candidate.dec"@,
{
    reveal_strlit("$candidate.");
    reveal_strlit("jd");
    reveal_strlit("fid");
    reveal_strlit("magpsf");
    reveal_strlit("sigmapsf");
    reveal_strlit("ra");
    reveal_strlit("dec");
    reveal_strlit("$candidate.jd");
    reveal_strlit("$candidate.fid");
    reveal_strlit("$candidate.magpsf");
    reveal_strlit("$candidate.sigmapsf");
    reveal_strlit("$candidate.ra");
    reveal_strlit("$candidate.dec");
    assert("$candidate."@ + "jd"@ =~= "$candidate.jd"@);
    assert("$candidate."@ + "fid"@ =~= "$candidate.fid"@);
    assert("$candidate."@ + "magpsf"@ =~= "$candidate.magpsf"@);
    assert("$candidate."@ + "sigmapsf"@ =~= "$candidate.sigmapsf"@);
    assert("$candidate."@ + "ra"@ =~= "$candidate.ra"@);
    assert("$candidate."@ + "dec"@ =~= "$candidate.dec"@);
}

proof fn lemma_association_paths()
    ensures
        "$properties.sso."@ + "predicted_mag"@ == "$properties.sso.predicted_mag"@,
        "$properties.sso."@ + "separation_arcsec"@ == "$properties.sso.separation_arcsec"@,
        "$properties.sso."@ + "helio_dist"@ == "$properties.sso.helio_dist"@,
        "$properties.sso."@ + "topo_dist"@ == "$properties.sso.topo_dist"@,
        "$properties.sso."@ + "phase_angle"@ == "$properties.sso.phase_angle"@,
{
    reveal_strlit("$properties.sso.");
    reveal_strlit("predicted_mag");
    reveal_strlit("separation_arcsec");
    reveal_strlit("helio_dist");
    reveal_strlit("topo_dist");
    reveal_strlit("phase_angle");
    reveal_strlit("$properties.sso.predicted_mag");
    reveal_strlit("$properties.sso.separation_arcsec");
    reveal_strlit("$properties.sso.helio_dist");
    reveal_strlit("$properties.sso.topo_dist");
    reveal_strlit("$properties.sso.phase_angle");
    assert("$properties.sso."@ + "predicted_mag"@ =~= "$properties.sso.predicted_mag"@);
    assert("$properties.sso."@ + "separation_arcsec"@ =~= "$properties.sso.separation_arcsec"@);
    assert("$properties.sso."@ + "helio_dist"@ =~= "$properties.sso.helio_dist"@);
    assert("$properties.sso."@ + "topo_dist"@ =~= "$properties.sso.topo_dist"@);
    assert("$properties.sso."@ + "phase_angle"@ =~= "$properties.sso.phase_angle"@);
}

proof fn lemma_history_projection(key: Seq<char>)
    ensures
        bson_doc::lookup(pipeline::history_projection_fields(), key) == if key == "phase_angle"@ {
            Some(Content::Text("$properties.sso.phase_angle"@))
        } else if key == "topo_dist"@ {
            Some(Content::Text("$properties.sso.topo_dist"@))
        } else if key == "helio_dist"@ {
            Some(Content::Text("$properties.sso.helio_dist"@))
        } else if key == "separation_arcsec"@ {
            Some(Content::Text("$properties.sso.separation_arcsec"@))
        } else if key == "predicted_mag"@ {
            Some(Content::Text("$properties.sso.predicted_mag"@))
        } else if key == "dec"@ {
            Some(Content::Text("$candidate.dec"@))
        } else if key == "ra"@ {
            Some(Content::Text("$candidate.ra"@))
        } else if key == "sigmapsf"@ {
            Some(Content::Text("$candidate.sigmapsf"@))
        } else if key == "magpsf"@ {
            Some(Content::Text("$candidate.magpsf"@))
        } else if key == "fid"@ {
            Some(Content::Text("$candidate.fid"@))
        } else if key == "jd"@ {
            Some(Content::Text("$candidate.jd"@))
        } else if key == "designation"@ {
            Some(Content::Text("$candidate.ssnamenr"@))
        } else if key == "_id"@ {
            Some(Content::Int32(0))
        } else {
            None::<Content>
        },
{
    let d = bson_doc::no_fields();
    bson_doc::law_reads_give_back_writes(d, "_id"@, Content::Int32(0), key);
    let d = bson_doc::with_field(d, "_id"@, Content::Int32(0));
    let v = Content::Text("$candidate.ssnamenr"@);
    bson_doc::law_reads_give_back_writes(d, "designation"@, v, key);
    let d = bson_doc::with_field(d, "designation"@, v);
    let v = Content::Text("$candidate.jd"@);
    bson_doc::law_reads_give_back_writes(d, "jd"@, v, key);
    let d = bson_doc::with_field(d, "jd"@, v);
    let v = Content::Text("$candidate.fid"@);
    bson_doc::law_reads_give_back_writes(d, "fid"@, v, key);
    let d = bson_doc::with_field(d, "fid"@, v);
    let v = Content::Text("$candidate.magpsf"@);
    bson_doc::law_reads_give_back_writes(d, "magpsf"@, v, key);
    let d = bson_doc::with_field(d, "magpsf"@, v);
    let v = Content::Text("$candidate.sigmapsf"@);
    bson_doc::law_reads_give_back_writes(d, "sigmapsf"@, v, key);
    let d = bson_doc::with_field(d, "sigmapsf"@, v);
    let v = Content::Text("$candidate.ra"@);
    bson_doc::law_reads_give_back_writes(d, "ra"@, v, key);
    let d = bson_doc::with_field(d, "ra"@, v);
    let v = Content::Text("$candidate.dec"@);
    bson_doc::law_reads_give_back_writes(d, "dec"@, v, key);
    let d = bson_doc::with_field(d, "dec"@, v);
    let v = Content::Text("$properties.sso.predicted_mag"@);
    bson_doc::law_reads_give_back_writes(d, "predicted_mag"@, v, key);
    let d = bson_doc::with_field(d, "predicted_mag"@, v);
    let v = Content::Text("$properties.sso.separation_arcsec"@);
    bson_doc::law_reads_give_back_writes(d, "separation_arcsec"@, v, key);
    let d = bson_doc::with_field(d, "separation_arcsec"@, v);
    let v = Content::Text("$properties.sso.helio_dist"@);
    bson_doc::law_reads_give_back_writes(d, "helio_dist"@, v, key);
    let d = bson_doc::with_field(d, "helio_dist"@, v);
    let v = Content::Text("$properties.sso.topo_dist"@);
    bson_doc::law_reads_give_back_writes(d, "topo_dist"@, v, key);
    let d = bson_doc::with_field(d, "topo_dist"@, v);
    let v = Content::Text("$properties.sso.phase_angle"@);
    bson_doc::law_reads_give_back_writes(d, "phase_angle"@, v, key);
}

/// An entry of a history carries what it has from its own candidate and its own association
/// under the names that they have there, and the name of the object.
pub proof fn law_history_entries_are_kept_by_name(key: Seq<char>)
    ensures
        is_of_the_candidate(key) && !is_of_the_association(key) ==> bson_doc::lookup(
            pipeline::history_projection_fields(),
            key,
        ) == Some(Content::Text("$candidate."@ + key)),
        is_of_the_association(key) ==> bson_doc::lookup(pipeline::history_projection_fields(), key)
            == Some(Content::Text("$properties.sso."@ + key)),
        !is_of_the_candidate(key) && !is_of_the_association(key) ==> bson_doc::lookup(
            pipeline::history_projection_fields(),
            key,
        ) == if key == "designation"@ {
            Some(Content::Text("$candidate.ssnamenr"@))
        } else if key == "_id"@ {
            Some(Content::Int32(0))
        } else {
            None::<Content>
        },
{
    lemma_paths();
    lemma_association_paths();
    lemma_history_projection(key);
}

/// Alerts are dropped unless they have a designation that is there and not null.
pub proof fn law_alerts_without_a_designation_are_dropped(key: Seq<char>)
    ensures
        bson_doc::object_field(pipeline::designation_guard_fields(), "$match"@) matches Some(m)
            && bson_doc::object_field(m, "properties.sso.designation"@) matches Some(c)
            && bson_doc::lookup(c, key) == if key == "$ne"@ {
            Some(Content::Null)
        } else if key == "$exists"@ {
            Some(Content::Bool(true))
        } else {
            None::<Content>
        },
{
    let a = bson_doc::no_fields();
    bson_doc::law_reads_give_back_writes(a, "$exists"@, Content::Bool(true), key);
    let b = bson_doc::with_field(a, "$exists"@, Content::Bool(true));
    bson_doc::law_reads_give_back_writes(b, "$ne"@, Content::Null, key);
    let c = Content::Object(pipeline::present_fields());
    stage_laws::law_one_field("properties.sso.designation"@, c, "properties.sso.designation"@);
    let m = bson_doc::wrapped("properties.sso.designation"@, c);
    stage_laws::law_one_field("$match"@, m, "$match"@);
}

/// Every filter starts from alerts that are selected by their identifiers, and sees their
/// object, candidate, classifications, properties and coordinates, and nothing else.
pub proof fn law_what_filters_see(key: Seq<char>)
    ensures
        pipeline::prefix().len() == 2,
        pipeline::prefix()[0] == stages::match_ids_fields(),
        bson_doc::object_field(pipeline::prefix()[1], "$project"@) matches Some(seen)
            && bson_doc::lookup(seen, key) == if key == "objectId"@ || key == "candidate"@ || key
            == "classifications"@ || key == "properties"@ || key == "coordinates"@ {
            Some(Content::Int32(1))
        } else {
            None::<Content>
        },
{
    let one = Content::Int32(1);
    let d = bson_doc::no_fields();
    bson_doc::law_reads_give_back_writes(d, "objectId"@, one, key);
    let d = bson_doc::with_field(d, "objectId"@, one);
    bson_doc::law_reads_give_back_writes(d, "candidate"@, one, key);
    let d = bson_doc::with_field(d, "candidate"@, one);
    bson_doc::law_reads_give_back_writes(d, "classifications"@, one, key);
    let d = bson_doc::with_field(d, "classifications"@, one);
    bson_doc::law_reads_give_back_writes(d, "properties"@, one, key);
    let d = bson_doc::with_field(d, "properties"@, one);
    bson_doc::law_reads_give_back_writes(d, "coordinates"@, one, key);
    let seen = Content::Object(pipeline::visible_fields());
    stage_laws::law_one_field("$project"@, seen, "$project"@);
}

/// To a filter of another survey each light curve that it uses is added under its own name
/// behind `ZTF.`, and is read from the field of that name in the joined document. The first
/// of them to be used decides whether the document is joined, the aliases are brought forward
/// to both of them, and a filter without permissions sees the public program alone.
pub proof fn law_ztf_data_is_read_by_name<
    T: Fn(&str, &str, i32, Vec<Document>) -> Bson,
    U: Fn(Option<usize>, Vec<Option<usize>>) -> Option<usize>,
>(
    r: (Option<usize>, bool, Document),
    use_aliases_index: Option<usize>,
    prv_candidates: Option<usize>,
    fp_hists: Option<usize>,
    permissions: Option<Seq<i32>>,
    timeseries: T,
    update_aliases: U,
)
    requires
        pipeline::is_aux_data(
            r,
            use_aliases_index,
            prv_candidates,
            fp_hists,
            permissions,
            timeseries,
            update_aliases,
        ),
    ensures
        ({
            let perms = if permissions is Some {
                permissions->0
            } else {
                seq![1i32]
            };
            let candidates = bson_doc::lookup(
                bson_doc::document_fields(r.2),
                "ZTF."@ + "prv_candidates"@,
            );
            let forced = bson_doc::lookup(
                bson_doc::document_fields(r.2),
                "ZTF."@ + "fp_hists"@,
            );
            &&& candidates is Some <==> prv_candidates is Some
            &&& candidates matches Some(v) ==> is_year_of(
                v,
                "ztf_aux."@ + "prv_candidates"@,
                perms,
                timeseries,
            )
            &&& forced is Some <==> fp_hists is Some
            &&& forced matches Some(v) ==> is_year_of(
                v,
                "ztf_aux."@ + "fp_hists"@,
                perms,
                timeseries,
            )
        }),
        bson_doc::lookup(bson_doc::document_fields(r.2), "ztf_aux"@) == Some(Content::Null),
        prv_candidates is None && fp_hists is None ==> !r.1,
        prv_candidates is Some && prv_candidates->0 < usize::MAX ==> r.1,
        fp_hists is Some && fp_hists->0 < usize::MAX ==> r.1,
        exists|users: Vec<Option<usize>>|
            users@ == seq![prv_candidates, fp_hists] && #[trigger] update_aliases.ensures(
                (use_aliases_index, users),
                r.0,
            ),
{
    reveal_strlit("ZTF.");
    reveal_strlit("ztf_aux");
    reveal_strlit("ztf_aux.");
    reveal_strlit("prv_candidates");
    reveal_strlit("fp_hists");
    reveal_strlit("ZTF.prv_candidates");
    reveal_strlit("ZTF.fp_hists");
    reveal_strlit("ztf_aux.prv_candidates");
    reveal_strlit("ztf_aux.fp_hists");
    assert("ZTF."@ + "prv_candidates"@ =~= "ZTF.prv_candidates"@);
    assert("ZTF."@ + "fp_hists"@ =~= "ZTF.fp_hists"@);
    assert("ztf_aux."@ + "prv_candidates"@ =~= "ztf_aux.prv_candidates"@);
    assert("ztf_aux."@ + "fp_hists"@ =~= "ztf_aux.fp_hists"@);
    let perms = pipeline::effective_permissions(permissions);
    let (candidates, forced) = choose|candidates: Option<Bson>, forced: Option<Bson>|
        pipeline::is_series_of(
            candidates,
            prv_candidates,
            "ztf_aux.prv_candidates"@,
            perms,
            timeseries,
        ) && pipeline::is_series_of(forced, fp_hists, "ztf_aux.fp_hists"@, perms, timeseries)
            && bson_doc::document_fields(r.2) == #[trigger] pipeline::ztf_aux_fields(
            candidates,
            forced,
        );
    if prv_candidates is Some {
        lemma_series(candidates->0, "ztf_aux.prv_candidates"@, perms, timeseries);
    }
    if fp_hists is Some {
        lemma_series(forced->0, "ztf_aux.fp_hists"@, perms, timeseries);
    }
    let a = bson_doc::one("ztf_aux"@, Content::Null);
    let b = pipeline::with_optional(a, "ZTF.prv_candidates"@, candidates);
    stage_laws::law_one_field("ztf_aux"@, Content::Null, "ZTF.prv_candidates"@);
    stage_laws::law_one_field("ztf_aux"@, Content::Null, "ZTF.fp_hists"@);
    stage_laws::law_one_field("ztf_aux"@, Content::Null, "ztf_aux"@);
    lemma_optional(a, "ZTF.prv_candidates"@, candidates, "ZTF.prv_candidates"@);
    lemma_optional(a, "ZTF.prv_candidates"@, candidates, "ZTF.fp_hists"@);
    lemma_optional(a, "ZTF.prv_candidates"@, candidates, "ztf_aux"@);
    lemma_optional(b, "ZTF.fp_hists"@, forced, "ZTF.prv_candidates"@);
    lemma_optional(b, "ZTF.fp_hists"@, forced, "ZTF.fp_hists"@);
    lemma_optional(b, "ZTF.fp_hists"@, forced, "ztf_aux"@);
}

} // verus!
