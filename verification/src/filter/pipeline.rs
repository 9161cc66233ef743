//! The pipelines that run filters over alerts.

use crate::utils::bson_doc;
use crate::utils::bson_doc::{
    array, boolean, clone_document, double_value, int32, int_list, new_document, null, object,
    pair, single, text_value, with, wrap, Content,
};
use crate::utils::double::Double;
use crate::utils::stages;
use crate::utils::stages::{add_fields, lookup, match_ids, permitted};
use crate::utils::survey;
use crate::utils::survey::{Permissions, Survey};
use mongodb::bson::{Bson, Document};
use vstd::prelude::*;

verus! {

/// Why a filter cannot be run.
#[derive(Debug)]
pub enum FilterError {
    InvalidFilterPipeline(String),
    /// A stage that is not a document.
    Serialization,
}

/// A JSON value.
#[verifier::external_type_specification]
#[verifier::external_body]
pub struct ExJson(serde_json::Value);

/// Why a value cannot be written as BSON.
#[verifier::external_type_specification]
#[verifier::external_body]
pub struct ExSerError(mongodb::bson::ser::Error);

/// The document that a JSON value is written as in BSON, where it is one.
pub uninterp spec fn json_document(v: serde_json::Value) -> Option<Seq<(Seq<char>, Content)>>;

/// `mongodb::bson::to_document` writes a JSON value as a BSON document. Which document that
/// is, and which values are refused, is a function of the value. It is not stated which
/// document it is.
#[verifier::external_body]
pub(crate) fn to_bson_document(v: &serde_json::Value) -> (r: Result<
    Document,
    mongodb::bson::ser::Error,
>)
    ensures
        match r {
            Ok(d) => json_document(*v) == Some(bson_doc::document_fields(d)),
            Err(_) => json_document(*v) is None,
        },
{
    mongodb::bson::to_document(v)
}

/// Which alerts belong to the history of an object: those with its designation, within the
/// window up to the alert, that the filter may see, and that lie close to the predicted
/// position.
pub open spec fn history_conditions_values(
    permissions: Seq<i32>,
    window_days: Double,
    max_separation: Double,
) -> Seq<Content> {
    seq![
        bson_doc::wrapped(
            "$eq"@,
            Content::Array(seq![Content::Text("$candidate.ssnamenr"@), Content::Text("$$desig"@)]),
        ),
        bson_doc::wrapped(
            "$gte"@,
            Content::Array(
                seq![
                    Content::Text("$candidate.jd"@),
                    bson_doc::wrapped(
                        "$subtract"@,
                        Content::Array(
                            seq![Content::Text("$$jd"@), Content::Double(window_days.bits)],
                        ),
                    ),
                ],
            ),
        ),
        bson_doc::wrapped(
            "$lte"@,
            Content::Array(seq![Content::Text("$candidate.jd"@), Content::Text("$$jd"@)]),
        ),
        bson_doc::wrapped(
            "$in"@,
            Content::Array(
                seq![
                    Content::Text("$candidate.programid"@),
                    Content::Array(bson_doc::int_values(permissions)),
                ],
            ),
        ),
        bson_doc::wrapped(
            "$gte"@,
            Content::Array(seq![Content::Text("$candidate.ssdistnr"@), Content::Double(0)]),
        ),
        bson_doc::wrapped(
            "$lt"@,
            Content::Array(
                seq![Content::Text("$candidate.ssdistnr"@), Content::Double(max_separation.bits)],
            ),
        ),
    ]
}

/// Which alerts belong to the history of an object: those with its designation, within the
/// window up to the alert, that the filter may see, and that lie close to the predicted
/// position.
fn history_conditions(
    permissions: &Vec<i32>,
    window_days: Double,
    max_separation: Double,
) -> (r: Bson)
    ensures
        bson_doc::bson_value(r) == Content::Array(
            history_conditions_values(permissions@, window_days, max_separation),
        ),
{
    let mut items: Vec<Bson> = Vec::new();
    items.push(wrap("$eq", pair(text_value("$candidate.ssnamenr"), text_value("$$desig"))));
    items.push(
        wrap(
            "$gte",
            pair(
                text_value("$candidate.jd"),
                wrap("$subtract", pair(text_value("$$jd"), double_value(window_days))),
            ),
        ),
    );
    items.push(wrap("$lte", pair(text_value("$candidate.jd"), text_value("$$jd"))));
    items.push(wrap("$in", pair(text_value("$candidate.programid"), int_list(permissions))));
    items.push(
        wrap("$gte", pair(text_value("$candidate.ssdistnr"), double_value(Double { bits: 0 }))),
    );
    items.push(wrap("$lt", pair(text_value("$candidate.ssdistnr"), double_value(max_separation))));
    assert(bson_doc::values(items@) =~= history_conditions_values(
        permissions@,
        window_days,
        max_separation,
    ));
    array(items)
}

/// What is kept of each of them. The designation is carried per entry so the array is
/// self-describing, and each point carries the geometry at its own epoch, not the alert's.
pub open spec fn history_projection_fields() -> Seq<(Seq<char>, Content)> {
    let d = bson_doc::no_fields();
    let d = bson_doc::with_field(d, "_id"@, Content::Int32(0));
    let d = bson_doc::with_field(d, "designation"@, Content::Text("$candidate.ssnamenr"@));
    let d = bson_doc::with_field(d, "jd"@, Content::Text("$candidate.jd"@));
    let d = bson_doc::with_field(d, "fid"@, Content::Text("$candidate.fid"@));
    let d = bson_doc::with_field(d, "magpsf"@, Content::Text("$candidate.magpsf"@));
    let d = bson_doc::with_field(d, "sigmapsf"@, Content::Text("$candidate.sigmapsf"@));
    let d = bson_doc::with_field(d, "ra"@, Content::Text("$candidate.ra"@));
    let d = bson_doc::with_field(d, "dec"@, Content::Text("$candidate.dec"@));
    let d = bson_doc::with_field(
        d,
        "predicted_mag"@,
        Content::Text("$properties.sso.predicted_mag"@),
    );
    let d = bson_doc::with_field(
        d,
        "separation_arcsec"@,
        Content::Text("$properties.sso.separation_arcsec"@),
    );
    let d = bson_doc::with_field(d, "helio_dist"@, Content::Text("$properties.sso.helio_dist"@));
    let d = bson_doc::with_field(d, "topo_dist"@, Content::Text("$properties.sso.topo_dist"@));
    bson_doc::with_field(d, "phase_angle"@, Content::Text("$properties.sso.phase_angle"@))
}

/// What is kept of each of them. The designation is carried per entry so the array is
/// self-describing, and each point carries the geometry at its own epoch, not the alert's.
fn history_projection() -> (r: Document)
    ensures
        bson_doc::document_fields(r) == history_projection_fields(),
{
    let d = new_document();
    let d = with(d, "_id", int32(0));
    let d = with(d, "designation", text_value("$candidate.ssnamenr"));
    let d = with(d, "jd", text_value("$candidate.jd"));
    let d = with(d, "fid", text_value("$candidate.fid"));
    let d = with(d, "magpsf", text_value("$candidate.magpsf"));
    let d = with(d, "sigmapsf", text_value("$candidate.sigmapsf"));
    let d = with(d, "ra", text_value("$candidate.ra"));
    let d = with(d, "dec", text_value("$candidate.dec"));
    let d = with(d, "predicted_mag", text_value("$properties.sso.predicted_mag"));
    let d = with(d, "separation_arcsec", text_value("$properties.sso.separation_arcsec"));
    let d = with(d, "helio_dist", text_value("$properties.sso.helio_dist"));
    let d = with(d, "topo_dist", text_value("$properties.sso.topo_dist"));
    with(d, "phase_angle", text_value("$properties.sso.phase_angle"))
}

/// The stages that collect the history, in the order of time.
pub open spec fn history_stages_values(
    permissions: Seq<i32>,
    window_days: Double,
    max_separation: Double,
) -> Seq<Content> {
    seq![
        bson_doc::wrapped(
            "$match"@,
            bson_doc::wrapped(
                "$expr"@,
                bson_doc::wrapped(
                    "$and"@,
                    Content::Array(
                        history_conditions_values(permissions, window_days, max_separation),
                    ),
                ),
            ),
        ),
        bson_doc::wrapped("$project"@, Content::Object(history_projection_fields())),
        bson_doc::wrapped("$sort"@, bson_doc::wrapped("jd"@, Content::Int32(1))),
    ]
}

/// The stages that collect the history, in the order of time.
fn history_stages(permissions: &Vec<i32>, window_days: Double, max_separation: Double) -> (r: Bson)
    ensures
        bson_doc::bson_value(r) == Content::Array(
            history_stages_values(permissions@, window_days, max_separation),
        ),
{
    let mut items: Vec<Bson> = Vec::new();
    items.push(
        wrap(
            "$match",
            wrap(
                "$expr",
                wrap("$and", history_conditions(permissions, window_days, max_separation)),
            ),
        ),
    );
    items.push(wrap("$project", object(history_projection())));
    items.push(wrap("$sort", wrap("jd", int32(1))));
    assert(bson_doc::values(items@) =~= history_stages_values(
        permissions@,
        window_days,
        max_separation,
    ));
    array(items)
}

/// What the history is collected for.
pub open spec fn history_variables_fields() -> Seq<(Seq<char>, Content)> {
    let d = bson_doc::no_fields();
    let d = bson_doc::with_field(d, "desig"@, Content::Text("$properties.sso.designation"@));
    bson_doc::with_field(d, "jd"@, Content::Text("$candidate.jd"@))
}

/// What the history is collected for.
fn history_variables() -> (r: Document)
    ensures
        bson_doc::document_fields(r) == history_variables_fields(),
{
    let d = new_document();
    let d = with(d, "desig", text_value("$properties.sso.designation"));
    with(d, "jd", text_value("$candidate.jd"))
}

/// The join that surfaces the history.
pub open spec fn history_join_fields(
    permissions: Seq<i32>,
    window_days: Double,
    max_separation: Double,
) -> Seq<(Seq<char>, Content)> {
    let d = bson_doc::no_fields();
    let d = bson_doc::with_field(d, "from"@, Content::Text("ZTF_alerts"@));
    let d = bson_doc::with_field(d, "let"@, Content::Object(history_variables_fields()));
    let d = bson_doc::with_field(
        d,
        "pipeline"@,
        Content::Array(history_stages_values(permissions, window_days, max_separation)),
    );
    bson_doc::with_field(d, "as"@, Content::Text("sso_history"@))
}

/// The join that surfaces the history.
fn history_join(
    permissions: &Vec<i32>,
    window_days: Double,
    max_separation: Double,
) -> (r: Document)
    ensures
        bson_doc::document_fields(r) == history_join_fields(
            permissions@,
            window_days,
            max_separation,
        ),
{
    let d = new_document();
    let d = with(d, "from", text_value("ZTF_alerts"));
    let d = with(d, "let", object(history_variables()));
    let d = with(d, "pipeline", history_stages(permissions, window_days, max_separation));
    with(d, "as", text_value("sso_history"))
}

/// Lookup surfacing a moving object's own photometry, keyed on MPC designation.
pub open spec fn sso_history_lookup_fields(
    permissions: Seq<i32>,
    window_days: Double,
    max_separation: Double,
) -> Seq<(Seq<char>, Content)> {
    bson_doc::one(
        "$lookup"@,
        Content::Object(history_join_fields(permissions, window_days, max_separation)),
    )
}

/// Lookup surfacing a moving object's own photometry, keyed on MPC designation.
///
/// `objectId` cannot be used: it is positional, so a moving object is given a new
/// one on nearly every detection and its aux document describes the sky position
/// rather than the object.
///
/// The outer key is the normalised `properties.sso.designation`; the inner key is
/// the raw `candidate.ssnamenr` it is derived from. Same value, but the raw field
/// is present on the whole archive while the normalised one only exists on alerts
/// enriched since it was introduced.
///
/// Entries `max_separation` arcseconds or further from the predicted position are
/// excluded: such an entry is a different source that shares only a label.
pub fn sso_history_lookup(
    permissions: &Vec<i32>,
    window_days: Double,
    max_separation: Double,
) -> (r: Document)
    ensures
        bson_doc::document_fields(r) == sso_history_lookup_fields(
            permissions@,
            window_days,
            max_separation,
        ),
{
    single("$lookup", object(history_join(permissions, window_days, max_separation)))
}

/// A field that is there and not null.
pub open spec fn present_fields() -> Seq<(Seq<char>, Content)> {
    let d = bson_doc::no_fields();
    let d = bson_doc::with_field(d, "$exists"@, Content::Bool(true));
    bson_doc::with_field(d, "$ne"@, Content::Null)
}

/// A field that is there and not null.
fn present() -> (r: Document)
    ensures
        bson_doc::document_fields(r) == present_fields(),
{
    let d = new_document();
    let d = with(d, "$exists", boolean(true));
    with(d, "$ne", null())
}

/// The stage that drops alerts without a designation.
pub open spec fn designation_guard_fields() -> Seq<(Seq<char>, Content)> {
    bson_doc::one(
        "$match"@,
        bson_doc::wrapped("properties.sso.designation"@, Content::Object(present_fields())),
    )
}

/// The stage that drops alerts without a designation.
fn designation_guard() -> (r: Document)
    ensures
        bson_doc::document_fields(r) == designation_guard_fields(),
{
    single("$match", wrap("properties.sso.designation", object(present())))
}

/// What a filter sees of an alert.
pub open spec fn visible_fields() -> Seq<(Seq<char>, Content)> {
    let d = bson_doc::no_fields();
    let d = bson_doc::with_field(d, "objectId"@, Content::Int32(1));
    let d = bson_doc::with_field(d, "candidate"@, Content::Int32(1));
    let d = bson_doc::with_field(d, "classifications"@, Content::Int32(1));
    let d = bson_doc::with_field(d, "properties"@, Content::Int32(1));
    bson_doc::with_field(d, "coordinates"@, Content::Int32(1))
}

/// What a filter sees of an alert.
fn visible() -> (r: Document)
    ensures
        bson_doc::document_fields(r) == visible_fields(),
{
    let d = new_document();
    let d = with(d, "objectId", int32(1));
    let d = with(d, "candidate", int32(1));
    let d = with(d, "classifications", int32(1));
    let d = with(d, "properties", int32(1));
    with(d, "coordinates", int32(1))
}

/// The first stage of a filter that uses each of the fields that have to be joined.
#[derive(Debug, Clone, Copy, PartialEq, Eq, Structural)]
pub struct FieldUses {
    pub prv_candidates: Option<usize>,
    pub prv_nondetections: Option<usize>,
    pub fp_hists: Option<usize>,
    pub cross_matches: Option<usize>,
    pub aliases: Option<usize>,
    pub sso_history: Option<usize>,
}

/// The smaller of two stages, where there is one.
pub open spec fn earlier(a: Option<usize>, b: Option<usize>) -> Option<usize> {
    match (a, b) {
        (Some(x), Some(y)) => Some(if x < y {
            x
        } else {
            y
        }),
        (Some(x), None) => Some(x),
        (None, y) => y,
    }
}

/// The smaller of two stages, where there is one.
fn earlier_of(a: Option<usize>, b: Option<usize>) -> (r: Option<usize>)
    ensures
        r == earlier(a, b),
{
    match (a, b) {
        (Some(x), Some(y)) => Some(if x < y {
            x
        } else {
            y
        }),
        (Some(x), None) => Some(x),
        (None, y) => y,
    }
}

/// The first stage that uses auxiliary data.
pub open spec fn first_aux_use(uses: FieldUses) -> Option<usize> {
    earlier(
        uses.prv_candidates,
        earlier(
            uses.prv_nondetections,
            earlier(uses.fp_hists, earlier(uses.cross_matches, uses.aliases)),
        ),
    )
}

/// The values of the fields that auxiliary data adds, where they are used.
pub struct AuxValues {
    pub prv_candidates: Option<Bson>,
    pub prv_nondetections: Option<Bson>,
    pub fp_hists: Option<Bson>,
    pub cross_matches: Option<Bson>,
    pub aliases: Option<Bson>,
}

/// `d` with a field where there is a value for it.
pub open spec fn with_optional(
    d: Seq<(Seq<char>, Content)>,
    key: Seq<char>,
    value: Option<Bson>,
) -> Seq<(Seq<char>, Content)> {
    match value {
        Some(b) => bson_doc::with_field(d, key, bson_doc::bson_value(b)),
        None => d,
    }
}

/// `d` with a field where there is a value for it.
fn with_maybe(d: Document, key: &str, value: Option<Bson>) -> (r: Document)
    ensures
        bson_doc::document_fields(r) == with_optional(bson_doc::document_fields(d), key@, value),
{
    match value {
        Some(b) => with(d, key, b),
        None => d,
    }
}

/// The fields that are added from the auxiliary document, which itself is dropped.
pub open spec fn aux_fields(values: AuxValues) -> Seq<(Seq<char>, Content)> {
    let d = bson_doc::one("aux"@, Content::Null);
    let d = with_optional(d, "prv_candidates"@, values.prv_candidates);
    let d = with_optional(d, "prv_nondetections"@, values.prv_nondetections);
    let d = with_optional(d, "fp_hists"@, values.fp_hists);
    let d = with_optional(d, "cross_matches"@, values.cross_matches);
    with_optional(d, "aliases"@, values.aliases)
}

/// The fields that are added from the auxiliary document, which itself is dropped.
pub fn aux_add_fields(values: AuxValues) -> (r: Document)
    ensures
        bson_doc::document_fields(r) == aux_fields(values),
{
    let d = single("aux", null());
    let d = with_maybe(d, "prv_candidates", values.prv_candidates);
    let d = with_maybe(d, "prv_nondetections", values.prv_nondetections);
    let d = with_maybe(d, "fp_hists", values.fp_hists);
    let d = with_maybe(d, "cross_matches", values.cross_matches);
    with_maybe(d, "aliases", values.aliases)
}

/// `value` is the expression that `timeseries` gives for the year up to the alert of the
/// light curve at `path`, without the points that the filter may not see.
pub open spec fn is_timeseries<T: Fn(&str, &str, i32, Vec<Document>) -> Bson>(
    value: Bson,
    path: Seq<char>,
    permissions: Seq<i32>,
    timeseries: T,
) -> bool {
    exists|p: &str, time: &str, conditions: Vec<Document>|
        p@ == path && time@ == "candidate.jd"@ && bson_doc::documents(conditions@) == seq![
            stages::permitted_fields("$$x.programid"@, permissions),
        ] && #[trigger] timeseries.ensures((p, time, 365i32, conditions), value)
}

/// `value` is the expression for a light curve, where it is used.
pub open spec fn is_series_of<T: Fn(&str, &str, i32, Vec<Document>) -> Bson>(
    value: Option<Bson>,
    used: Option<usize>,
    path: Seq<char>,
    permissions: Seq<i32>,
    timeseries: T,
) -> bool {
    match used {
        Some(_) => value is Some && is_timeseries(value->0, path, permissions, timeseries),
        None => value is None,
    }
}

/// `value` is the expression that `first` gives for the first element of the list at `path`.
pub open spec fn is_first<E: Fn(&str) -> Bson>(value: Bson, path: Seq<char>, first: E) -> bool {
    exists|p: &str| p@ == path && #[trigger] first.ensures((p,), value)
}

/// `value` is the expression for the first element of a list, where it is used.
pub open spec fn is_first_of<E: Fn(&str) -> Bson>(
    value: Option<Bson>,
    used: Option<usize>,
    path: Seq<char>,
    first: E,
) -> bool {
    match used {
        Some(_) => value is Some && is_first(value->0, path, first),
        None => value is None,
    }
}

/// The expression for a light curve, where it is used.
fn series_of<T: Fn(&str, &str, i32, Vec<Document>) -> Bson>(
    used: Option<usize>,
    path: &str,
    permissions: &Vec<i32>,
    timeseries: &T,
) -> (r: Option<Bson>)
    requires
        forall|p: &str, t: &str, n: i32, c: Vec<Document>|
            #[trigger] timeseries.requires((p, t, n, c)),
    ensures
        is_series_of(r, used, path@, permissions@, *timeseries),
{
    match used {
        Some(_) => {
            let mut conditions: Vec<Document> = Vec::new();
            conditions.push(permitted("$$x.programid", permissions));
            assert(bson_doc::documents(conditions@) =~= seq![
                stages::permitted_fields("$$x.programid"@, permissions@),
            ]);
            Some(timeseries(path, "candidate.jd", 365, conditions))
        },
        None => None,
    }
}

/// The first element of a list, where it is used.
fn first_of<E: Fn(&str) -> Bson>(used: Option<usize>, path: &str, first: &E) -> (r: Option<Bson>)
    requires
        forall|p: &str| #[trigger] first.requires((p,)),
    ensures
        is_first_of(r, used, path@, *first),
{
    match used {
        Some(_) => {
            let value = first(path);
            assert(is_first(value, path@, *first));
            Some(value)
        },
        None => None,
    }
}

/// `values` are the expressions for the fields that a filter uses.
pub open spec fn are_aux_values<
    T: Fn(&str, &str, i32, Vec<Document>) -> Bson,
    E: Fn(&str) -> Bson,
>(
    values: AuxValues,
    uses: FieldUses,
    permissions: Seq<i32>,
    timeseries: T,
    first: E,
) -> bool {
    &&& is_series_of(
        values.prv_candidates,
        uses.prv_candidates,
        "aux.prv_candidates"@,
        permissions,
        timeseries,
    )
    &&& is_series_of(
        values.prv_nondetections,
        uses.prv_nondetections,
        "aux.prv_nondetections"@,
        permissions,
        timeseries,
    )
    &&& is_series_of(values.fp_hists, uses.fp_hists, "aux.fp_hists"@, permissions, timeseries)
    &&& is_first_of(values.cross_matches, uses.cross_matches, "aux.cross_matches"@, first)
    &&& is_first_of(values.aliases, uses.aliases, "aux.aliases"@, first)
}

/// What is woven into the stages of a filter, and in front of which of them.
pub struct Plan {
    pub history_at: Option<usize>,
    pub history: Seq<Seq<(Seq<char>, Content)>>,
    pub aux_at: Option<usize>,
    pub aux: Seq<Seq<(Seq<char>, Content)>>,
}

/// The stages that are put in front of the `i`-th stage of a filter.
pub open spec fn in_front(plan: Plan, i: int) -> Seq<Seq<(Seq<char>, Content)>> {
    (if plan.history_at matches Some(k) && k == i {
        plan.history
    } else {
        Seq::empty()
    }) + (if plan.aux_at matches Some(k) && k == i {
        plan.aux
    } else {
        Seq::empty()
    })
}

/// The first `n` stages of a filter with what is woven into them.
pub open spec fn woven(user: Seq<Seq<(Seq<char>, Content)>>, plan: Plan, n: int) -> Seq<
    Seq<(Seq<char>, Content)>,
>
    decreases n,
{
    if n <= 0 {
        Seq::empty()
    } else {
        (woven(user, plan, n - 1) + in_front(plan, n - 1)).push(user[n - 1])
    }
}

/// The stages that every filter starts with.
pub open spec fn prefix() -> Seq<Seq<(Seq<char>, Content)>> {
    seq![stages::match_ids_fields(), bson_doc::one("$project"@, Content::Object(visible_fields()))]
}

/// What a filter's stages become: they follow the prefix in their order, with the history
/// guarded and joined in front of the first stage that uses it, and the auxiliary data
/// joined in front of the first stage that uses that.
pub open spec fn full_pipeline(user: Seq<Seq<(Seq<char>, Content)>>, plan: Plan) -> Seq<
    Seq<(Seq<char>, Content)>,
> {
    prefix() + woven(user, plan, user.len() as int)
}

/// The stages that surface the history of an object.
pub open spec fn history_part(permissions: Seq<i32>, max_separation: Double) -> Seq<
    Seq<(Seq<char>, Content)>,
> {
    seq![
        designation_guard_fields(),
        sso_history_lookup_fields(
            permissions,
            Double { bits: 0x4076_d000_0000_0000 },
            max_separation,
        ),
    ]
}

/// The stages that join the auxiliary data.
pub open spec fn aux_part(values: AuxValues, lsst: Seq<Seq<(Seq<char>, Content)>>) -> Seq<
    Seq<(Seq<char>, Content)>,
> {
    seq![
        stages::lookup_fields("ZTF_alerts_aux"@, "objectId"@, "_id"@, "aux"@),
        stages::add_fields_fields(aux_fields(values)),
    ] + lsst
}

/// What is woven into the stages of a filter.
pub open spec fn plan_of(
    uses: FieldUses,
    permissions: Seq<i32>,
    max_separation: Double,
    values: AuxValues,
    lsst: Seq<Seq<(Seq<char>, Content)>>,
) -> Plan {
    Plan {
        history_at: uses.sso_history,
        history: history_part(permissions, max_separation),
        aux_at: first_aux_use(uses),
        aux: aux_part(values, lsst),
    }
}

/// The documents that the stages of a filter are written as, where all of them are.
pub open spec fn stage_documents(stages: Seq<serde_json::Value>) -> Option<
    Seq<Seq<(Seq<char>, Content)>>,
> {
    if forall|i: int| 0 <= i < stages.len() ==> json_document(#[trigger] stages[i]) is Some {
        Some(stages.map_values(|v: serde_json::Value| json_document(v)->0))
    } else {
        None
    }
}

/// Write the stages of a filter as documents.
pub fn to_documents(stages: &Vec<serde_json::Value>) -> (r: Result<Vec<Document>, FilterError>)
    ensures
        match r {
            Ok(out) => stage_documents(stages@) == Some(bson_doc::documents(out@)),
            Err(e) => stage_documents(stages@) is None && e is Serialization,
        },
{
    let mut out: Vec<Document> = Vec::new();
    let mut i: usize = 0;
    while i < stages.len()
        invariant
            i <= stages.len(),
            out@.len() == i,
            forall|k: int|
                0 <= k < i ==> json_document(stages@[k]) == Some(
                    bson_doc::document_fields(#[trigger] out@[k]),
                ),
        decreases stages.len() - i,
    {
        match to_bson_document(&stages[i]) {
            Ok(d) => {
                out.push(d);
            },
            Err(_) => {
                assert(json_document(stages@[i as int]) is None);
                return Err(FilterError::Serialization);
            },
        }
        i = i + 1;
    }
    proof {
        assert forall|k: int| 0 <= k < stages@.len() implies json_document(
            #[trigger] stages@[k],
        ) is Some by {
            assert(json_document(stages@[k]) == Some(bson_doc::document_fields(out@[k])));
        }
        assert(bson_doc::documents(out@) =~= stages@.map_values(
            |v: serde_json::Value| json_document(v)->0,
        ));
    }
    Ok(out)
}

/// Copies of documents, behind those of a list.
fn push_copies(out: &mut Vec<Document>, more: &Vec<Document>)
    ensures
        bson_doc::documents(final(out)@) == bson_doc::documents(old(out)@) + bson_doc::documents(
            more@,
        ),
{
    let ghost before = out@;
    let mut i: usize = 0;
    assert(bson_doc::documents(out@) =~= bson_doc::documents(before) + bson_doc::documents(
        more@,
    ).take(0));
    while i < more.len()
        invariant
            i <= more.len(),
            bson_doc::documents(out@) == bson_doc::documents(before) + bson_doc::documents(
                more@,
            ).take(i as int),
        decreases more.len() - i,
    {
        let ghost so_far = out@;
        let d = clone_document(&more[i]);
        out.push(d);
        proof {
            let m = bson_doc::documents(more@);
            assert(bson_doc::documents(out@) =~= bson_doc::documents(so_far).push(
                bson_doc::document_fields(d),
            ));
            assert(m.take(i + 1) =~= m.take(i as int).push(bson_doc::document_fields(d)));
            assert(bson_doc::documents(out@) =~= bson_doc::documents(before) + m.take(i + 1));
        }
        i = i + 1;
    }
    assert(bson_doc::documents(more@).take(i as int) =~= bson_doc::documents(more@));
}

/// Weave what a filter uses into its stages. `lsst` holds the stages that join LSST data
/// behind the auxiliary data.
pub fn weave(
    user: &Vec<Document>,
    uses: FieldUses,
    permissions: &Vec<i32>,
    max_separation: Double,
    values: AuxValues,
    lsst: &Vec<Document>,
) -> (r: Vec<Document>)
    ensures
        bson_doc::documents(r@) == full_pipeline(
            bson_doc::documents(user@),
            plan_of(uses, permissions@, max_separation, values, bson_doc::documents(lsst@)),
        ),
{
    let ghost stages = bson_doc::documents(user@);
    let ghost plan = plan_of(
        uses,
        permissions@,
        max_separation,
        values,
        bson_doc::documents(lsst@),
    );
    let mut history: Vec<Document> = Vec::new();
    history.push(designation_guard());
    history.push(
        sso_history_lookup(permissions, Double { bits: 0x4076_d000_0000_0000 }, max_separation),
    );
    assert(bson_doc::documents(history@) =~= plan.history);
    let mut aux: Vec<Document> = Vec::new();
    aux.push(lookup("ZTF_alerts_aux", "objectId", "_id", "aux"));
    aux.push(add_fields(aux_add_fields(values)));
    let ghost joined = aux@;
    push_copies(&mut aux, lsst);
    assert(bson_doc::documents(joined) + bson_doc::documents(lsst@) =~= plan.aux);
    let aux_at = earlier_of(
        uses.prv_candidates,
        earlier_of(
            uses.prv_nondetections,
            earlier_of(uses.fp_hists, earlier_of(uses.cross_matches, uses.aliases)),
        ),
    );
    let mut pipeline: Vec<Document> = Vec::new();
    pipeline.push(match_ids());
    pipeline.push(single("$project", object(visible())));
    assert(bson_doc::documents(pipeline@) =~= prefix() + woven(stages, plan, 0));
    let mut i: usize = 0;
    while i < user.len()
        invariant
            i <= user.len(),
            stages == bson_doc::documents(user@),
            plan.history_at == uses.sso_history,
            plan.aux_at == aux_at,
            bson_doc::documents(history@) == plan.history,
            bson_doc::documents(aux@) == plan.aux,
            bson_doc::documents(pipeline@) == prefix() + woven(stages, plan, i as int),
        decreases user.len() - i,
    {
        let ghost start = bson_doc::documents(pipeline@);
        let ghost front = in_front(plan, i as int);
        if let Some(k) = uses.sso_history {
            if k == i {
                // Most alerts have no designation (old alerts, or no MPC match); they are
                // dropped before the lookup rather than running it to produce an empty
                // array.
                push_copies(&mut pipeline, &history);
            }
        }
        if let Some(k) = aux_at {
            if k == i {
                push_copies(&mut pipeline, &aux);
            }
        }
        assert(bson_doc::documents(pipeline@) =~= start + front);
        let ghost so_far = pipeline@;
        let d = clone_document(&user[i]);
        pipeline.push(d);
        proof {
            assert(bson_doc::documents(pipeline@) =~= bson_doc::documents(so_far).push(
                stages[i as int],
            ));
            let w = woven(stages, plan, i as int);
            assert((prefix() + w + front).push(stages[i as int]) =~= prefix() + (w + front).push(
                stages[i as int],
            ));
        }
        i = i + 1;
    }
    pipeline
}

/// What LSST data adds to a filter: the first stage that uses aliases, with those that LSST
/// data needs, and the stages that join it.
pub struct LsstAux {
    pub use_aliases_index: Option<usize>,
    pub stages: Vec<Document>,
}

/// The uses with the aliases that LSST data needs.
pub open spec fn with_aliases(uses: FieldUses, aliases: Option<usize>) -> FieldUses {
    FieldUses { aliases, ..uses }
}

/// No stage of a filter has this number.
pub open spec fn is_nowhere(at: Option<usize>) -> bool {
    at == Some(usize::MAX)
}

/// `r` is the pipeline of a filter that uses fields where `uses` says, with what LSST data
/// adds to it. A filter without permissions is refused, and so is one whose auxiliary data
/// has no place, or with a stage that is not a document.
pub open spec fn is_pipeline<
    T: Fn(&str, &str, i32, Vec<Document>) -> Bson,
    E: Fn(&str) -> Bson,
>(
    r: Result<Vec<Document>, FilterError>,
    filter_pipeline: Seq<serde_json::Value>,
    permissions: Option<Seq<i32>>,
    uses: FieldUses,
    lsst: LsstAux,
    max_separation: Double,
    timeseries: T,
    first: E,
) -> bool {
    let all = with_aliases(uses, lsst.use_aliases_index);
    match permissions {
        None => r matches Err(FilterError::InvalidFilterPipeline(why)) && why@
            == "No ZTF permissions found for the filter"@,
        Some(perms) => if is_nowhere(first_aux_use(all)) {
            r matches Err(FilterError::InvalidFilterPipeline(why)) && why@
                == "could not determine where to insert aux pipeline"@
        } else {
            match stage_documents(filter_pipeline) {
                None => r matches Err(FilterError::Serialization),
                Some(user) => r is Ok && exists|values: AuxValues| #[trigger]
                    are_aux_values(values, all, perms, timeseries, first) && bson_doc::documents(
                        r->Ok_0@,
                    ) == full_pipeline(
                        user,
                        plan_of(
                            all,
                            perms,
                            max_separation,
                            values,
                            bson_doc::documents(lsst.stages@),
                        ),
                    ),
            }
        },
    }
}

/// The programs behind a reference.
pub open spec fn listed(permissions: Option<&Vec<i32>>) -> Option<Seq<i32>> {
    match permissions {
        Some(p) => Some(p@),
        None => None,
    }
}

/// The pipeline of a filter of which it is known where it uses which fields.
pub fn pipeline_for<
    T: Fn(&str, &str, i32, Vec<Document>) -> Bson,
    E: Fn(&str) -> Bson,
>(
    filter_pipeline: &Vec<serde_json::Value>,
    permissions: Option<&Vec<i32>>,
    uses: FieldUses,
    lsst: &LsstAux,
    max_separation: Double,
    timeseries: &T,
    first: &E,
) -> (r: Result<Vec<Document>, FilterError>)
    requires
        forall|p: &str, t: &str, n: i32, c: Vec<Document>|
            #[trigger] timeseries.requires((p, t, n, c)),
        forall|p: &str| #[trigger] first.requires((p,)),
    ensures
        is_pipeline(
            r,
            filter_pipeline@,
            listed(permissions),
            uses,
            *lsst,
            max_separation,
            *timeseries,
            *first,
        ),
{
    let all = FieldUses {
        prv_candidates: uses.prv_candidates,
        prv_nondetections: uses.prv_nondetections,
        fp_hists: uses.fp_hists,
        cross_matches: uses.cross_matches,
        aliases: lsst.use_aliases_index,
        sso_history: uses.sso_history,
    };
    let perms = match permissions {
        Some(perms) => perms,
        None => {
            return Err(
                FilterError::InvalidFilterPipeline(
                    "No ZTF permissions found for the filter".to_owned(),
                ),
            );
        },
    };
    let values = AuxValues {
        prv_candidates: series_of(all.prv_candidates, "aux.prv_candidates", perms, timeseries),
        prv_nondetections: series_of(
            all.prv_nondetections,
            "aux.prv_nondetections",
            perms,
            timeseries,
        ),
        fp_hists: series_of(all.fp_hists, "aux.fp_hists", perms, timeseries),
        cross_matches: first_of(all.cross_matches, "aux.cross_matches", first),
        aliases: first_of(all.aliases, "aux.aliases", first),
    };
    assert(are_aux_values(values, all, perms@, *timeseries, *first));
    let aux_at = earlier_of(
        all.prv_candidates,
        earlier_of(
            all.prv_nondetections,
            earlier_of(all.fp_hists, earlier_of(all.cross_matches, all.aliases)),
        ),
    );
    if let Some(at) = aux_at {
        if at == usize::MAX {
            return Err(
                FilterError::InvalidFilterPipeline(
                    "could not determine where to insert aux pipeline".to_owned(),
                ),
            );
        }
    }
    match to_documents(filter_pipeline) {
        Ok(user) => Ok(weave(&user, all, perms, max_separation, values, &lsst.stages)),
        Err(e) => Err(e),
    }
}

/// `at` is the stage in which `uses_field` finds this field of a filter used first.
pub open spec fn is_use<U: Fn(&Vec<serde_json::Value>, &str) -> Option<usize>>(
    at: Option<usize>,
    filter_pipeline: Vec<serde_json::Value>,
    field: Seq<char>,
    uses_field: U,
) -> bool {
    exists|name: &str|
        name@ == field && #[trigger] uses_field.ensures((&filter_pipeline, name), at)
}

/// `uses` holds where `uses_field` finds each of the fields that have to be joined.
pub open spec fn are_uses<U: Fn(&Vec<serde_json::Value>, &str) -> Option<usize>>(
    uses: FieldUses,
    filter_pipeline: Vec<serde_json::Value>,
    uses_field: U,
) -> bool {
    &&& is_use(uses.prv_candidates, filter_pipeline, "prv_candidates"@, uses_field)
    &&& is_use(uses.prv_nondetections, filter_pipeline, "prv_nondetections"@, uses_field)
    &&& is_use(uses.fp_hists, filter_pipeline, "fp_hists"@, uses_field)
    &&& is_use(uses.cross_matches, filter_pipeline, "cross_matches"@, uses_field)
    &&& is_use(uses.aliases, filter_pipeline, "aliases"@, uses_field)
    &&& is_use(uses.sso_history, filter_pipeline, "sso_history"@, uses_field)
}

/// The stage in which a field is used first.
fn first_use<U: Fn(&Vec<serde_json::Value>, &str) -> Option<usize>>(
    filter_pipeline: &Vec<serde_json::Value>,
    field: &str,
    uses_field: &U,
) -> (r: Option<usize>)
    requires
        forall|v: &Vec<serde_json::Value>, f: &str| #[trigger] uses_field.requires((v, f)),
    ensures
        is_use(r, *filter_pipeline, field@, *uses_field),
{
    uses_field(filter_pipeline, field)
}

/// Where a filter uses the fields that have to be joined.
pub fn field_uses<U: Fn(&Vec<serde_json::Value>, &str) -> Option<usize>>(
    filter_pipeline: &Vec<serde_json::Value>,
    uses_field: &U,
) -> (r: FieldUses)
    requires
        forall|v: &Vec<serde_json::Value>, f: &str| #[trigger] uses_field.requires((v, f)),
    ensures
        are_uses(r, *filter_pipeline, *uses_field),
{
    FieldUses {
        prv_candidates: first_use(filter_pipeline, "prv_candidates", uses_field),
        prv_nondetections: first_use(filter_pipeline, "prv_nondetections", uses_field),
        fp_hists: first_use(filter_pipeline, "fp_hists", uses_field),
        cross_matches: first_use(filter_pipeline, "cross_matches", uses_field),
        aliases: first_use(filter_pipeline, "aliases", uses_field),
        sso_history: first_use(filter_pipeline, "sso_history", uses_field),
    }
}

/// `lsst` is what `lsst_aux` adds to a filter that uses aliases where `uses` says.
pub open spec fn is_lsst_aux<L: Fn(Option<usize>, &Vec<serde_json::Value>) -> LsstAux>(
    lsst: LsstAux,
    uses: FieldUses,
    filter_pipeline: Vec<serde_json::Value>,
    lsst_aux: L,
) -> bool {
    lsst_aux.ensures((uses.aliases, &filter_pipeline), lsst)
}

/// `verdict` is what `validate` says of a filter.
pub open spec fn is_verdict<V: Fn(&Vec<serde_json::Value>) -> Result<(), FilterError>>(
    verdict: Result<(), FilterError>,
    filter_pipeline: Vec<serde_json::Value>,
    validate: V,
) -> bool {
    validate.ensures((&filter_pipeline,), verdict)
}

/// Builds the aggregation pipeline that executes a filter.
///
/// The filter is validated, and its stages are augmented with the lookups of the data that
/// they use: prv_candidates, prv_nondetections, fp_hists, cross_matches, aliases and
/// sso_history. They follow a stage that selects alerts by candids, which are inserted before
/// execution. A filter may see the ZTF programs among its `permissions`.
///
/// `validate` checks a filter, `uses_field` finds the first stage that uses a field, and
/// `lsst_aux` says what LSST data adds, given the first stage that uses aliases. `timeseries`
/// gives the expression for a light curve and `first` that for the first element of a list.
pub fn build_ztf_filter_pipeline<
    V: Fn(&Vec<serde_json::Value>) -> Result<(), FilterError>,
    U: Fn(&Vec<serde_json::Value>, &str) -> Option<usize>,
    L: Fn(Option<usize>, &Vec<serde_json::Value>) -> LsstAux,
    T: Fn(&str, &str, i32, Vec<Document>) -> Bson,
    E: Fn(&str) -> Bson,
>(
    filter_pipeline: &Vec<serde_json::Value>,
    permissions: &Permissions,
    max_separation: Double,
    validate: &V,
    uses_field: &U,
    lsst_aux: &L,
    timeseries: &T,
    first: &E,
) -> (r: Result<Vec<Document>, FilterError>)
    requires
        forall|v: &Vec<serde_json::Value>| #[trigger] validate.requires((v,)),
        forall|v: &Vec<serde_json::Value>, f: &str| #[trigger] uses_field.requires((v, f)),
        forall|a: Option<usize>, v: &Vec<serde_json::Value>| #[trigger] lsst_aux.requires((a, v)),
        forall|p: &str, t: &str, n: i32, c: Vec<Document>|
            #[trigger] timeseries.requires((p, t, n, c)),
        forall|p: &str| #[trigger] first.requires((p,)),
    ensures
        exists|verdict: Result<(), FilterError>| #[trigger]
            is_verdict(verdict, *filter_pipeline, *validate) && match verdict {
                Err(e) => r == Err::<Vec<Document>, FilterError>(e),
                Ok(_) => exists|uses: FieldUses, lsst: LsstAux|
                    are_uses(uses, *filter_pipeline, *uses_field) && #[trigger] is_lsst_aux(
                        lsst,
                        uses,
                        *filter_pipeline,
                        *lsst_aux,
                    ) && is_pipeline(
                        r,
                        filter_pipeline@,
                        survey::programs(*permissions, Survey::Ztf),
                        uses,
                        lsst,
                        max_separation,
                        *timeseries,
                        *first,
                    ),
            },
{
    let verdict = validate(filter_pipeline);
    assert(is_verdict(verdict, *filter_pipeline, *validate));
    match verdict {
        Err(e) => Err(e),
        Ok(_) => {
            let uses = field_uses(filter_pipeline, uses_field);
            let lsst = lsst_aux(uses.aliases, filter_pipeline);
            assert(is_lsst_aux(lsst, uses, *filter_pipeline, *lsst_aux));
            pipeline_for(
                filter_pipeline,
                permissions.get(Survey::Ztf),
                uses,
                &lsst,
                max_separation,
                timeseries,
                first,
            )
        },
    }
}

/// How many stages are put in front of the first `n` stages of a filter.
pub open spec fn woven_in(plan: Plan, n: int) -> int {
    (if plan.history_at matches Some(k) && k < n {
        plan.history.len() as int
    } else {
        0
    }) + (if plan.aux_at matches Some(k) && k < n {
        plan.aux.len() as int
    } else {
        0
    })
}

pub proof fn lemma_woven(user: Seq<Seq<(Seq<char>, Content)>>, plan: Plan, n: int, i: int)
    requires
        0 <= i < n <= user.len(),
    ensures
        woven(user, plan, n).len() == n + woven_in(plan, n),
        woven(user, plan, i).len() == i + woven_in(plan, i),
        woven(user, plan, n)[i + woven_in(plan, i + 1)] == user[i],
        woven(user, plan, n).subrange(i + woven_in(plan, i), i + woven_in(plan, i + 1))
            == in_front(plan, i),
    decreases n,
{
    lemma_woven_len(user, plan, n);
    lemma_woven_len(user, plan, n - 1);
    lemma_woven_len(user, plan, i);
    let w = woven(user, plan, n - 1);
    let front = in_front(plan, n - 1);
    assert(woven_in(plan, n) == woven_in(plan, n - 1) + front.len());
    if i < n - 1 {
        lemma_woven(user, plan, n - 1, i);
        lemma_woven_len(user, plan, i + 1);
        assert(woven_in(plan, i + 1) <= woven_in(plan, n - 1));
        assert(woven(user, plan, n).subrange(
            i + woven_in(plan, i),
            i + woven_in(plan, i + 1),
        ) =~= w.subrange(i + woven_in(plan, i), i + woven_in(plan, i + 1)));
    } else {
        assert(woven(user, plan, n).subrange(
            i + woven_in(plan, i),
            i + woven_in(plan, i + 1),
        ) =~= front);
    }
}

proof fn lemma_woven_len(user: Seq<Seq<(Seq<char>, Content)>>, plan: Plan, n: int)
    requires
        0 <= n <= user.len(),
    ensures
        woven(user, plan, n).len() == n + woven_in(plan, n),
    decreases n,
{
    if n > 0 {
        lemma_woven_len(user, plan, n - 1);
    }
}

/// The stages of a filter keep their order: each stands behind those before it and behind
/// what was woven in in front of it, and nothing else is added.
pub proof fn law_filter_stages_keep_their_order(
    user: Seq<Seq<(Seq<char>, Content)>>,
    plan: Plan,
    i: int,
)
    requires
        0 <= i < user.len(),
    ensures
        full_pipeline(user, plan).len() == prefix().len() + user.len() + woven_in(
            plan,
            user.len() as int,
        ),
        full_pipeline(user, plan)[prefix().len() + i + woven_in(plan, i + 1)] == user[i],
{
    lemma_woven(user, plan, user.len() as int, i);
}

/// The history is joined where a stage uses it, in front of that stage, and alerts without
/// a designation are dropped before it is joined.
pub proof fn law_history_is_guarded_and_joined_where_used(
    user: Seq<Seq<(Seq<char>, Content)>>,
    uses: FieldUses,
    permissions: Seq<i32>,
    max_separation: Double,
    values: AuxValues,
    lsst: Seq<Seq<(Seq<char>, Content)>>,
    at: usize,
)
    requires
        uses.sso_history == Some(at),
        at < user.len(),
    ensures
        ({
            let plan = plan_of(uses, permissions, max_separation, values, lsst);
            let p = full_pipeline(user, plan);
            let k = prefix().len() + at + woven_in(plan, at as int);
            &&& p[k] == designation_guard_fields()
            &&& p[k + 1] == sso_history_lookup_fields(
                permissions,
                Double { bits: 0x4076_d000_0000_0000 },
                max_separation,
            )
            &&& k + 1 < prefix().len() + at + woven_in(plan, at + 1)
            &&& p[prefix().len() + at + woven_in(plan, at + 1)] == user[at as int]
        }),
{
    let plan = plan_of(uses, permissions, max_separation, values, lsst);
    lemma_woven(user, plan, user.len() as int, at as int);
    let w = woven(user, plan, user.len() as int);
    let front = in_front(plan, at as int);
    assert(front[0] == plan.history[0] && front[1] == plan.history[1]);
    let from = at + woven_in(plan, at as int);
    assert(w.subrange(from, at + woven_in(plan, at + 1))[0] == w[from]);
    assert(w.subrange(from, at + woven_in(plan, at + 1))[1] == w[from + 1]);
}

/// Nothing is woven into a filter that uses none of the data: its stages follow the prefix.
pub proof fn law_nothing_is_joined_that_is_not_used(
    user: Seq<Seq<(Seq<char>, Content)>>,
    uses: FieldUses,
    permissions: Seq<i32>,
    max_separation: Double,
    values: AuxValues,
    lsst: Seq<Seq<(Seq<char>, Content)>>,
)
    requires
        uses.sso_history is None,
        first_aux_use(uses) is None,
    ensures
        full_pipeline(user, plan_of(uses, permissions, max_separation, values, lsst)) == prefix()
            + user,
{
    let plan = plan_of(uses, permissions, max_separation, values, lsst);
    let w = woven(user, plan, user.len() as int);
    lemma_woven_len(user, plan, user.len() as int);
    assert(w =~= user) by {
        assert forall|i: int| 0 <= i < user.len() implies w[i] == user[i] by {
            lemma_woven(user, plan, user.len() as int, i);
        }
    }
}

/// The permissions that a filter of another survey has by default.
pub open spec fn effective_permissions(permissions: Option<Seq<i32>>) -> Seq<i32> {
    match permissions {
        Some(p) => p,
        None => seq![1i32],
    }
}

/// The fields that ZTF data adds to a filter of another survey; the joined document itself
/// is dropped.
pub open spec fn ztf_aux_fields(prv_candidates: Option<Bson>, fp_hists: Option<Bson>) -> Seq<
    (Seq<char>, Content),
> {
    let d = bson_doc::one("ztf_aux"@, Content::Null);
    let d = with_optional(d, "ZTF.prv_candidates"@, prv_candidates);
    with_optional(d, "ZTF.fp_hists"@, fp_hists)
}

/// `at` is where `update_aliases` brings the aliases for these users.
pub open spec fn is_update<U: Fn(Option<usize>, Vec<Option<usize>>) -> Option<usize>>(
    at: Option<usize>,
    so_far: Option<usize>,
    users: Seq<Option<usize>>,
    update_aliases: U,
) -> bool {
    exists|v: Vec<Option<usize>>|
        v@ == users && #[trigger] update_aliases.ensures((so_far, v), at)
}

/// `r` is what ZTF data adds to a filter of another survey that uses these fields of it first
/// in these stages: the updated stage of the aliases, whether to insert the ZTF lookup, and
/// the fields to add.
pub open spec fn is_aux_data<
    T: Fn(&str, &str, i32, Vec<Document>) -> Bson,
    U: Fn(Option<usize>, Vec<Option<usize>>) -> Option<usize>,
>(
    r: (Option<usize>, bool, Document),
    use_aliases_index: Option<usize>,
    prv_candidates: Option<usize>,
    fp_hists: Option<usize>,
    permissions: Option<Seq<i32>>,
    timeseries: T,
    update_aliases: U,
) -> bool {
    let perms = effective_permissions(permissions);
    &&& is_update(r.0, use_aliases_index, seq![prv_candidates, fp_hists], update_aliases)
    &&& r.1 == (earlier(prv_candidates, fp_hists) is Some && !is_nowhere(
        earlier(prv_candidates, fp_hists),
    ))
    &&& exists|candidates: Option<Bson>, forced: Option<Bson>|
        is_series_of(candidates, prv_candidates, "ztf_aux.prv_candidates"@, perms, timeseries)
            && is_series_of(forced, fp_hists, "ztf_aux.fp_hists"@, perms, timeseries)
            && bson_doc::document_fields(r.2) == #[trigger] ztf_aux_fields(candidates, forced)
}

/// What ZTF data adds to a filter of another survey of which it is known where it uses which
/// fields.
pub fn aux_data_for<
    T: Fn(&str, &str, i32, Vec<Document>) -> Bson,
    U: Fn(Option<usize>, Vec<Option<usize>>) -> Option<usize>,
>(
    use_aliases_index: Option<usize>,
    prv_candidates: Option<usize>,
    fp_hists: Option<usize>,
    permissions: Option<&Vec<i32>>,
    timeseries: &T,
    update_aliases: &U,
) -> (r: (Option<usize>, bool, Document))
    requires
        forall|p: &str, t: &str, n: i32, c: Vec<Document>|
            #[trigger] timeseries.requires((p, t, n, c)),
        forall|a: Option<usize>, v: Vec<Option<usize>>| #[trigger] update_aliases.requires((a, v)),
    ensures
        is_aux_data(
            r,
            use_aliases_index,
            prv_candidates,
            fp_hists,
            listed(permissions),
            *timeseries,
            *update_aliases,
        ),
{
    let mut default: Vec<i32> = Vec::new();
    default.push(1);
    assert(default@ =~= seq![1i32]);
    let perms = match permissions {
        Some(p) => p,
        None => &default,
    };
    let candidates = series_of(prv_candidates, "ztf_aux.prv_candidates", perms, timeseries);
    let forced = series_of(fp_hists, "ztf_aux.fp_hists", perms, timeseries);
    let ghost used = (candidates, forced);
    let d = single("ztf_aux", null());
    let d = with_maybe(d, "ZTF.prv_candidates", candidates);
    let d = with_maybe(d, "ZTF.fp_hists", forced);
    assert(bson_doc::document_fields(d) == ztf_aux_fields(used.0, used.1));
    let insert = match earlier_of(prv_candidates, fp_hists) {
        Some(at) => at != usize::MAX,
        None => false,
    };
    let mut users: Vec<Option<usize>> = Vec::new();
    users.push(prv_candidates);
    users.push(fp_hists);
    assert(users@ =~= seq![prv_candidates, fp_hists]);
    let aliases = update_aliases(use_aliases_index, users);
    assert(is_update(
        aliases,
        use_aliases_index,
        seq![prv_candidates, fp_hists],
        *update_aliases,
    ));
    (aliases, insert, d)
}

/// For a filter running on another survey (e.g., LSST), determine if we need to
/// fetch ZTF auxiliary data (prv_candidates, fp_hists) based on the fields
/// used in the filter pipeline.
///
/// `use_aliases_index` is the first stage that uses aliases so far. `uses_field` finds the
/// first stage that uses a field, `timeseries` gives the expression for a light curve, and
/// `update_aliases` brings the aliases forward to the stages that need them.
///
/// Returns the updated stage of the aliases, whether to insert the ZTF lookup, and the
/// fields to add to the alert documents.
pub fn build_ztf_aux_data<
    S: Fn(&Vec<serde_json::Value>, &str) -> Option<usize>,
    T: Fn(&str, &str, i32, Vec<Document>) -> Bson,
    U: Fn(Option<usize>, Vec<Option<usize>>) -> Option<usize>,
>(
    use_aliases_index: Option<usize>,
    filter_pipeline: &Vec<serde_json::Value>,
    permissions: &Permissions,
    uses_field: &S,
    timeseries: &T,
    update_aliases: &U,
) -> (r: (Option<usize>, bool, Document))
    requires
        forall|v: &Vec<serde_json::Value>, f: &str| #[trigger] uses_field.requires((v, f)),
        forall|p: &str, t: &str, n: i32, c: Vec<Document>|
            #[trigger] timeseries.requires((p, t, n, c)),
        forall|a: Option<usize>, v: Vec<Option<usize>>| #[trigger] update_aliases.requires((a, v)),
    ensures
        exists|prv_candidates: Option<usize>, fp_hists: Option<usize>|
            is_use(prv_candidates, *filter_pipeline, "ZTF.prv_candidates"@, *uses_field) && is_use(
                fp_hists,
                *filter_pipeline,
                "ZTF.fp_hists"@,
                *uses_field,
            ) && #[trigger] is_aux_data(
                r,
                use_aliases_index,
                prv_candidates,
                fp_hists,
                survey::programs(*permissions, Survey::Ztf),
                *timeseries,
                *update_aliases,
            ),
{
    let prv_candidates = first_use(filter_pipeline, "ZTF.prv_candidates", uses_field);
    let fp_hists = first_use(filter_pipeline, "ZTF.fp_hists", uses_field);
    aux_data_for(
        use_aliases_index,
        prv_candidates,
        fp_hists,
        permissions.get(Survey::Ztf),
        timeseries,
        update_aliases,
    )
}

/// Inserts the lookup of ZTF auxiliary data into a pipeline if needed, and only once.
///
/// # Arguments
/// * `pipeline` - The MongoDB aggregation pipeline to modify.
/// * `ztf_insert_aux_pipeline` - Whether to insert the ZTF auxiliary data lookup pipeline.
/// * `ztf_aux_add_fields` - The fields to add to the alert documents.
pub fn insert_ztf_aux_pipeline_if_needed(
    pipeline: &mut Vec<Document>,
    ztf_insert_aux_pipeline: &mut bool,
    ztf_aux_add_fields: &Document,
)
    ensures
        *final(ztf_insert_aux_pipeline) == false,
        bson_doc::documents(final(pipeline)@) == bson_doc::documents(old(pipeline)@) + if *old(
            ztf_insert_aux_pipeline,
        ) {
            seq![
                stages::lookup_fields("ZTF_alerts_aux"@, "aliases.ZTF.0"@, "_id"@, "ztf_aux"@),
                stages::add_fields_fields(bson_doc::document_fields(*ztf_aux_add_fields)),
            ]
        } else {
            seq![]
        },
{
    let ghost before = pipeline@;
    if *ztf_insert_aux_pipeline {
        pipeline.push(lookup("ZTF_alerts_aux", "aliases.ZTF.0", "_id", "ztf_aux"));
        pipeline.push(add_fields(clone_document(ztf_aux_add_fields)));
        *ztf_insert_aux_pipeline = false;
        assert(bson_doc::documents(pipeline@) =~= bson_doc::documents(before) + seq![
            stages::lookup_fields("ZTF_alerts_aux"@, "aliases.ZTF.0"@, "_id"@, "ztf_aux"@),
            stages::add_fields_fields(bson_doc::document_fields(*ztf_aux_add_fields)),
        ]);
    } else {
        assert(bson_doc::documents(pipeline@) =~= bson_doc::documents(before) + seq![]);
    }
}

} // verus!
