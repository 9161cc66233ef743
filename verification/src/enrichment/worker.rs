//! The worker that enriches alerts.

use crate::enrichment::alert::{AlertCutout, ZtfAlertClassifications, ZtfAlertForEnrichment};
use crate::enrichment::photometry::EnrichmentWorkerError;
use crate::enrichment::pipeline;
use crate::enrichment::pipeline::create_ztf_alert_pipeline;
use crate::utils::bson_doc;
use crate::utils::bson_doc::{
    clone_document, double_value, int64, new_document, object, single, with, Content,
};
use crate::utils::double::Double;
use crate::utils::lists::reversed;
use crate::utils::survey::Survey;
use crate::utils::text;
use crate::utils::text::signed_decimal_text;
use mongodb::bson::Document;
use std::collections::HashMap;
use vstd::prelude::*;
use vstd::std_specs::hash::*;
use vstd::string::*;

verus! {

/// Per-alert intermediate data used during enrichment processing. `P` are the properties
/// of the alert.
pub struct AlertWork<P> {
    pub candid: i64,
    pub programid: i32,
    pub properties: P,
    pub cutouts: AlertCutout,
    pub alert: ZtfAlertForEnrichment,
}

/// There are cutouts for the `k`-th alert, and no earlier alert took them.
pub open spec fn is_supplied(
    alerts: Seq<ZtfAlertForEnrichment>,
    cutouts: Map<i64, AlertCutout>,
    k: int,
) -> bool {
    cutouts.contains_key(alerts[k].candid) && forall|j: int|
        0 <= j < k ==> (#[trigger] alerts[j]).candid != alerts[k].candid
}

/// The batch goes on behind an alert with this outcome: it has properties, or nothing usable
/// was left of its light curve.
pub open spec fn is_passable<P, B, L>(
    outcome: Result<(P, B, i32, L), EnrichmentWorkerError>,
) -> bool {
    match outcome {
        Ok(_) => true,
        Err(e) => e is EmptyLightcurve,
    }
}

/// The batch reaches the `k`-th alert.
pub open spec fn is_reached<P, B, L>(
    alerts: Seq<ZtfAlertForEnrichment>,
    cutouts: Map<i64, AlertCutout>,
    outcomes: Seq<Result<(P, B, i32, L), EnrichmentWorkerError>>,
    k: int,
) -> bool {
    forall|j: int|
        #![trigger alerts[j]]
        0 <= j < k ==> is_supplied(alerts, cutouts, j) && is_passable(outcomes[j])
}

/// The work on the first `k` alerts: those that have properties, in order.
pub open spec fn work_on<P, B, L>(
    alerts: Seq<ZtfAlertForEnrichment>,
    cutouts: Map<i64, AlertCutout>,
    outcomes: Seq<Result<(P, B, i32, L), EnrichmentWorkerError>>,
    k: int,
) -> Seq<AlertWork<P>>
    decreases k,
{
    if k <= 0 {
        Seq::empty()
    } else {
        let before = work_on(alerts, cutouts, outcomes, k - 1);
        let alert = alerts[k - 1];
        match outcomes[k - 1] {
            Ok((properties, _, programid, _)) => before.push(
                AlertWork {
                    candid: alert.candid,
                    programid,
                    properties,
                    cutouts: cutouts[alert.candid],
                    alert,
                },
            ),
            Err(_) => before,
        }
    }
}

/// The light curves of those of the first `k` alerts that have properties, in order.
pub open spec fn curves_of<P, B, L>(
    alerts: Seq<ZtfAlertForEnrichment>,
    outcomes: Seq<Result<(P, B, i32, L), EnrichmentWorkerError>>,
    k: int,
) -> Seq<(i64, L)>
    decreases k,
{
    if k <= 0 {
        Seq::empty()
    } else {
        let before = curves_of(alerts, outcomes, k - 1);
        match outcomes[k - 1] {
            Ok((_, _, _, lightcurve)) => before.push((alerts[k - 1].candid, lightcurve)),
            Err(_) => before,
        }
    }
}

/// Put together the work of a batch: the alerts that were fetched, their cutouts, and the
/// properties, program and light curve that were computed of each. Returns the work, and the
/// light curves with the candids that they are of.
///
/// An alert without a usable light curve is skipped instead of aborting the batch, so that
/// the queue keeps draining. An alert without cutouts, or any other failure, ends the batch.
pub fn collect_work<P, B, L>(
    alerts: Vec<ZtfAlertForEnrichment>,
    cutouts: HashMap<i64, AlertCutout>,
    outcomes: Vec<Result<(P, B, i32, L), EnrichmentWorkerError>>,
) -> (r: Result<(Vec<AlertWork<P>>, Vec<(i64, L)>), EnrichmentWorkerError>)
    requires
        outcomes@.len() == alerts@.len(),
    ensures
        match r {
            Ok((out, curves)) => {
                &&& is_reached(alerts@, cutouts@, outcomes@, alerts@.len() as int)
                &&& out@ == work_on(alerts@, cutouts@, outcomes@, alerts@.len() as int)
                &&& curves@ == curves_of(alerts@, outcomes@, alerts@.len() as int)
            },
            Err(e) => exists|k: int|
                0 <= k < alerts@.len() && is_reached(alerts@, cutouts@, outcomes@, k)
                    && if is_supplied(alerts@, cutouts@, k) {
                    !is_passable(outcomes@[k]) && outcomes@[k] == Err::<(P, B, i32, L), _>(e)
                } else {
                    e == EnrichmentWorkerError::MissingCutouts((#[trigger] alerts@[k]).candid)
                },
        },
{
    broadcast use group_hash_axioms;

    let ghost all = alerts@;
    let ghost given = cutouts@;
    let ghost came = outcomes@;
    let mut left = cutouts;
    let mut alerts_left = reversed(alerts);
    let mut outcomes_left = reversed(outcomes);
    let mut out: Vec<AlertWork<P>> = Vec::new();
    let mut curves: Vec<(i64, L)> = Vec::new();
    let ghost mut k: int = 0;
    assert(all.skip(0) =~= all && came.skip(0) =~= came);
    while alerts_left.len() > 0
        invariant
            0 <= k,
            all == alerts@ && given == cutouts@ && came == outcomes@,
            came.len() == all.len(),
            alerts_left@.len() + k == all.len(),
            alerts_left@ == all.skip(k).reverse(),
            outcomes_left@ == came.skip(k).reverse(),
            is_reached(all, given, came, k),
            forall|c: i64|
                left@.contains_key(c) <==> given.contains_key(c) && (forall|j: int|
                    0 <= j < k ==> (#[trigger] all[j]).candid != c),
            forall|c: i64| left@.contains_key(c) ==> #[trigger] left@[c] == given[c],
            out@ == work_on(all, given, came, k),
            curves@ == curves_of(all, came, k),
        decreases alerts_left.len(),
    {
        let (alert, outcome) = match (alerts_left.pop(), outcomes_left.pop()) {
            (Some(alert), Some(outcome)) => (alert, outcome),
            _ => {
                return Ok((out, curves));
            },
        };
        assert(alert == all[k] && outcome == came[k]);
        let ghost before = left@;
        let candid = alert.candid;
        let taken = match left.remove(&candid) {
            Some(t) => t,
            None => {
                assert(!is_supplied(all, given, k));
                return Err(EnrichmentWorkerError::MissingCutouts(candid));
            },
        };
        assert(is_supplied(all, given, k));
        match outcome {
            Ok((properties, _, programid, lightcurve)) => {
                curves.push((candid, lightcurve));
                out.push(AlertWork { candid, programid, properties, cutouts: taken, alert });
            },
            Err(EnrichmentWorkerError::EmptyLightcurve(_)) => {},
            Err(e) => {
                return Err(e);
            },
        }
        proof {
            assert forall|x: i64|
                left@.contains_key(x) <==> given.contains_key(x) && (forall|j: int|
                    0 <= j < k + 1 ==> (#[trigger] all[j]).candid != x) by {
                if left@.contains_key(x) {
                    assert(before.contains_key(x));
                }
                if given.contains_key(x) && (forall|j: int|
                    0 <= j < k + 1 ==> (#[trigger] all[j]).candid != x) {
                    assert(before.contains_key(x));
                    assert(all[k].candid != x);
                }
            }
            assert(is_reached(all, given, came, k + 1));
            k = k + 1;
            assert(alerts_left@ =~= all.skip(k).reverse());
            assert(outcomes_left@ =~= came.skip(k).reverse());
        }
    }
    Ok((out, curves))
}

/// Each piece of work holds what belongs to one alert of the batch: its candid, its cutouts,
/// and the properties and program that were computed of it. The light curves come in the
/// same order, with the same candids.
pub proof fn law_work_belongs_to_its_alert<P, B, L>(
    alerts: Seq<ZtfAlertForEnrichment>,
    cutouts: Map<i64, AlertCutout>,
    outcomes: Seq<Result<(P, B, i32, L), EnrichmentWorkerError>>,
    k: int,
    i: int,
)
    requires
        0 <= k,
        0 <= i < work_on(alerts, cutouts, outcomes, k).len(),
    ensures
        curves_of(alerts, outcomes, k).len() == work_on(alerts, cutouts, outcomes, k).len(),
        exists|j: int|
            0 <= j < k && ({
                let w = work_on(alerts, cutouts, outcomes, k)[i];
                &&& w.alert == #[trigger] alerts[j]
                &&& w.candid == alerts[j].candid
                &&& w.cutouts == cutouts[alerts[j].candid]
                &&& outcomes[j] matches Ok((properties, _, programid, lightcurve))
                &&& w.properties == properties
                &&& w.programid == programid
                &&& curves_of(alerts, outcomes, k)[i] == (alerts[j].candid, lightcurve)
            }),
    decreases k,
{
    lemma_curves_of_work(alerts, cutouts, outcomes, k);
    if k > 0 {
        lemma_curves_of_work(alerts, cutouts, outcomes, k - 1);
        if i < work_on(alerts, cutouts, outcomes, k - 1).len() {
            law_work_belongs_to_its_alert(alerts, cutouts, outcomes, k - 1, i);
        } else {
            assert(work_on(alerts, cutouts, outcomes, k)[i].alert == alerts[k - 1]);
        }
    }
}

proof fn lemma_curves_of_work<P, B, L>(
    alerts: Seq<ZtfAlertForEnrichment>,
    cutouts: Map<i64, AlertCutout>,
    outcomes: Seq<Result<(P, B, i32, L), EnrichmentWorkerError>>,
    k: int,
)
    ensures
        curves_of(alerts, outcomes, k).len() == work_on(alerts, cutouts, outcomes, k).len(),
    decreases k,
{
    if k > 0 {
        lemma_curves_of_work(alerts, cutouts, outcomes, k - 1);
    }
}

/// An alert that was enriched, with its properties and classifications as documents.
pub struct Enriched {
    pub candid: i64,
    pub programid: i32,
    pub properties: Document,
    pub classifications: Option<Document>,
}

/// `e` is the alert of a piece of work, with the documents that `properties` and
/// `classifications` make of its properties and of its scores.
pub open spec fn is_enriched<
    P,
    F: Fn(&P) -> Document,
    C: Fn(ZtfAlertClassifications) -> Document,
>(
    e: Enriched,
    work: AlertWork<P>,
    scores: Option<ZtfAlertClassifications>,
    properties: F,
    classifications: C,
) -> bool {
    &&& e.candid == work.candid
    &&& e.programid == work.programid
    &&& properties.ensures((&work.properties,), e.properties)
    &&& match scores {
        Some(c) => e.classifications is Some && classifications.ensures(
            (c,),
            e.classifications->0,
        ),
        None => e.classifications is None,
    }
}

/// Pair each piece of work with its own scores, in order, as documents.
pub fn enriched_items<P, F: Fn(&P) -> Document, C: Fn(ZtfAlertClassifications) -> Document>(
    work: &Vec<AlertWork<P>>,
    scores: &Vec<Option<ZtfAlertClassifications>>,
    properties: &F,
    classifications: &C,
) -> (r: Vec<Enriched>)
    requires
        scores@.len() == work@.len(),
        forall|p: &P| #[trigger] properties.requires((p,)),
        forall|c: ZtfAlertClassifications| #[trigger] classifications.requires((c,)),
    ensures
        r@.len() == work@.len(),
        forall|i: int|
            0 <= i < work@.len() ==> is_enriched(
                #[trigger] r@[i],
                work@[i],
                scores@[i],
                *properties,
                *classifications,
            ),
{
    let mut out: Vec<Enriched> = Vec::new();
    let mut i: usize = 0;
    while i < work.len()
        invariant
            i <= work.len(),
            scores@.len() == work@.len(),
            out@.len() == i,
            forall|p: &P| #[trigger] properties.requires((p,)),
            forall|c: ZtfAlertClassifications| #[trigger] classifications.requires((c,)),
            forall|k: int|
                0 <= k < i ==> is_enriched(
                    #[trigger] out@[k],
                    work@[k],
                    scores@[k],
                    *properties,
                    *classifications,
                ),
        decreases work.len() - i,
    {
        let item = &work[i];
        let written = match scores[i] {
            Some(c) => Some(classifications(c)),
            None => None,
        };
        out.push(
            Enriched {
                candid: item.candid,
                programid: item.programid,
                properties: properties(&item.properties),
                classifications: written,
            },
        );
        i = i + 1;
    }
    out
}

/// Each alert of the work of a batch with its own properties, as they are published.
pub fn to_publish<P>(work: Vec<AlertWork<P>>) -> (r: Vec<(ZtfAlertForEnrichment, P)>)
    ensures
        r@ == work@.map_values(|w: AlertWork<P>| (w.alert, w.properties)),
{
    let ghost all = work@;
    let ghost published = all.map_values(|w: AlertWork<P>| (w.alert, w.properties));
    let mut left = reversed(work);
    let mut out: Vec<(ZtfAlertForEnrichment, P)> = Vec::new();
    let ghost mut k: int = 0;
    assert(all.skip(0) =~= all);
    assert(out@ =~= published.take(0));
    while left.len() > 0
        invariant
            0 <= k,
            left@.len() + k == all.len(),
            left@ == all.skip(k).reverse(),
            published == all.map_values(|w: AlertWork<P>| (w.alert, w.properties)),
            out@ == published.take(k),
        decreases left.len(),
    {
        if let Some(item) = left.pop() {
            assert(item == all[k]);
            out.push((item.alert, item.properties));
            proof {
                assert(published.take(k + 1) =~= published.take(k).push(published[k]));
                k = k + 1;
                assert(left@ =~= all.skip(k).reverse());
            }
        }
    }
    assert(published.take(k) =~= published);
    out
}

/// An update of one document.
pub struct Update {
    pub filter: Document,
    pub update: Document,
}

/// An update by what its documents hold.
pub ghost struct UpdateView {
    pub filter: Seq<(Seq<char>, Content)>,
    pub update: Seq<(Seq<char>, Content)>,
}

impl View for Update {
    type V = UpdateView;

    open spec fn view(&self) -> UpdateView {
        UpdateView {
            filter: bson_doc::document_fields(self.filter),
            update: bson_doc::document_fields(self.update),
        }
    }
}

/// The update that sets fields of the document of an alert.
pub open spec fn setting(candid: i64, fields: Seq<(Seq<char>, Content)>) -> UpdateView {
    UpdateView {
        filter: bson_doc::one("_id"@, Content::Int64(candid)),
        update: bson_doc::one("$set"@, Content::Object(fields)),
    }
}

/// The update that sets fields of the document of an alert.
pub(crate) fn set_fields(candid: i64, fields: Document) -> (r: Update)
    ensures
        r@ == setting(candid, bson_doc::document_fields(fields)),
{
    Update { filter: single("_id", int64(candid)), update: single("$set", object(fields)) }
}

/// What enrichment sets: the classifications where there are any, the properties, and when
/// it was done.
pub open spec fn enriched_fields(e: Enriched, now: Double) -> Seq<(Seq<char>, Content)> {
    let d = match e.classifications {
        Some(c) => bson_doc::one(
            "classifications"@,
            Content::Object(bson_doc::document_fields(c)),
        ),
        None => bson_doc::no_fields(),
    };
    let d = bson_doc::with_field(
        d,
        "properties"@,
        Content::Object(bson_doc::document_fields(e.properties)),
    );
    bson_doc::with_field(d, "updated_at"@, Content::Double(now.bits))
}

/// The update that writes an enriched alert back.
pub fn enrichment_update(e: &Enriched, now: Double) -> (r: Update)
    ensures
        r@ == setting(e.candid, enriched_fields(*e, now)),
{
    let d = match &e.classifications {
        Some(c) => single("classifications", object(clone_document(c))),
        None => new_document(),
    };
    let d = with(d, "properties", object(clone_document(&e.properties)));
    set_fields(e.candid, with(d, "updated_at", double_value(now)))
}

/// How an enriched alert is handed to the filters: program and candid.
pub open spec fn handover(e: Enriched) -> Seq<char> {
    text::signed_decimal(e.programid as int) + ","@ + text::signed_decimal(e.candid as int)
}

/// How an enriched alert is handed to the filters.
pub fn handover_text(e: &Enriched) -> (r: String)
    ensures
        r@ == handover(*e),
{
    signed_decimal_text(e.programid as i64).concat(",").concat(
        signed_decimal_text(e.candid).as_str(),
    )
}

proof fn lemma_no_comma(n: int, i: int)
    requires
        0 <= i < text::signed_decimal(n).len(),
    ensures
        text::signed_decimal(n)[i] != ',',
{
    let digits = text::decimal(if n < 0 {
        (-n) as nat
    } else {
        n as nat
    });
    text::lemma_decimal(if n < 0 {
        (-n) as nat
    } else {
        n as nat
    });
    if n < 0 {
        assert(i == 0 || text::signed_decimal(n)[i] == digits[i - 1]);
    }
}

/// The filters can tell which alert of which program they were handed: no two are handed
/// over by the same text.
pub proof fn law_handovers_tell_alerts_apart(a: Enriched, b: Enriched)
    requires
        handover(a) == handover(b),
    ensures
        a.programid == b.programid,
        a.candid == b.candid,
{
    reveal_strlit(",");
    let t = handover(a);
    let p = text::signed_decimal(a.programid as int);
    let q = text::signed_decimal(b.programid as int);
    assert(","@.len() == 1 && ","@[0] == ',');
    assert(t[p.len() as int] == ',' && t[q.len() as int] == ',');
    if p.len() < q.len() {
        lemma_no_comma(b.programid as int, p.len() as int);
        assert(t[p.len() as int] == q[p.len() as int]);
    }
    if q.len() < p.len() {
        lemma_no_comma(a.programid as int, q.len() as int);
        assert(t[q.len() as int] == p[q.len() as int]);
    }
    assert(p =~= t.take(p.len() as int) && q =~= t.take(p.len() as int));
    text::law_numbers_are_told_apart(a.programid as int, b.programid as int);
    let rest = t.skip(p.len() as int + 1);
    assert(text::signed_decimal(a.candid as int) =~= rest);
    assert(text::signed_decimal(b.candid as int) =~= rest);
    text::law_numbers_are_told_apart(a.candid as int, b.candid as int);
}

/// The updates that write enriched alerts back, and how they are handed to the filters: one
/// of each for each alert, in order. Without alerts there is nothing to write.
pub fn enrichment_results(items: &Vec<Enriched>, now: Double) -> (r: (Vec<Update>, Vec<String>))
    ensures
        r.0@.len() == items@.len(),
        r.1@.len() == items@.len(),
        forall|i: int|
            0 <= i < items@.len() ==> (#[trigger] r.0@[i])@ == setting(
                items@[i].candid,
                enriched_fields(items@[i], now),
            ),
        forall|i: int| 0 <= i < items@.len() ==> (#[trigger] r.1@[i])@ == handover(items@[i]),
{
    let mut updates: Vec<Update> = Vec::new();
    let mut processed: Vec<String> = Vec::new();
    let mut i: usize = 0;
    while i < items.len()
        invariant
            i <= items.len(),
            updates@.len() == i,
            processed@.len() == i,
            forall|k: int|
                0 <= k < i ==> (#[trigger] updates@[k])@ == setting(
                    items@[k].candid,
                    enriched_fields(items@[k], now),
                ),
            forall|k: int| 0 <= k < i ==> (#[trigger] processed@[k])@ == handover(items@[k]),
        decreases items.len() - i,
    {
        updates.push(enrichment_update(&items[i], now));
        processed.push(handover_text(&items[i]));
        i = i + 1;
    }
    (updates, processed)
}

/// How alerts are classified.
#[derive(Debug, Clone, Copy, PartialEq, Eq, Structural)]
pub enum Mode {
    PerItem,
    /// In padded batches of this size.
    Batches(usize),
}

/// The worker that enriches alerts.
pub struct ZtfEnrichmentWorker {
    input_queue: String,
    output_queue: String,
    alert_pipeline: Vec<Document>,
    /// Whether enriched alerts are also published.
    babamul: bool,
    gpu_enabled: bool,
    batch_size: usize,
}

impl ZtfEnrichmentWorker {
    /// The queues are those of enrichment, and the pipeline fetches alerts without
    /// classifications.
    pub closed spec fn well_formed(self) -> bool {
        &&& self.input_queue@ == "ZTF_alerts_enrichment_queue"@
        &&& self.output_queue@ == "ZTF_alerts_filter_queue"@
        &&& bson_doc::documents(self.alert_pipeline@) == pipeline::alert_pipeline(false)
    }

    /// Whether enriched alerts are also published.
    pub closed spec fn publishes(self) -> bool {
        self.babamul
    }

    /// How alerts are classified.
    pub closed spec fn mode(self) -> Mode {
        if self.gpu_enabled {
            Mode::Batches(self.batch_size)
        } else {
            Mode::PerItem
        }
    }

    /// A worker with this configuration. Without a batch size the configuration has no
    /// section for this worker, which is an error.
    pub fn new(babamul: bool, gpu_enabled: bool, batch_size: Option<usize>) -> (r: Result<
        Self,
        EnrichmentWorkerError,
    >)
        ensures
            match (batch_size, r) {
                (Some(n), Ok(w)) => w.well_formed() && w.publishes() == babamul && w.mode()
                    == if gpu_enabled {
                    Mode::Batches(n)
                } else {
                    Mode::PerItem
                },
                (None, Err(e)) => e == EnrichmentWorkerError::WorkerConfigMissing(Survey::Ztf),
                _ => false,
            },
    {
        match batch_size {
            Some(batch_size) => Ok(
                ZtfEnrichmentWorker {
                    input_queue: "ZTF_alerts_enrichment_queue".to_owned(),
                    output_queue: "ZTF_alerts_filter_queue".to_owned(),
                    alert_pipeline: create_ztf_alert_pipeline(false),
                    babamul,
                    gpu_enabled,
                    batch_size,
                },
            ),
            None => Err(EnrichmentWorkerError::WorkerConfigMissing(Survey::Ztf)),
        }
    }

    /// The survey whose alerts are enriched.
    pub fn survey() -> (r: Survey)
        ensures
            r == Survey::Ztf,
    {
        Survey::Ztf
    }

    /// Stop publishing enriched alerts.
    pub fn disable_babamul(&mut self)
        requires
            old(self).well_formed(),
        ensures
            final(self).well_formed(),
            !final(self).publishes(),
            final(self).mode() == old(self).mode(),
    {
        self.babamul = false;
    }

    /// Whether enriched alerts are also published.
    pub fn has_babamul(&self) -> (r: bool)
        ensures
            r == self.publishes(),
    {
        self.babamul
    }

    /// The queue that alerts are taken from.
    pub fn input_queue_name(&self) -> (r: String)
        requires
            self.well_formed(),
        ensures
            r@ == "ZTF_alerts_enrichment_queue"@,
    {
        self.input_queue.clone()
    }

    /// The queue that enriched alerts are handed to.
    pub fn output_queue_name(&self) -> (r: String)
        requires
            self.well_formed(),
        ensures
            r@ == "ZTF_alerts_filter_queue"@,
    {
        self.output_queue.clone()
    }

    /// The pipeline that fetches the alerts of a batch.
    pub fn alert_pipeline(&self) -> (r: &Vec<Document>)
        requires
            self.well_formed(),
        ensures
            bson_doc::documents(r@) == pipeline::alert_pipeline(false),
    {
        &self.alert_pipeline
    }

    /// How alerts are classified.
    pub fn classify_mode(&self) -> (r: Mode)
        ensures
            r == self.mode(),
    {
        if self.gpu_enabled {
            Mode::Batches(self.batch_size)
        } else {
            Mode::PerItem
        }
    }
}

} // verus!
