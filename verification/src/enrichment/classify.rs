//! Classification of alerts by models, one by one or in batches of a fixed size.

use crate::enrichment::alert::ZtfAlertClassifications;
use crate::enrichment::photometry::EnrichmentWorkerError;
use crate::utils::double::Double;
use crate::utils::text;
use crate::utils::text::decimal_text;
use std::collections::HashMap;
use vstd::prelude::*;
use vstd::std_specs::hash::*;
use vstd::string::*;

verus! {

/// Where each index last stands in a list.
pub open spec fn positions(indices: Seq<usize>) -> Map<usize, usize>
    decreases indices.len(),
{
    if indices.len() == 0 {
        Map::empty()
    } else {
        positions(indices.drop_last()).insert(indices.last(), (indices.len() - 1) as usize)
    }
}

/// Where each index stands in a list.
pub fn position_index(indices: &Vec<usize>) -> (r: HashMap<usize, usize>)
    ensures
        r@ == positions(indices@),
{
    broadcast use group_hash_axioms;

    let mut map: HashMap<usize, usize> = HashMap::new();
    let mut i: usize = 0;
    while i < indices.len()
        invariant
            i <= indices.len(),
            map@ == positions(indices@.take(i as int)),
        decreases indices.len() - i,
    {
        assert(indices@.take(i + 1).drop_last() =~= indices@.take(i as int));
        map.insert(indices[i], i);
        i = i + 1;
    }
    assert(indices@.take(i as int) =~= indices@);
    map
}

/// An index stands in a list exactly where it has a position, and the position leads to it.
pub proof fn law_positions_lead_to_their_index(indices: Seq<usize>, index: usize)
    requires
        indices.len() <= usize::MAX,
    ensures
        positions(indices).contains_key(index) <==> indices.contains(index),
        positions(indices).contains_key(index) ==> positions(indices)[index] < indices.len()
            && indices[positions(indices)[index] as int] == index,
    decreases indices.len(),
{
    if indices.len() > 0 {
        let front = indices.drop_last();
        law_positions_lead_to_their_index(front, index);
        if front.contains(index) {
            let i = choose|i: int| 0 <= i < front.len() && front[i] == index;
            assert(indices[i] == index);
        }
        assert(indices[indices.len() - 1] == indices.last());
        if indices.contains(index) && index != indices.last() {
            let i = choose|i: int| 0 <= i < indices.len() && indices[i] == index;
            assert(front[i] == index);
        }
    }
}

/// An alert that all features were computed for, and where its features stand.
#[derive(Debug, Clone, Copy, PartialEq, Eq, Structural)]
pub struct Row {
    pub item: usize,
    pub triplet: usize,
    pub acai: usize,
    pub btsbot: usize,
}

/// The alerts among the first `n` that all features were computed for, in order.
pub open spec fn rows(
    n: int,
    triplet: Map<usize, usize>,
    acai: Map<usize, usize>,
    btsbot: Map<usize, usize>,
) -> Seq<Row>
    decreases n,
{
    if n <= 0 {
        Seq::empty()
    } else {
        let before = rows(n - 1, triplet, acai, btsbot);
        let item = (n - 1) as usize;
        if triplet.contains_key(item) && acai.contains_key(item) && btsbot.contains_key(item) {
            before.push(
                Row { item, triplet: triplet[item], acai: acai[item], btsbot: btsbot[item] },
            )
        } else {
            before
        }
    }
}

/// Select the alerts that all features were computed for.
pub fn select_rows(
    n: usize,
    triplet: &HashMap<usize, usize>,
    acai: &HashMap<usize, usize>,
    btsbot: &HashMap<usize, usize>,
) -> (r: Vec<Row>)
    ensures
        r@ == rows(n as int, triplet@, acai@, btsbot@),
{
    broadcast use group_hash_axioms;

    let mut out: Vec<Row> = Vec::new();
    let mut item: usize = 0;
    while item < n
        invariant
            item <= n,
            out@ == rows(item as int, triplet@, acai@, btsbot@),
        decreases n - item,
    {
        match (triplet.get(&item), acai.get(&item), btsbot.get(&item)) {
            (Some(t), Some(a), Some(b)) => {
                out.push(Row { item, triplet: *t, acai: *a, btsbot: *b });
            },
            _ => {},
        }
        item = item + 1;
    }
    out
}

/// The scores of a batch, by model.
pub struct ModelScores {
    pub acai_h: Vec<Double>,
    pub acai_n: Vec<Double>,
    pub acai_v: Vec<Double>,
    pub acai_o: Vec<Double>,
    pub acai_b: Vec<Double>,
    pub btsbot: Vec<Double>,
}

/// The first model that did not return one score for each input, and how many it returned.
pub open spec fn odd_model(s: ModelScores, inputs: usize) -> Option<(Seq<char>, usize)> {
    if s.acai_h.len() != inputs {
        Some(("acai_h"@, s.acai_h.len()))
    } else if s.acai_n.len() != inputs {
        Some(("acai_n"@, s.acai_n.len()))
    } else if s.acai_v.len() != inputs {
        Some(("acai_v"@, s.acai_v.len()))
    } else if s.acai_o.len() != inputs {
        Some(("acai_o"@, s.acai_o.len()))
    } else if s.acai_b.len() != inputs {
        Some(("acai_b"@, s.acai_b.len()))
    } else if s.btsbot.len() != inputs {
        Some(("btsbot"@, s.btsbot.len()))
    } else {
        None
    }
}

/// What is said of a model that returned another number of scores.
pub open spec fn odd_count_text(name: Seq<char>, got: usize, inputs: usize) -> Seq<char> {
    "model "@ + name + " returned "@ + text::decimal(got as nat) + " scores for "@
        + text::decimal(inputs as nat) + " padded inputs"@
}

/// `e` says which model returned another number of scores.
pub open spec fn is_odd_count(e: EnrichmentWorkerError, s: ModelScores, inputs: usize) -> bool {
    match (odd_model(s, inputs), e) {
        (Some((name, got)), EnrichmentWorkerError::ConfigurationError(why)) => why@
            == odd_count_text(name, got, inputs),
        _ => false,
    }
}

/// Check that each model returned one score for each input.
pub fn check_counts(s: &ModelScores, inputs: usize) -> (r: Result<(), EnrichmentWorkerError>)
    ensures
        match r {
            Ok(_) => odd_model(*s, inputs) is None,
            Err(e) => is_odd_count(e, *s, inputs),
        },
{
    let (name, got) = if s.acai_h.len() != inputs {
        ("acai_h", s.acai_h.len())
    } else if s.acai_n.len() != inputs {
        ("acai_n", s.acai_n.len())
    } else if s.acai_v.len() != inputs {
        ("acai_v", s.acai_v.len())
    } else if s.acai_o.len() != inputs {
        ("acai_o", s.acai_o.len())
    } else if s.acai_b.len() != inputs {
        ("acai_b", s.acai_b.len())
    } else if s.btsbot.len() != inputs {
        ("btsbot", s.btsbot.len())
    } else {
        return Ok(());
    };
    Err(
        EnrichmentWorkerError::ConfigurationError(
            "model ".to_owned().concat(name).concat(" returned ").concat(
                decimal_text(got as u64).as_str(),
            ).concat(" scores for ").concat(decimal_text(inputs as u64).as_str()).concat(
                " padded inputs",
            ),
        ),
    )
}

/// The scores of the `i`-th input.
pub open spec fn scores_at(s: ModelScores, i: int) -> ZtfAlertClassifications {
    ZtfAlertClassifications {
        acai_h: s.acai_h@[i],
        acai_n: s.acai_n@[i],
        acai_v: s.acai_v@[i],
        acai_o: s.acai_o@[i],
        acai_b: s.acai_b@[i],
        btsbot: s.btsbot@[i],
    }
}

/// No alert has scores.
pub open spec fn unscored(n: nat) -> Seq<Option<ZtfAlertClassifications>> {
    Seq::new(n, |i: int| None)
}

/// The first `k` of the selected alerts have their scores: the `p`-th of them that at
/// position `p % size` of batch `p / size`.
pub open spec fn scored(
    n: nat,
    selected: Seq<Row>,
    batches: Seq<ModelScores>,
    size: int,
    k: int,
) -> Seq<Option<ZtfAlertClassifications>>
    decreases k,
{
    if k <= 0 {
        unscored(n)
    } else {
        scored(n, selected, batches, size, k - 1).update(
            selected[k - 1].item as int,
            Some(scores_at(batches[(k - 1) / size], (k - 1) % size)),
        )
    }
}

/// The rows of a batch.
pub open spec fn batch(selected: Seq<Row>, size: int, b: int) -> Seq<Row> {
    selected.subrange(b * size, if (b + 1) * size <= selected.len() {
        (b + 1) * size
    } else {
        selected.len() as int
    })
}

/// `scores` is what `predict` makes of a batch.
pub open spec fn is_prediction<F: Fn(&Vec<Row>) -> Result<ModelScores, EnrichmentWorkerError>>(
    scores: Result<ModelScores, EnrichmentWorkerError>,
    rows: Seq<Row>,
    predict: F,
) -> bool {
    exists|v: &Vec<Row>| v@ == rows && #[trigger] predict.ensures((v,), scores)
}

/// Each of these batches was predicted, with one score of each model for each input.
pub open spec fn are_predictions<F: Fn(&Vec<Row>) -> Result<ModelScores, EnrichmentWorkerError>>(
    batches: Seq<ModelScores>,
    selected: Seq<Row>,
    size: usize,
    predict: F,
) -> bool {
    forall|b: int|
        0 <= b < batches.len() ==> odd_model(#[trigger] batches[b], size) is None && is_prediction(
            Ok::<_, EnrichmentWorkerError>(batches[b]),
            batch(selected, size as int, b),
            predict,
        )
}

/// `e` is why the batch behind these could not be scored: the prediction failed, or a model
/// returned another number of scores.
pub open spec fn is_failure<F: Fn(&Vec<Row>) -> Result<ModelScores, EnrichmentWorkerError>>(
    e: EnrichmentWorkerError,
    batches: Seq<ModelScores>,
    selected: Seq<Row>,
    size: usize,
    predict: F,
) -> bool {
    let rows = batch(selected, size as int, batches.len() as int);
    &&& batches.len() * size < selected.len()
    &&& is_prediction(Err::<ModelScores, _>(e), rows, predict) || exists|s: ModelScores|
        is_prediction(Ok::<_, EnrichmentWorkerError>(s), rows, predict)
            && #[trigger] is_odd_count(e, s, size)
}

proof fn lemma_rows(
    n: int,
    triplet: Map<usize, usize>,
    acai: Map<usize, usize>,
    btsbot: Map<usize, usize>,
)
    requires
        0 <= n <= usize::MAX,
    ensures
        ({
            let r = rows(n, triplet, acai, btsbot);
            &&& r.len() <= n
            &&& forall|i: int| 0 <= i < r.len() ==> (#[trigger] r[i]).item < n
            &&& forall|i: int, j: int|
                0 <= i < j < r.len() ==> (#[trigger] r[i]).item < (#[trigger] r[j]).item
        }),
    decreases n,
{
    if n > 0 {
        lemma_rows(n - 1, triplet, acai, btsbot);
    }
}

proof fn lemma_scored(
    n: nat,
    selected: Seq<Row>,
    batches: Seq<ModelScores>,
    more: Seq<ModelScores>,
    size: int,
    k: int,
)
    requires
        size > 0,
        0 <= k <= batches.len() * size,
        k <= selected.len(),
        forall|i: int| 0 <= i < selected.len() ==> (#[trigger] selected[i]).item < n,
    ensures
        scored(n, selected, batches, size, k) == scored(n, selected, batches + more, size, k),
        scored(n, selected, batches, size, k).len() == n,
    decreases k,
{
    if k > 0 {
        lemma_scored(n, selected, batches, more, size, k - 1);
        assert((k - 1) / size < batches.len()) by (nonlinear_arith)
            requires
                0 < k <= batches.len() * size,
                size > 0,
        ;
        assert((k - 1) / size >= 0) by (nonlinear_arith)
            requires
                0 < k,
                size > 0,
        ;
        assert((batches + more)[(k - 1) / size] == batches[(k - 1) / size]);
    }
}

/// Classify alerts in batches of a fixed size, the last of which is padded.
///
/// The indices tell which alerts the features of each model were computed for; an alert
/// without all of them is not classified. `predict` scores a padded batch.
pub fn classify_gpu_batch<F: Fn(&Vec<Row>) -> Result<ModelScores, EnrichmentWorkerError>>(
    n: usize,
    triplet_indices: &Vec<usize>,
    acai_indices: &Vec<usize>,
    bts_indices: &Vec<usize>,
    batch_size: usize,
    predict: &F,
) -> (r: Result<Vec<Option<ZtfAlertClassifications>>, EnrichmentWorkerError>)
    requires
        forall|v: &Vec<Row>| #[trigger] predict.requires((v,)),
        rows(
            n as int,
            positions(triplet_indices@),
            positions(acai_indices@),
            positions(bts_indices@),
        ).len() > 0 ==> batch_size > 0,
    ensures
        ({
            let selected = rows(
                n as int,
                positions(triplet_indices@),
                positions(acai_indices@),
                positions(bts_indices@),
            );
            exists|batches: Seq<ModelScores>| #[trigger]
                are_predictions(batches, selected, batch_size, *predict) && match r {
                    Ok(out) => batches.len() * batch_size >= selected.len() && out@ == scored(
                        n as nat,
                        selected,
                        batches,
                        batch_size as int,
                        selected.len() as int,
                    ),
                    Err(e) => is_failure(e, batches, selected, batch_size, *predict),
                }
        }),
{
    let triplet = position_index(triplet_indices);
    let acai = position_index(acai_indices);
    let btsbot = position_index(bts_indices);
    let selected = select_rows(n, &triplet, &acai, &btsbot);
    let ghost size = batch_size as int;
    let ghost mut batches: Seq<ModelScores> = Seq::empty();
    let mut results: Vec<Option<ZtfAlertClassifications>> = Vec::new();
    let mut i: usize = 0;
    while i < n
        invariant
            i <= n,
            results@ =~= unscored(i as nat),
        decreases n - i,
    {
        results.push(None);
        i = i + 1;
    }
    proof {
        lemma_rows(n as int, triplet@, acai@, btsbot@);
        assert(are_predictions(batches, selected@, batch_size, *predict));
        assert(batches.len() * size == 0) by (nonlinear_arith)
            requires
                batches.len() == 0,
        ;
    }
    let mut start: usize = 0;
    while start < selected.len()
        invariant
            size == batch_size,
            selected@.len() > 0 ==> batch_size > 0,
            selected@ == rows(
                n as int,
                positions(triplet_indices@),
                positions(acai_indices@),
                positions(bts_indices@),
            ),
            selected@.len() <= n,
            forall|k: int| 0 <= k < selected@.len() ==> (#[trigger] selected@[k]).item < n,
            forall|v: &Vec<Row>| #[trigger] predict.requires((v,)),
            start <= selected.len(),
            start < selected.len() ==> start == batches.len() * size,
            batches.len() * size >= start,
            are_predictions(batches, selected@, batch_size, *predict),
            results@.len() == n,
            results@ == scored(n as nat, selected@, batches, size, start as int),
        decreases selected.len() - start,
    {
        let end: usize = if batch_size <= selected.len() - start {
            start + batch_size
        } else {
            selected.len()
        };
        let ghost b = batches.len() as int;
        let mut chunk: Vec<Row> = Vec::new();
        let mut k: usize = start;
        while k < end
            invariant
                start <= k <= end <= selected.len(),
                chunk@ =~= selected@.subrange(start as int, k as int),
            decreases end - k,
        {
            chunk.push(selected[k]);
            k = k + 1;
        }
        proof {
            assert((b + 1) * size == b * size + size) by (nonlinear_arith);
            assert(chunk@ =~= batch(selected@, size, b));
        }
        let prediction = predict(&chunk);
        assert(is_prediction(prediction, batch(selected@, size, b), *predict));
        let scores = match prediction {
            Ok(scores) => scores,
            Err(e) => {
                return Err(e);
            },
        };
        if let Err(e) = check_counts(&scores, batch_size) {
            assert(is_odd_count(e, scores, batch_size));
            return Err(e);
        }
        let ghost before = batches;
        proof {
            batches = batches.push(scores);
            assert(batches =~= before + seq![scores]);
            assert(batches.len() * size == b * size + size) by (nonlinear_arith)
                requires
                    batches.len() == b + 1,
            ;
            lemma_scored(
                n as nat,
                selected@,
                before,
                seq![scores],
                size,
                start as int,
            );
            assert(are_predictions(batches, selected@, batch_size, *predict)) by {
                assert forall|x: int| 0 <= x < batches.len() implies odd_model(
                    #[trigger] batches[x],
                    batch_size,
                ) is None && is_prediction(
                    Ok::<_, EnrichmentWorkerError>(batches[x]),
                    batch(selected@, size, x),
                    *predict,
                ) by {
                    if x < b {
                        assert(batches[x] == before[x]);
                    }
                }
            }
        }
        let mut row: usize = start;
        while row < end
            invariant
                start <= row <= end <= selected.len(),
                end <= start + batch_size,
                start == b * size,
                0 <= b,
                size == batch_size,
                batch_size > 0,
                batches.len() == b + 1,
                batches[b] == scores,
                odd_model(scores, batch_size) is None,
                results@.len() == n,
                forall|x: int| 0 <= x < selected@.len() ==> (#[trigger] selected@[x]).item < n,
                results@ == scored(n as nat, selected@, batches, size, row as int),
            decreases end - row,
        {
            let at: usize = row - start;
            proof {
                assert(row as int / size == b && row as int % size == at) by (nonlinear_arith)
                    requires
                        row == b * size + at,
                        0 <= at < size,
                        b >= 0,
                ;
            }
            let item: usize = selected[row].item;
            results.set(
                item,
                Some(
                    ZtfAlertClassifications {
                        acai_h: scores.acai_h[at],
                        acai_n: scores.acai_n[at],
                        acai_v: scores.acai_v[at],
                        acai_o: scores.acai_o[at],
                        acai_b: scores.acai_b[at],
                        btsbot: scores.btsbot[at],
                    },
                ),
            );
            row = row + 1;
        }
        start = end;
    }
    Ok(results)
}

/// An alert that all features were computed for gets the scores of its own row, and every
/// other alert none.
pub proof fn law_each_alert_gets_its_own_scores(
    n: nat,
    triplet: Map<usize, usize>,
    acai: Map<usize, usize>,
    btsbot: Map<usize, usize>,
    batches: Seq<ModelScores>,
    size: int,
    k: int,
    item: int,
)
    requires
        n <= usize::MAX,
        0 <= k <= rows(n as int, triplet, acai, btsbot).len(),
        0 <= item < n,
    ensures
        ({
            let selected = rows(n as int, triplet, acai, btsbot);
            let out = scored(n, selected, batches, size, k);
            &&& out.len() == n
            &&& forall|p: int|
                0 <= p < k && (#[trigger] selected[p]).item == item ==> out[item] == Some(
                    scores_at(batches[p / size], p % size),
                )
            &&& (forall|p: int| 0 <= p < k ==> (#[trigger] selected[p]).item != item) ==> out[item]
                is None
        }),
    decreases k,
{
    lemma_rows(n as int, triplet, acai, btsbot);
    if k > 0 {
        law_each_alert_gets_its_own_scores(n, triplet, acai, btsbot, batches, size, k - 1, item);
        let selected = rows(n as int, triplet, acai, btsbot);
        let before = scored(n, selected, batches, size, k - 1);
        let out = scored(n, selected, batches, size, k);
        if selected[k - 1].item == item {
            assert forall|p: int| 0 <= p < k && (#[trigger] selected[p]).item
                == item implies out[item] == Some(scores_at(batches[p / size], p % size)) by {
                if p < k - 1 {
                    assert(selected[p].item < selected[k - 1].item);
                }
            }
        } else {
            assert(out[item] == before[item]);
        }
    }
}

/// What came of the classification of a single alert.
pub enum Outcome {
    /// The cutouts could not be used.
    InvalidCutouts,
    /// Features are missing.
    MissingFeatures,
    Scores(ModelScores),
    /// A model failed.
    Failed(String),
}

/// Each model returned a score.
pub open spec fn has_scores(s: ModelScores) -> bool {
    s.acai_h.len() > 0 && s.acai_n.len() > 0 && s.acai_v.len() > 0 && s.acai_o.len() > 0
        && s.acai_b.len() > 0 && s.btsbot.len() > 0
}

/// The classification of an alert, where it has one.
pub open spec fn classification(o: Outcome) -> Option<ZtfAlertClassifications> {
    match o {
        Outcome::Scores(s) => Some(scores_at(s, 0)),
        _ => None,
    }
}

/// No model failed before the `k`-th alert.
pub open spec fn none_failed(outcomes: Seq<Outcome>, k: int) -> bool {
    forall|i: int| 0 <= i < k ==> !((#[trigger] outcomes[i]) is Failed)
}

/// Classify alerts one by one, from what came of each. An alert whose cutouts or features
/// cannot be used is not classified; a model that fails ends the batch.
pub fn classify_per_item(outcomes: &Vec<Outcome>) -> (r: Result<
    Vec<Option<ZtfAlertClassifications>>,
    EnrichmentWorkerError,
>)
    requires
        forall|i: int|
            0 <= i < outcomes@.len() && none_failed(outcomes@, i) ==> match #[trigger] outcomes@[i] {
                Outcome::Scores(s) => has_scores(s),
                _ => true,
            },
    ensures
        match r {
            Ok(out) => none_failed(outcomes@, outcomes@.len() as int) && out@
                == outcomes@.map_values(|o: Outcome| classification(o)),
            Err(e) => exists|i: int|
                0 <= i < outcomes@.len() && none_failed(outcomes@, i) && match #[trigger] outcomes@[i] {
                    Outcome::Failed(why) => e == EnrichmentWorkerError::Service(why),
                    _ => false,
                },
        },
{
    let mut out: Vec<Option<ZtfAlertClassifications>> = Vec::new();
    let mut i: usize = 0;
    while i < outcomes.len()
        invariant
            i <= outcomes.len(),
            none_failed(outcomes@, i as int),
            forall|k: int|
                0 <= k < outcomes@.len() && none_failed(outcomes@, k) ==> match #[trigger] outcomes@[k] {
                    Outcome::Scores(s) => has_scores(s),
                    _ => true,
                },
            out@ =~= outcomes@.take(i as int).map_values(|o: Outcome| classification(o)),
        decreases outcomes.len() - i,
    {
        match &outcomes[i] {
            Outcome::Scores(s) => {
                assert(has_scores(*s));
                out.push(
                    Some(
                        ZtfAlertClassifications {
                            acai_h: s.acai_h[0],
                            acai_n: s.acai_n[0],
                            acai_v: s.acai_v[0],
                            acai_o: s.acai_o[0],
                            acai_b: s.acai_b[0],
                            btsbot: s.btsbot[0],
                        },
                    ),
                );
            },
            Outcome::Failed(why) => {
                assert(outcomes@[i as int] is Failed);
                return Err(EnrichmentWorkerError::Service(why.clone()));
            },
            _ => {
                out.push(None);
            },
        }
        i = i + 1;
    }
    assert(outcomes@.take(i as int) =~= outcomes@);
    Ok(out)
}

} // verus!
