//! What holds of classifications: whose scores an alert gets, and of which models.

use crate::enrichment::alert::ZtfAlertClassifications;
use crate::enrichment::classify;
use crate::enrichment::classify::{ModelScores, Outcome, Row};
use crate::utils::double::Double;
use crate::utils::text;
use vstd::prelude::*;

verus! {

/// The scores of the model of a name.
pub open spec fn scores_of(s: ModelScores, model: Seq<char>) -> Seq<Double> {
    if model == "acai_h"@ {
        s.acai_h@
    } else if model == "acai_n"@ {
        s.acai_n@
    } else if model == "acai_v"@ {
        s.acai_v@
    } else if model == "acai_o"@ {
        s.acai_o@
    } else if model == "acai_b"@ {
        s.acai_b@
    } else {
        s.btsbot@
    }
}

/// The score of an alert by the model of a name.
pub open spec fn score_of(c: ZtfAlertClassifications, model: Seq<char>) -> Double {
    if model == "acai_h"@ {
        c.acai_h
    } else if model == "acai_n"@ {
        c.acai_n
    } else if model == "acai_v"@ {
        c.acai_v
    } else if model == "acai_o"@ {
        c.acai_o
    } else if model == "acai_b"@ {
        c.acai_b
    } else {
        c.btsbot
    }
}

/// The models that classify alerts.
pub open spec fn is_model(name: Seq<char>) -> bool {
    name == "acai_h"@ || name == "acai_n"@ || name == "acai_v"@ || name == "acai_o"@ || name
        == "acai_b"@ || name == "btsbot"@
}

/// The score of an alert by each model is the one that this very model gave it.
pub proof fn law_scores_are_those_of_their_model(s: ModelScores, i: int, model: Seq<char>)
    ensures
        score_of(classify::scores_at(s, i), model) == scores_of(s, model)[i],
{
}

/// An alert that was scored by itself has the first score of each model; one whose cutouts or
/// features are missing has none.
pub proof fn law_single_alerts_have_the_first_scores(o: Outcome, model: Seq<char>)
    ensures
        classify::classification(o) is Some <==> o is Scores,
        o matches Outcome::Scores(s) ==> score_of(classify::classification(o)->0, model)
            == scores_of(s, model)[0],
{
}

pub proof fn lemma_rows(
    n: int,
    triplet: Map<usize, usize>,
    acai: Map<usize, usize>,
    btsbot: Map<usize, usize>,
)
    requires
        0 <= n <= usize::MAX,
    ensures
        ({
            let all = classify::rows(n, triplet, acai, btsbot);
            &&& all.len() <= n
            &&& forall|p: int|
                0 <= p < all.len() ==> {
                    let row = #[trigger] all[p];
                    &&& row.item < n
                    &&& triplet.contains_key(row.item) && row.triplet == triplet[row.item]
                    &&& acai.contains_key(row.item) && row.acai == acai[row.item]
                    &&& btsbot.contains_key(row.item) && row.btsbot == btsbot[row.item]
                }
            &&& forall|p: int, q: int|
                0 <= p < q < all.len() ==> (#[trigger] all[p]).item < (#[trigger] all[q]).item
        }),
    decreases n,
{
    if n > 0 {
        lemma_rows(n - 1, triplet, acai, btsbot);
    }
}

/// A row is an alert with the places of its own cutouts and of its own features for either
/// family of models, and rows follow the order of the alerts.
pub proof fn law_rows_belong_to_their_alert(
    n: int,
    triplet: Map<usize, usize>,
    acai: Map<usize, usize>,
    btsbot: Map<usize, usize>,
    p: int,
    q: int,
)
    requires
        0 <= n <= usize::MAX,
        0 <= p < q < classify::rows(n, triplet, acai, btsbot).len(),
    ensures
        ({
            let all = classify::rows(n, triplet, acai, btsbot);
            &&& all[p].item < all[q].item < n
            &&& triplet.contains_key(all[p].item) && all[p].triplet == triplet[all[p].item]
            &&& acai.contains_key(all[p].item) && all[p].acai == acai[all[p].item]
            &&& btsbot.contains_key(all[p].item) && all[p].btsbot == btsbot[all[p].item]
            &&& triplet.contains_key(all[q].item) && all[q].triplet == triplet[all[q].item]
            &&& acai.contains_key(all[q].item) && all[q].acai == acai[all[q].item]
            &&& btsbot.contains_key(all[q].item) && all[q].btsbot == btsbot[all[q].item]
        }),
{
    lemma_rows(n, triplet, acai, btsbot);
}

/// An alert has a row exactly where it has cutouts and the features of both families of models.
pub proof fn law_alerts_with_all_inputs_have_a_row(
    n: int,
    triplet: Map<usize, usize>,
    acai: Map<usize, usize>,
    btsbot: Map<usize, usize>,
    item: usize,
)
    requires
        0 <= n <= usize::MAX,
        item < n,
    ensures
        triplet.contains_key(item) && acai.contains_key(item) && btsbot.contains_key(item)
            <==> classify::rows(n, triplet, acai, btsbot).contains(
            Row {
                item,
                triplet: triplet[item],
                acai: acai[item],
                btsbot: btsbot[item],
            },
        ),
    decreases n,
{
    lemma_rows(n, triplet, acai, btsbot);
    let all = classify::rows(n, triplet, acai, btsbot);
    let row = Row {
        item,
        triplet: triplet[item],
        acai: acai[item],
        btsbot: btsbot[item],
    };
    if all.contains(row) {
        let p = choose|p: int| 0 <= p < all.len() && all[p] == row;
        assert(triplet.contains_key(all[p].item));
    }
    if triplet.contains_key(item) && acai.contains_key(item) && btsbot.contains_key(item) {
        if item == n - 1 {
            assert(all.last() == row);
            assert(all[all.len() - 1] == row);
        } else {
            law_alerts_with_all_inputs_have_a_row(n - 1, triplet, acai, btsbot, item);
            let before = classify::rows(n - 1, triplet, acai, btsbot);
            let p = choose|p: int| 0 <= p < before.len() && before[p] == row;
            assert(all[p] == row);
        }
    }
}

/// The rows are cut into batches in their order: the row `p` stands in batch `p / size`, at
/// place `p % size`, and no batch is larger than its size.
pub proof fn law_batches_follow_the_rows(selected: Seq<Row>, size: int, p: int)
    requires
        size > 0,
        0 <= p < selected.len(),
    ensures
        p % size < classify::batch(selected, size, p / size).len() <= size,
        classify::batch(selected, size, p / size)[p % size] == selected[p],
{
    let b = p / size;
    assert(p == b * size + p % size && 0 <= p % size < size) by (nonlinear_arith)
        requires
            b == p / size,
            size > 0,
    ;
    assert((b + 1) * size == b * size + size) by (nonlinear_arith);
    assert(0 <= b * size) by (nonlinear_arith)
        requires
            b == p / size,
            p >= 0,
            size > 0,
    ;
}

/// A model is refused exactly where it gave another number of scores than there were inputs,
/// and the refusal names that model and tells that number.
pub proof fn law_odd_counts_name_their_model(s: ModelScores, inputs: usize, model: Seq<char>)
    ensures
        classify::odd_model(s, inputs) is None && is_model(model) ==> scores_of(s, model).len()
            == inputs,
        classify::odd_model(s, inputs) matches Some((name, got)) ==> is_model(name) && got != inputs
            && scores_of(s, name).len() == got,
{
    reveal_strlit("acai_h");
    reveal_strlit("acai_n");
    reveal_strlit("acai_v");
    reveal_strlit("acai_o");
    reveal_strlit("acai_b");
    reveal_strlit("btsbot");
    assert("acai_h"@[5] == 'h' && "acai_n"@[5] == 'n' && "acai_v"@[5] == 'v');
    assert("acai_o"@[5] == 'o' && "acai_b"@[5] == 'b' && "btsbot"@[5] == 't');
}

/// Scores are there exactly where every model gave at least one.
pub proof fn law_scores_are_there_when_every_model_gave_one(s: ModelScores, model: Seq<char>)
    ensures
        classify::has_scores(s) && is_model(model) ==> scores_of(s, model).len() > 0,
        (forall|m: Seq<char>| is_model(m) ==> #[trigger] scores_of(s, m).len() > 0)
            ==> classify::has_scores(s),
{
    reveal_strlit("acai_h");
    reveal_strlit("acai_n");
    reveal_strlit("acai_v");
    reveal_strlit("acai_o");
    reveal_strlit("acai_b");
    reveal_strlit("btsbot");
    assert("acai_h"@[5] == 'h' && "acai_n"@[5] == 'n' && "acai_v"@[5] == 'v');
    assert("acai_o"@[5] == 'o' && "acai_b"@[5] == 'b' && "btsbot"@[5] == 't');
    assert(scores_of(s, "acai_h"@) == s.acai_h@);
    assert(scores_of(s, "acai_n"@) == s.acai_n@);
    assert(scores_of(s, "acai_v"@) == s.acai_v@);
    assert(scores_of(s, "acai_o"@) == s.acai_o@);
    assert(scores_of(s, "acai_b"@) == s.acai_b@);
    assert(scores_of(s, "btsbot"@) == s.btsbot@);
}

/// An alert that was scored in batches has, of each model, the score at the place of its own
/// row in its own batch.
pub proof fn law_alerts_have_the_scores_of_their_row(
    n: nat,
    triplet: Map<usize, usize>,
    acai: Map<usize, usize>,
    btsbot: Map<usize, usize>,
    batches: Seq<ModelScores>,
    size: int,
    p: int,
    model: Seq<char>,
)
    requires
        n <= usize::MAX,
        0 <= p < classify::rows(n as int, triplet, acai, btsbot).len(),
    ensures
        ({
            let selected = classify::rows(n as int, triplet, acai, btsbot);
            let out = classify::scored(n, selected, batches, size, selected.len() as int);
            &&& selected[p].item < out.len()
            &&& out[selected[p].item as int] matches Some(c)
            &&& score_of(c, model) == scores_of(batches[p / size], model)[p % size]
        }),
{
    let selected = classify::rows(n as int, triplet, acai, btsbot);
    lemma_rows(n as int, triplet, acai, btsbot);
    classify::law_each_alert_gets_its_own_scores(
        n,
        triplet,
        acai,
        btsbot,
        batches,
        size,
        selected.len() as int,
        selected[p].item as int,
    );
}

/// A refusal names the model first, then how many scores it gave, then how many inputs it had.
pub proof fn law_refusals_tell_the_counts(name: Seq<char>, got: usize, inputs: usize)
    ensures
        classify::odd_count_text(name, got, inputs) == "model "@ + name + " returned "@
            + text::decimal(got as nat) + " scores for "@ + text::decimal(inputs as nat)
            + " padded inputs"@,
{
}

} // verus!
