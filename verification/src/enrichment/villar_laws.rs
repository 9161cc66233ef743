//! What holds of light-curve fits: what is fitted, and how it is stored.

use crate::enrichment::photometry::PhotometryMag;
use crate::enrichment::villar;
use crate::enrichment::villar::{VillarBand, VillarFit, VillarPhotometry};
use crate::utils::bson_doc;
use crate::utils::bson_doc::Content;
use crate::utils::double;
use crate::utils::double::Double;
use crate::utils::stage_laws;
use vstd::prelude::*;

verus! {

/// `v` is the point `p` of a light curve, in the same band.
pub open spec fn is_same_point(v: VillarPhotometry, p: PhotometryMag) -> bool {
    &&& v.time == p.time && v.mag == p.mag && v.mag_err == p.mag_err
    &&& v.band == VillarBand::G ==> p.band@ == "g"@
    &&& v.band == VillarBand::R ==> p.band@ == "r"@
}

/// What is fitted are the points in g and in r, as they are and in their order, and no others.
pub proof fn law_green_and_red_points_are_fitted(curve: Seq<PhotometryMag>, v: VillarPhotometry)
    ensures
        villar::fitted_points(curve).contains(v) <==> exists|i: int|
            0 <= i < curve.len() && is_same_point(v, #[trigger] curve[i]),
        villar::fitted_points(curve) == curve.filter(
            |p: PhotometryMag| p.band@ == "g"@ || p.band@ == "r"@,
        ).map_values(
            |p: PhotometryMag|
                VillarPhotometry {
                    time: p.time,
                    mag: p.mag,
                    mag_err: p.mag_err,
                    band: if p.band@ == "g"@ {
                        VillarBand::G
                    } else {
                        VillarBand::R
                    },
                },
        ),
    decreases curve.len(),
{
    reveal(Seq::filter);
    reveal_strlit("g");
    reveal_strlit("r");
    assert("g"@[0] == 'g' && "r"@[0] == 'r');
    let all = villar::fitted_points(curve);
    if curve.len() > 0 {
        let front = curve.drop_last();
        let before = villar::fitted_points(front);
        law_green_and_red_points_are_fitted(front, v);
        assert(curve[curve.len() - 1] == curve.last());
        let last = villar::fitted_point(curve.last());
        if before.contains(v) {
            let k = choose|k: int| 0 <= k < before.len() && before[k] == v;
            assert(all[k] == v);
            let i = choose|i: int| 0 <= i < front.len() && is_same_point(v, #[trigger] front[i]);
            assert(curve[i] == front[i]);
        }
        if last == Some(v) {
            assert(all[before.len() as int] == v);
            assert(is_same_point(v, curve[curve.len() - 1]));
        }
        if all.contains(v) && !before.contains(v) {
            let k = choose|k: int| 0 <= k < all.len() && all[k] == v;
            if k < before.len() {
                assert(before[k] == v);
            }
        }
        if exists|i: int| 0 <= i < curve.len() && is_same_point(v, #[trigger] curve[i]) {
            let i = choose|i: int| 0 <= i < curve.len() && is_same_point(v, #[trigger] curve[i]);
            if i < front.len() {
                assert(front[i] == curve[i]);
            } else {
                assert(last == Some(v));
            }
        }
    }
}

/// Every alert is either fitted, with its own light curve, or is not, for want of one.
pub proof fn law_every_alert_is_fitted_or_not<D>(
    inputs: Seq<(i64, Option<D>)>,
    candid: i64,
    d: D,
)
    ensures
        villar::fittable(inputs).contains((candid, d)) <==> inputs.contains((candid, Some(d))),
        villar::unfittable(inputs).contains(candid) <==> inputs.contains((candid, None)),
        villar::fittable(inputs).len() + villar::unfittable(inputs).len() == inputs.len(),
    decreases inputs.len(),
{
    if inputs.len() > 0 {
        let front = inputs.drop_last();
        law_every_alert_is_fitted_or_not(front, candid, d);
        let last = inputs.last();
        assert(inputs[inputs.len() - 1] == last);
        let a = villar::fittable(inputs);
        let b = villar::fittable(front);
        let x = villar::unfittable(inputs);
        let y = villar::unfittable(front);
        if b.contains((candid, d)) {
            let k = choose|k: int| 0 <= k < b.len() && b[k] == (candid, d);
            assert(a[k] == (candid, d));
            let i = choose|i: int| 0 <= i < front.len() && front[i] == (candid, Some(d));
            assert(inputs[i] == front[i]);
        }
        if y.contains(candid) {
            let k = choose|k: int| 0 <= k < y.len() && y[k] == candid;
            assert(x[k] == candid);
            let i = choose|i: int| 0 <= i < front.len() && front[i] == (candid, None::<D>);
            assert(inputs[i] == front[i]);
        }
        if last == (candid, Some(d)) {
            assert(a[b.len() as int] == (candid, d));
        }
        if last == (candid, None::<D>) {
            assert(x[y.len() as int] == candid);
        }
        if a.contains((candid, d)) && !b.contains((candid, d)) {
            let k = choose|k: int| 0 <= k < a.len() && a[k] == (candid, d);
            if k < b.len() {
                assert(b[k] == (candid, d));
            }
        }
        if x.contains(candid) && !y.contains(candid) {
            let k = choose|k: int| 0 <= k < x.len() && x[k] == candid;
            if k < y.len() {
                assert(y[k] == candid);
            }
        }
        if inputs.contains((candid, Some(d))) {
            let i = choose|i: int| 0 <= i < inputs.len() && inputs[i] == (candid, Some(d));
            if i < front.len() {
                assert(front[i] == inputs[i]);
            }
        }
        if inputs.contains((candid, None)) {
            let i = choose|i: int| 0 <= i < inputs.len() && inputs[i] == (candid, None::<D>);
            if i < front.len() {
                assert(front[i] == inputs[i]);
            }
        }
    }
}

proof fn lemma_params(
    fields: Seq<(Seq<char>, Content)>,
    params: Seq<(String, Double)>,
    k: int,
    key: Seq<char>,
)
    requires
        0 <= k <= params.len(),
    ensures
        (forall|i: int| 0 <= i < k ==> "villar_fit."@ + (#[trigger] params[i]).0@ != key)
            ==> bson_doc::lookup(villar::with_params(fields, params, k), key) == bson_doc::lookup(
            fields,
            key,
        ),
        forall|i: int|
            0 <= i < k && "villar_fit."@ + (#[trigger] params[i]).0@ == key && (forall|j: int|
                i < j < k ==> "villar_fit."@ + (#[trigger] params[j]).0@ != key)
                ==> bson_doc::lookup(villar::with_params(fields, params, k), key) == Some(
                Content::Double(params[i].1.bits),
            ),
    decreases k,
{
    if k > 0 {
        lemma_params(fields, params, k - 1, key);
        bson_doc::law_reads_give_back_writes(
            villar::with_params(fields, params, k - 1),
            "villar_fit."@ + params[k - 1].0@,
            Content::Double(params[k - 1].1.bits),
            key,
        );
    }
}

/// A fit is stored parameter by parameter, each under its own name behind `villar_fit.`, with
/// its own value.
pub proof fn law_fits_are_stored_by_name(fit: VillarFit, i: int)
    requires
        0 <= i < fit.params@.len(),
        forall|j: int, k: int|
            0 <= j < k < fit.params@.len() ==> (#[trigger] fit.params@[j]).0@ != (
            #[trigger] fit.params@[k]).0@,
    ensures
        bson_doc::lookup(villar::fit_fields(fit), "villar_fit."@ + fit.params@[i].0@) == Some(
            Content::Double(fit.params@[i].1.bits),
        ),
{
    let p = fit.params@;
    let key = "villar_fit."@ + p[i].0@;
    assert forall|j: int| i < j < p.len() implies "villar_fit."@ + (#[trigger] p[j]).0@ != key by {
        let a = "villar_fit."@ + p[j].0@;
        let n = "villar_fit."@.len() as int;
        if a == key {
            assert(a.skip(n) =~= p[j].0@);
            assert(key.skip(n) =~= p[i].0@);
        }
    }
    lemma_params(
        bson_doc::one("villar_fit.reduced_chi2"@, Content::Double(fit.reduced_chi2.bits)),
        p,
        p.len() as int,
        key,
    );
}

/// The goodness of a fit is stored with it, as `reduced_chi2`, where no parameter has that
/// name.
pub proof fn law_the_goodness_of_fits_is_stored(fit: VillarFit)
    requires
        forall|i: int|
            0 <= i < fit.params@.len() ==> (#[trigger] fit.params@[i]).0@ != "reduced_chi2"@,
    ensures
        bson_doc::lookup(villar::fit_fields(fit), "villar_fit."@ + "reduced_chi2"@) == Some(
            Content::Double(fit.reduced_chi2.bits),
        ),
{
    reveal_strlit("villar_fit.");
    reveal_strlit("reduced_chi2");
    reveal_strlit("villar_fit.reduced_chi2");
    assert("villar_fit."@ + "reduced_chi2"@ =~= "villar_fit.reduced_chi2"@);
    let key = "villar_fit.reduced_chi2"@;
    let p = fit.params@;
    assert forall|i: int| 0 <= i < p.len() implies "villar_fit."@ + (#[trigger] p[i]).0@
        != key by {
        let a = "villar_fit."@ + p[i].0@;
        let n = "villar_fit."@.len() as int;
        if a == key {
            assert(a.skip(n) =~= p[i].0@);
            assert(key.skip(n) =~= "reduced_chi2"@);
        }
    }
    let v = Content::Double(fit.reduced_chi2.bits);
    stage_laws::law_one_field(key, v, key);
    lemma_params(bson_doc::one(key, v), p, p.len() as int, key);
}

proof fn lemma_names_in_band(params: Seq<String>, band: Seq<char>, n: int, i: int)
    requires
        0 <= n <= params.len(),
    ensures
        villar::names_in_band(params, band, n).len() == n,
        0 <= i < n ==> villar::names_in_band(params, band, n)[i] == params[i]@ + "_"@ + band,
    decreases n,
{
    if n > 0 {
        lemma_names_in_band(params, band, n - 1, i);
    }
}

/// A fit has every parameter in every band: band after band, and in each of them the
/// parameters in their order, each named by the parameter, an underscore and the band.
pub proof fn law_fits_have_every_parameter_in_every_band(
    bands: Seq<String>,
    params: Seq<String>,
    n: int,
    b: int,
    i: int,
)
    requires
        0 <= n <= bands.len(),
    ensures
        villar::parameter_names(bands, params, n).len() == n * params.len(),
        0 <= b < n && 0 <= i < params.len() ==> 0 <= b * params.len() + i < n * params.len()
            && villar::parameter_names(bands, params, n)[b * params.len() + i] == params[i]@ + "_"@
            + bands[b]@,
    decreases n,
{
    let m = params.len() as int;
    if n > 0 {
        law_fits_have_every_parameter_in_every_band(bands, params, n - 1, b, i);
        lemma_names_in_band(params, bands[n - 1]@, m, i);
        assert(n * m == (n - 1) * m + m) by (nonlinear_arith);
        if 0 <= b < n - 1 && 0 <= i < m {
            assert(b * m + m <= (n - 1) * m) by (nonlinear_arith)
                requires
                    b <= n - 2,
                    m >= 0,
            ;
        }
        if 0 <= b < n && 0 <= i < m {
            assert(0 <= b * m) by (nonlinear_arith)
                requires
                    b >= 0,
                    m >= 0,
            ;
        }
    } else {
        assert(n * m == 0) by (nonlinear_arith)
            requires
                n == 0,
        ;
    }
}

/// What was not fitted is no number.
pub proof fn law_what_was_not_fitted_is_no_number(params: Seq<(String, Double)>, i: int)
    requires
        villar::are_no_numbers(params),
        0 <= i < params.len(),
    ensures
        double::is_nan(params[i].1),
        params[i].1 == villar::no_number(),
        villar::no_number().bits == 0x7ff8_0000_0000_0000,
{
}

} // verus!
