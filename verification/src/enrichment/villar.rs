//! Fits of light curves with the Villar model.

use crate::enrichment::photometry::PhotometryMag;
use crate::enrichment::worker;
use crate::enrichment::worker::{set_fields, Update, UpdateView};
use crate::utils::bson_doc;
use crate::utils::bson_doc::{double_value, insert, single, Content};
use crate::utils::double::Double;
use crate::utils::lists::reversed;
use crate::utils::text;
use vstd::prelude::*;
use vstd::string::*;

verus! {

/// The bands that light curves are fitted in.
#[derive(Debug, Clone, Copy, PartialEq, Eq, Structural)]
pub enum VillarBand {
    G,
    R,
}

/// A point of a light curve in one of the bands that are fitted.
#[derive(Debug, Clone, Copy, PartialEq, Eq, Structural)]
pub struct VillarPhotometry {
    pub time: Double,
    pub mag: Double,
    pub mag_err: Double,
    pub band: VillarBand,
}

/// The band that goes by this letter, where it is fitted.
pub open spec fn fitted_band(band: Seq<char>) -> Option<VillarBand> {
    if band == "g"@ {
        Some(VillarBand::G)
    } else if band == "r"@ {
        Some(VillarBand::R)
    } else {
        None
    }
}

/// A point as it is fitted, where its band is.
pub open spec fn fitted_point(p: PhotometryMag) -> Option<VillarPhotometry> {
    match fitted_band(p.band@) {
        Some(band) => Some(
            VillarPhotometry { time: p.time, mag: p.mag, mag_err: p.mag_err, band },
        ),
        None => None,
    }
}

/// A point as it is fitted. Points in other bands than g and r are not.
pub fn to_villar_photometry(p: &PhotometryMag) -> (r: Option<VillarPhotometry>)
    ensures
        r == fitted_point(*p),
{
    let band = if text::same_text(p.band.as_str(), "g") {
        VillarBand::G
    } else if text::same_text(p.band.as_str(), "r") {
        VillarBand::R
    } else {
        return None;
    };
    Some(VillarPhotometry { time: p.time, mag: p.mag, mag_err: p.mag_err, band })
}

/// The points of a light curve that are fitted, in their order.
pub open spec fn fitted_points(curve: Seq<PhotometryMag>) -> Seq<VillarPhotometry>
    decreases curve.len(),
{
    if curve.len() == 0 {
        Seq::empty()
    } else {
        match fitted_point(curve.last()) {
            Some(p) => fitted_points(curve.drop_last()).push(p),
            None => fitted_points(curve.drop_last()),
        }
    }
}

/// The points of a light curve that are fitted, in their order.
pub fn villar_lightcurve(curve: &Vec<PhotometryMag>) -> (r: Vec<VillarPhotometry>)
    ensures
        r@ == fitted_points(curve@),
{
    let mut out: Vec<VillarPhotometry> = Vec::new();
    let mut i: usize = 0;
    while i < curve.len()
        invariant
            i <= curve.len(),
            out@ == fitted_points(curve@.take(i as int)),
        decreases curve.len() - i,
    {
        assert(curve@.take(i + 1).drop_last() =~= curve@.take(i as int));
        if let Some(p) = to_villar_photometry(&curve[i]) {
            out.push(p);
        }
        i = i + 1;
    }
    assert(curve@.take(i as int) =~= curve@);
    out
}

/// The candids whose light curves could not be prepared for a fit, in order.
pub open spec fn unfittable<D>(inputs: Seq<(i64, Option<D>)>) -> Seq<i64>
    decreases inputs.len(),
{
    if inputs.len() == 0 {
        Seq::empty()
    } else {
        match inputs.last().1 {
            Some(_) => unfittable(inputs.drop_last()),
            None => unfittable(inputs.drop_last()).push(inputs.last().0),
        }
    }
}

/// The candids whose light curves were prepared for a fit, with what was prepared, in order.
pub open spec fn fittable<D>(inputs: Seq<(i64, Option<D>)>) -> Seq<(i64, D)>
    decreases inputs.len(),
{
    if inputs.len() == 0 {
        Seq::empty()
    } else {
        match inputs.last().1 {
            Some(d) => fittable(inputs.drop_last()).push((inputs.last().0, d)),
            None => fittable(inputs.drop_last()),
        }
    }
}

/// Part the light curves that can be fitted from those that cannot. `inputs` holds each
/// candid with what its light curve was prepared to, where that was possible.
pub fn part_fittable<D>(inputs: Vec<(i64, Option<D>)>) -> (r: (Vec<i64>, Vec<i64>, Vec<D>))
    ensures
        r.0@ == unfittable(inputs@),
        r.1@ == fittable(inputs@).map_values(|p: (i64, D)| p.0),
        r.2@ == fittable(inputs@).map_values(|p: (i64, D)| p.1),
{
    let ghost all = inputs@;
    let mut left = reversed(inputs);
    let mut failed: Vec<i64> = Vec::new();
    let mut candids: Vec<i64> = Vec::new();
    let mut prepared: Vec<D> = Vec::new();
    let ghost mut k: int = 0;
    let ghost first = |p: (i64, D)| p.0;
    let ghost second = |p: (i64, D)| p.1;
    proof {
        assert(all.skip(0) =~= all);
        assert(candids@ =~= fittable(all.take(0)).map_values(first));
        assert(prepared@ =~= fittable(all.take(0)).map_values(second));
    }
    while left.len() > 0
        invariant
            0 <= k,
            left@.len() + k == all.len(),
            left@ == all.skip(k).reverse(),
            first == (|p: (i64, D)| p.0) && second == (|p: (i64, D)| p.1),
            failed@ == unfittable(all.take(k)),
            candids@ == fittable(all.take(k)).map_values(first),
            prepared@ == fittable(all.take(k)).map_values(second),
        decreases left.len(),
    {
        if let Some((candid, outcome)) = left.pop() {
            let ghost before = fittable(all.take(k));
            proof {
                assert((candid, outcome) == all[k]);
                assert(all.take(k + 1).drop_last() =~= all.take(k));
                assert(all.take(k + 1).last() == all[k]);
            }
            match outcome {
                Some(d) => {
                    proof {
                        let next = before.push((candid, d));
                        assert(next.map_values(first) =~= before.map_values(first).push(candid));
                        assert(next.map_values(second) =~= before.map_values(second).push(d));
                    }
                    candids.push(candid);
                    prepared.push(d);
                },
                None => {
                    failed.push(candid);
                },
            }
            proof {
                k = k + 1;
                assert(left@ =~= all.skip(k).reverse());
            }
        }
    }
    assert(all.take(k) =~= all);
    (failed, candids, prepared)
}

/// A fit of a light curve: its reduced chi-squared, and its parameters by name.
pub struct VillarFit {
    pub reduced_chi2: Double,
    pub params: Vec<(String, Double)>,
}

/// The names of the first `n` parameters in a band.
pub open spec fn names_in_band(params: Seq<String>, band: Seq<char>, n: int) -> Seq<Seq<char>>
    decreases n,
{
    if n <= 0 {
        Seq::empty()
    } else {
        names_in_band(params, band, n - 1).push(params[n - 1]@ + "_"@ + band)
    }
}

/// The names of the parameters in the first `n` bands.
pub open spec fn parameter_names(bands: Seq<String>, params: Seq<String>, n: int) -> Seq<Seq<char>>
    decreases n,
{
    if n <= 0 {
        Seq::empty()
    } else {
        parameter_names(bands, params, n - 1) + names_in_band(
            params,
            bands[n - 1]@,
            params.len() as int,
        )
    }
}

/// What is not a number.
pub open spec fn no_number() -> Double {
    Double { bits: 0x7ff8_0000_0000_0000 }
}

/// The names of the parameters of a fit.
pub open spec fn names_of(params: Seq<(String, Double)>) -> Seq<Seq<char>> {
    params.map_values(|p: (String, Double)| p.0@)
}

/// None of these parameters is a number.
pub open spec fn are_no_numbers(params: Seq<(String, Double)>) -> bool {
    forall|i: int| 0 <= i < params.len() ==> (#[trigger] params[i]).1 == no_number()
}

/// What is written for a light curve without a fit: each parameter in each band, and none
/// of them a number.
pub fn placeholder_fit(bands: &Vec<String>, params: &Vec<String>) -> (r: VillarFit)
    ensures
        r.reduced_chi2 == no_number(),
        names_of(r.params@) == parameter_names(bands@, params@, bands@.len() as int),
        are_no_numbers(r.params@),
{
    let nan = Double { bits: 0x7ff8_0000_0000_0000 };
    let mut out: Vec<(String, Double)> = Vec::new();
    let mut i: usize = 0;
    assert(names_of(out@) =~= parameter_names(bands@, params@, 0));
    while i < bands.len()
        invariant
            i <= bands.len(),
            nan == no_number(),
            names_of(out@) == parameter_names(bands@, params@, i as int),
            are_no_numbers(out@),
        decreases bands.len() - i,
    {
        let ghost before = names_of(out@);
        let ghost band = bands@[i as int]@;
        let mut j: usize = 0;
        assert(before + names_in_band(params@, band, 0) =~= before);
        while j < params.len()
            invariant
                i < bands.len(),
                j <= params.len(),
                nan == no_number(),
                band == bands@[i as int]@,
                names_of(out@) == before + names_in_band(params@, band, j as int),
                are_no_numbers(out@),
            decreases params.len() - j,
        {
            let ghost so_far = out@;
            let name = params[j].clone().concat("_").concat(bands[i].as_str());
            out.push((name, nan));
            proof {
                let here = names_in_band(params@, band, j as int);
                assert(names_of(out@) =~= names_of(so_far).push(name@));
                assert(names_of(out@) =~= before + here.push(name@));
            }
            j = j + 1;
        }
        i = i + 1;
    }
    VillarFit { reduced_chi2: nan, params: out }
}

/// `fields` with the first `k` parameters of a fit.
pub open spec fn with_params(
    fields: Seq<(Seq<char>, Content)>,
    params: Seq<(String, Double)>,
    k: int,
) -> Seq<(Seq<char>, Content)>
    decreases k,
{
    if k <= 0 {
        fields
    } else {
        bson_doc::with_field(
            with_params(fields, params, k - 1),
            "villar_fit."@ + params[k - 1].0@,
            Content::Double(params[k - 1].1.bits),
        )
    }
}

/// What is set for a fit.
pub open spec fn fit_fields(fit: VillarFit) -> Seq<(Seq<char>, Content)> {
    with_params(
        bson_doc::one("villar_fit.reduced_chi2"@, Content::Double(fit.reduced_chi2.bits)),
        fit.params@,
        fit.params@.len() as int,
    )
}

/// The update that writes a fit.
pub fn fit_update(candid: i64, fit: &VillarFit) -> (r: Update)
    ensures
        r@ == worker::setting(candid, fit_fields(*fit)),
{
    let mut d = single("villar_fit.reduced_chi2", double_value(fit.reduced_chi2));
    let ghost base = bson_doc::document_fields(d);
    let mut i: usize = 0;
    while i < fit.params.len()
        invariant
            i <= fit.params.len(),
            bson_doc::document_fields(d) == with_params(base, fit.params@, i as int),
        decreases fit.params.len() - i,
    {
        let key = "villar_fit.".to_owned().concat(fit.params[i].0.as_str());
        insert(&mut d, key.as_str(), double_value(fit.params[i].1));
        i = i + 1;
    }
    set_fields(candid, d)
}

/// The names of fields, in order.
pub open spec fn field_names(fields: Seq<(Seq<char>, Content)>) -> Seq<Seq<char>> {
    fields.map_values(|f: (Seq<char>, Content)| f.0)
}

proof fn lemma_field_names(
    one: Seq<(Seq<char>, Content)>,
    two: Seq<(Seq<char>, Content)>,
    key: Seq<char>,
    a: Content,
    b: Content,
)
    requires
        field_names(one) == field_names(two),
    ensures
        field_names(bson_doc::with_field(one, key, a)) == field_names(
            bson_doc::with_field(two, key, b),
        ),
    decreases one.len(),
{
    let x = bson_doc::with_field(one, key, a);
    let y = bson_doc::with_field(two, key, b);
    assert(one.len() == field_names(one).len() && two.len() == field_names(two).len());
    if one.len() > 0 {
        assert(field_names(one)[0] == one[0].0 && field_names(two)[0] == two[0].0);
        let p = one.drop_first();
        let q = two.drop_first();
        assert(field_names(p) =~= field_names(one).drop_first());
        assert(field_names(q) =~= field_names(two).drop_first());
        if one[0].0 == key {
            assert(field_names(x) =~= seq![key] + field_names(p));
            assert(field_names(y) =~= seq![key] + field_names(q));
        } else {
            lemma_field_names(p, q, key, a, b);
            assert(field_names(x) =~= seq![one[0].0] + field_names(
                bson_doc::with_field(p, key, a),
            ));
            assert(field_names(y) =~= seq![two[0].0] + field_names(
                bson_doc::with_field(q, key, b),
            ));
        }
    } else {
        assert(field_names(x) =~= field_names(y));
    }
}

proof fn lemma_param_names(
    one: Seq<(Seq<char>, Content)>,
    two: Seq<(Seq<char>, Content)>,
    a: Seq<(String, Double)>,
    b: Seq<(String, Double)>,
    k: int,
)
    requires
        field_names(one) == field_names(two),
        names_of(a) == names_of(b),
        0 <= k <= a.len(),
    ensures
        field_names(with_params(one, a, k)) == field_names(with_params(two, b, k)),
    decreases k,
{
    if k > 0 {
        lemma_param_names(one, two, a, b, k - 1);
        assert(names_of(a).len() == a.len() && names_of(b).len() == b.len());
        assert(names_of(a)[k - 1] == a[k - 1].0@ && names_of(b)[k - 1] == b[k - 1].0@);
        lemma_field_names(
            with_params(one, a, k - 1),
            with_params(two, b, k - 1),
            "villar_fit."@ + a[k - 1].0@,
            Content::Double(a[k - 1].1.bits),
            Content::Double(b[k - 1].1.bits),
        );
    }
}

/// Consumers see one schema: two fits with the same parameters, such as a fit and its
/// placeholder, are written under the same keys.
pub proof fn law_fits_have_one_schema(fit: VillarFit, other: VillarFit)
    requires
        names_of(fit.params@) == names_of(other.params@),
    ensures
        field_names(fit_fields(fit)) == field_names(fit_fields(other)),
{
    let one = bson_doc::no_fields();
    let key = "villar_fit.reduced_chi2"@;
    let a = Content::Double(fit.reduced_chi2.bits);
    let b = Content::Double(other.reduced_chi2.bits);
    assert(names_of(fit.params@).len() == fit.params@.len());
    assert(names_of(other.params@).len() == other.params@.len());
    lemma_field_names(one, one, key, a, b);
    lemma_param_names(
        bson_doc::one(key, a),
        bson_doc::one(key, b),
        fit.params@,
        other.params@,
        fit.params@.len() as int,
    );
}

/// `update` writes a fit of an alert, where there is one, and the placeholder where there is
/// none.
pub open spec fn is_fit_update(
    update: UpdateView,
    candid: i64,
    fit: Option<VillarFit>,
    placeholder: VillarFit,
) -> bool {
    update == worker::setting(
        candid,
        match fit {
            Some(f) => fit_fields(f),
            None => fit_fields(placeholder),
        },
    )
}

/// The updates that write fits: first of the alerts whose light curves could not be fitted,
/// then of the others. Where the fitting of the batch failed, `fits` is `None` and all of
/// them get the placeholder, which has the same keys as a fit, so that consumers see one
/// schema.
pub fn villar_updates(
    unfittable: &Vec<i64>,
    fittable: &Vec<i64>,
    fits: Option<&Vec<VillarFit>>,
    placeholder: &VillarFit,
) -> (r: Vec<Update>)
    ensures
        r@.len() == unfittable@.len() + match fits {
            Some(f) => if f@.len() < fittable@.len() {
                f@.len()
            } else {
                fittable@.len()
            },
            None => fittable@.len(),
        },
        forall|i: int|
            0 <= i < unfittable@.len() ==> is_fit_update(
                (#[trigger] r@[i])@,
                unfittable@[i],
                None,
                *placeholder,
            ),
        forall|i: int|
            unfittable@.len() <= i < r@.len() ==> is_fit_update(
                (#[trigger] r@[i])@,
                fittable@[i - unfittable@.len()],
                match fits {
                    Some(f) => Some(f@[i - unfittable@.len()]),
                    None => None,
                },
                *placeholder,
            ),
{
    let mut out: Vec<Update> = Vec::new();
    let mut i: usize = 0;
    while i < unfittable.len()
        invariant
            i <= unfittable.len(),
            out@.len() == i,
            forall|k: int|
                0 <= k < i ==> is_fit_update(
                    (#[trigger] out@[k])@,
                    unfittable@[k],
                    None,
                    *placeholder,
                ),
        decreases unfittable.len() - i,
    {
        out.push(fit_update(unfittable[i], placeholder));
        i = i + 1;
    }
    let n: usize = match fits {
        Some(f) => if f.len() < fittable.len() {
            f.len()
        } else {
            fittable.len()
        },
        None => fittable.len(),
    };
    let mut j: usize = 0;
    while j < n
        invariant
            j <= n <= fittable.len(),
            fits matches Some(f) ==> n <= f@.len(),
            out@.len() == unfittable@.len() + j,
            forall|k: int|
                0 <= k < unfittable@.len() ==> is_fit_update(
                    (#[trigger] out@[k])@,
                    unfittable@[k],
                    None,
                    *placeholder,
                ),
            forall|k: int|
                unfittable@.len() <= k < out@.len() ==> is_fit_update(
                    (#[trigger] out@[k])@,
                    fittable@[k - unfittable@.len()],
                    match fits {
                        Some(f) => Some(f@[k - unfittable@.len()]),
                        None => None,
                    },
                    *placeholder,
                ),
        decreases n - j,
    {
        let update = match fits {
            Some(f) => fit_update(fittable[j], &f[j]),
            None => fit_update(fittable[j], placeholder),
        };
        out.push(update);
        j = j + 1;
    }
    out
}

} // verus!
