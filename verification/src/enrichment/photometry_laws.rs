//! What holds of photometry: which points become magnitudes, and what of a stored point is
//! kept.

use crate::enrichment::photometry;
use crate::enrichment::photometry::{
    EnrichmentWorkerError, ZtfAlertPhotometry, ZtfForcedPhotometry, ZtfPhotometry,
};
use crate::utils::double;
use crate::utils::double::Double;
use crate::utils::double_laws;
use vstd::prelude::*;

verus! {

/// The number without its sign.
pub open spec fn strength(s: Double) -> Double {
    Double { bits: s.bits % 0x8000_0000_0000_0000 }
}

/// A point has a magnitude, its uncertainty and a signal-to-noise.
pub open spec fn is_complete(p: ZtfPhotometry) -> bool {
    p.magpsf is Some && p.sigmapsf is Some && p.snr_psf is Some
}

/// A point becomes a magnitude exactly where it is complete and its signal is not weaker than
/// the threshold, whatever its sign; without a threshold every complete point does.
pub proof fn law_points_are_kept_by_their_strength(p: ZtfPhotometry, t: Double)
    ensures
        photometry::photometry_mag(p, None) is Some <==> is_complete(p),
        photometry::photometry_mag(p, Some(t)) is Some <==> is_complete(p) && !double::lt(
            strength(p.snr_psf->0),
            t,
        ),
        is_complete(p) && double::lt(double::of_integer(0), t) && double::le(t, p.snr_psf->0)
            ==> photometry::photometry_mag(p, Some(t)) is Some,
{
    double_laws::lemma_named_numbers();
    if p.snr_psf is Some {
        assert(double::magnitude(p.snr_psf->0) as u64 == p.snr_psf->0.bits
            % 0x8000_0000_0000_0000);
    }
}

/// Whether a point is kept is the same for a signal and its negative, and a stronger signal
/// is kept where a weaker one is.
pub proof fn law_stronger_points_are_kept(
    p: ZtfPhotometry,
    q: ZtfPhotometry,
    min_snr: Option<Double>,
)
    requires
        is_complete(p) && is_complete(q),
        double::le(strength(p.snr_psf->0), strength(q.snr_psf->0)),
        photometry::photometry_mag(p, min_snr) is Some,
    ensures
        photometry::photometry_mag(q, min_snr) is Some,
{
    match min_snr {
        Some(t) => {
            law_points_are_kept_by_their_strength(p, t);
            law_points_are_kept_by_their_strength(q, t);
        },
        None => {},
    }
}

/// A kept point keeps its time, its band, and its magnitude and uncertainty in single
/// precision.
pub proof fn law_kept_points_are_the_measured_ones(p: ZtfPhotometry, min_snr: Option<Double>)
    requires
        photometry::photometry_mag(p, min_snr) is Some,
    ensures
        ({
            let m = photometry::photometry_mag(p, min_snr)->0;
            &&& m.time == p.jd
            &&& m.band@ == p.band@
            &&& m.mag == double::narrowed(p.magpsf->0)
            &&& m.mag_err == double::narrowed(p.sigmapsf->0)
        }),
{
}

/// An alert's photometry is kept field by field; where it has no signal-to-noise, the legacy
/// one takes its place.
pub proof fn law_alert_photometry_is_kept(p: ZtfAlertPhotometry)
    ensures
        ({
            let r = photometry::from_alert(p);
            &&& r.jd == p.jd && r.diffmaglim == p.diffmaglim && r.programid == p.programid
            &&& r.magpsf == p.magpsf && r.sigmapsf == p.sigmapsf
            &&& r.flux == p.flux && r.flux_err == p.flux_err
            &&& r.band@ == p.band@
            &&& r.ra == p.ra && r.dec == p.dec
            &&& p.snr_psf is Some ==> r.snr_psf == p.snr_psf
            &&& p.snr_psf is None ==> r.snr_psf == p.snr_legacy
        }),
{
}

/// A flux is missing where it is no number, or the number -99999 that stands for one.
pub proof fn law_missing_fluxes(f: Double)
    ensures
        photometry::is_measured(f) <==> !double::is_nan(f) && !double::eq(
            f,
            double::of_integer(-99_999),
        ),
{
    double_laws::lemma_named_numbers();
}

/// Forced photometry is converted exactly where it was processed with status 0, has a zero
/// point, and an uncertainty that was measured; the fluxes are scaled with that zero point,
/// and every other field is kept.
pub proof fn law_forced_photometry_is_scaled_and_kept<S: Fn(Double, Double) -> Double>(
    r: Result<ZtfPhotometry, EnrichmentWorkerError>,
    p: ZtfForcedPhotometry,
    scale: S,
)
    requires
        photometry::is_from_forced(r, p, scale),
    ensures
        r is Ok <==> {
            &&& p.procstatus is Some && p.procstatus->0@ == seq!['0']
            &&& p.magzpsci is Some
            &&& !double::is_nan(p.flux_err)
            &&& !double::eq(p.flux_err, double::of_integer(-99_999))
        },
        r matches Ok(out) ==> {
            &&& out.jd == p.jd && out.diffmaglim == p.diffmaglim && out.programid == p.programid
            &&& out.magpsf == p.magpsf && out.sigmapsf == p.sigmapsf
            &&& out.band@ == p.band@
            &&& out.ra == p.ra && out.dec == p.dec
            &&& p.snr_psf is Some ==> out.snr_psf == p.snr_psf
            &&& p.snr_psf is None ==> out.snr_psf == p.snr_legacy
            &&& scale.ensures((p.flux_err, p.magzpsci->0), out.flux_err)
            &&& out.flux is Some <==> p.flux is Some && !double::is_nan(p.flux->0) && !double::eq(
                p.flux->0,
                double::of_integer(-99_999),
            )
            &&& out.flux is Some ==> scale.ensures((p.flux->0, p.magzpsci->0), out.flux->0)
        },
        p.procstatus is None ==> r matches Err(EnrichmentWorkerError::Serialization(_)),
        p.procstatus is Some && p.procstatus->0@ != seq!['0'] ==> (r matches Err(
            EnrichmentWorkerError::BadProcstatus(status),
        ) && status@ == p.procstatus->0@),
{
    double_laws::lemma_named_numbers();
    reveal_strlit("0");
    assert("0"@ =~= seq!['0']);
}

/// A stored light curve keeps its points, each in its place; one that is not there has none.
pub proof fn law_stored_light_curves_keep_their_points(points: Seq<ZtfAlertPhotometry>, i: int)
    requires
        0 <= i < points.len(),
    ensures
        photometry::alert_lightcurve(Some(points)).len() == points.len(),
        photometry::alert_lightcurve(Some(points))[i] == photometry::from_alert(points[i]),
        photometry::alert_lightcurve(None).len() == 0,
{
}

/// Of forced photometry exactly the points that could be converted are kept, in their order.
pub proof fn law_converted_points_are_kept(
    results: Seq<Result<ZtfPhotometry, EnrichmentWorkerError>>,
)
    ensures
        photometry::converted(results) == results.filter(
            |r: Result<ZtfPhotometry, EnrichmentWorkerError>| r is Ok,
        ).map_values(|r: Result<ZtfPhotometry, EnrichmentWorkerError>| r->Ok_0),
    decreases results.len(),
{
    reveal(Seq::filter);
    let f = |r: Result<ZtfPhotometry, EnrichmentWorkerError>| r is Ok;
    let g = |r: Result<ZtfPhotometry, EnrichmentWorkerError>| r->Ok_0;
    if results.len() == 0 {
        assert(results.filter(f).map_values(g) =~= Seq::empty());
    } else {
        let front = results.drop_last();
        law_converted_points_are_kept(front);
        if results.last() is Ok {
            assert(front.filter(f).push(results.last()).map_values(g) =~= front.filter(
                f,
            ).map_values(g).push(g(results.last())));
        }
    }
}

/// Missing zero points and missing uncertainties are told from each other, the zero point
/// first.
pub proof fn law_forced_photometry_is_refused_for_a_reason<S: Fn(Double, Double) -> Double>(
    r: Result<ZtfPhotometry, EnrichmentWorkerError>,
    p: ZtfForcedPhotometry,
    scale: S,
)
    requires
        photometry::is_from_forced(r, p, scale),
        p.procstatus is Some && p.procstatus->0@ == seq!['0'],
    ensures
        p.magzpsci is None <==> r matches Err(EnrichmentWorkerError::MissingMagZPSci),
        r matches Err(EnrichmentWorkerError::MissingFluxPSF) <==> p.magzpsci is Some && (
        double::is_nan(p.flux_err) || double::eq(p.flux_err, double::of_integer(-99_999))),
{
    double_laws::lemma_named_numbers();
    reveal_strlit("0");
    assert("0"@ =~= seq!['0']);
}

/// Forced photometry without a processing status is refused for that.
pub proof fn law_forced_photometry_needs_a_status<S: Fn(Double, Double) -> Double>(
    r: Result<ZtfPhotometry, EnrichmentWorkerError>,
    p: ZtfForcedPhotometry,
    scale: S,
)
    requires
        photometry::is_from_forced(r, p, scale),
        p.procstatus is None,
    ensures
        r matches Err(EnrichmentWorkerError::Serialization(why)) && why@ == "missing procstatus"@,
{
}

/// Each point of a stored light curve is converted by itself.
pub proof fn law_points_are_converted_one_by_one<S: Fn(Double, Double) -> Double>(
    results: Seq<Result<ZtfPhotometry, EnrichmentWorkerError>>,
    stored: Seq<ZtfForcedPhotometry>,
    scale: S,
    i: int,
)
    requires
        photometry::are_from_forced(results, stored, scale),
        0 <= i < stored.len(),
    ensures
        results.len() == stored.len(),
        photometry::is_from_forced(results[i], stored[i], scale),
{
}

} // verus!
