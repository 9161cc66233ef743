//! Photometry of ZTF alerts, as the database holds it and as features are computed from it.

use crate::utils::double;
use crate::utils::double::Double;
use crate::utils::survey::Survey;
use crate::utils::text::same_text;
use vstd::prelude::*;

verus! {

/// Why an alert, or a part of it, could not be enriched.
#[derive(Debug)]
pub enum EnrichmentWorkerError {
    Serialization(String),
    BadProcstatus(String),
    MissingMagZPSci,
    MissingFluxPSF,
    MissingCutouts(i64),
    EmptyLightcurve(i64),
    ConfigurationError(String),
    WorkerConfigMissing(Survey),
    /// A failure of a service that the worker uses.
    Service(String),
}

/// Represents ZTF alert photometry data we retrieve from the database
/// (e.g. prv_candidates, prv_nondetections) and later convert to `ZtfPhotometry`
#[derive(Debug, Clone)]
pub struct ZtfAlertPhotometry {
    pub jd: Double,
    pub magpsf: Option<Double>,
    pub sigmapsf: Option<Double>,
    pub diffmaglim: Double,
    /// In nJy.
    pub flux: Option<Double>,
    /// In nJy.
    pub flux_err: Double,
    /// The band, as it is written out.
    pub band: String,
    pub ra: Option<Double>,
    pub dec: Option<Double>,
    pub snr_psf: Option<Double>,
    /// Legacy fallback for documents that pre-date the snr migration.
    pub snr_legacy: Option<Double>,
    pub programid: i32,
}

/// Represents ZTF forced photometry data we retrieve from the database
/// (e.g. fp_hists) and later convert to `ZtfPhotometry`
#[derive(Debug, Clone)]
pub struct ZtfForcedPhotometry {
    pub jd: Double,
    pub magpsf: Option<Double>,
    pub sigmapsf: Option<Double>,
    pub diffmaglim: Double,
    /// In units of the zero point `magzpsci`.
    pub flux: Option<Double>,
    pub flux_err: Double,
    /// The band, as it is written out.
    pub band: String,
    pub magzpsci: Option<Double>,
    pub ra: Option<Double>,
    pub dec: Option<Double>,
    pub snr_psf: Option<Double>,
    /// Legacy fallback for documents that pre-date the snr migration.
    pub snr_legacy: Option<Double>,
    pub programid: i32,
    pub procstatus: Option<String>,
}

/// Represents ZTF photometry data we retrieved from the database
/// (from alert or forced photometry)
#[derive(Debug, Clone)]
pub struct ZtfPhotometry {
    pub jd: Double,
    pub magpsf: Option<Double>,
    pub sigmapsf: Option<Double>,
    pub diffmaglim: Double,
    /// In nJy.
    pub flux: Option<Double>,
    /// In nJy.
    pub flux_err: Double,
    /// The band, as it is written out.
    pub band: String,
    pub ra: Option<Double>,
    pub dec: Option<Double>,
    pub snr_psf: Option<Double>,
    pub programid: i32,
}

/// A point of a light curve in magnitudes, the magnitudes in single precision.
#[derive(Debug, Clone)]
pub struct PhotometryMag {
    pub time: Double,
    pub mag: Double,
    pub mag_err: Double,
    pub band: String,
}

/// The first of two that is there.
pub open spec fn either(first: Option<Double>, second: Option<Double>) -> Option<Double> {
    match first {
        Some(d) => Some(d),
        None => second,
    }
}

/// The first of two that is there.
fn first_of(first: Option<Double>, second: Option<Double>) -> (r: Option<Double>)
    ensures
        r == either(first, second),
{
    match first {
        Some(d) => Some(d),
        None => second,
    }
}

/// What an alert's photometry is converted to.
pub open spec fn from_alert(p: ZtfAlertPhotometry) -> ZtfPhotometry {
    ZtfPhotometry {
        jd: p.jd,
        magpsf: p.magpsf,
        sigmapsf: p.sigmapsf,
        diffmaglim: p.diffmaglim,
        flux: p.flux,
        flux_err: p.flux_err,
        band: p.band,
        ra: p.ra,
        dec: p.dec,
        snr_psf: either(p.snr_psf, p.snr_legacy),
        programid: p.programid,
    }
}

/// What forced photometry is converted to, with its fluxes at the fixed zero point.
pub open spec fn from_forced(
    p: ZtfForcedPhotometry,
    flux: Option<Double>,
    flux_err: Double,
) -> ZtfPhotometry {
    ZtfPhotometry {
        jd: p.jd,
        magpsf: p.magpsf,
        sigmapsf: p.sigmapsf,
        diffmaglim: p.diffmaglim,
        flux,
        flux_err,
        band: p.band,
        ra: p.ra,
        dec: p.dec,
        snr_psf: either(p.snr_psf, p.snr_legacy),
        programid: p.programid,
    }
}

/// A flux that was measured: neither the number that stands for a missing one, -99999, nor
/// no number at all.
pub open spec fn is_measured(f: Double) -> bool {
    !double::eq(f, Double { bits: 0xc0f8_69f0_0000_0000 }) && !double::is_nan(f)
}

/// Whether a flux was measured.
fn measured(f: Double) -> (r: bool)
    ensures
        r == is_measured(f),
{
    !f.equals(Double { bits: 0xc0f8_69f0_0000_0000 }) && !f.is_nan()
}

/// `value` is the flux `f` at the fixed zero point: what `scale` makes of a measured flux
/// and the zero point it was measured at, and nothing where it was not measured.
pub open spec fn is_scaled<S: Fn(Double, Double) -> Double>(
    value: Option<Double>,
    f: Option<Double>,
    magzpsci: Double,
    scale: S,
) -> bool {
    match f {
        Some(v) => if is_measured(v) {
            value matches Some(w) && scale.ensures((v, magzpsci), w)
        } else {
            value is None
        },
        None => value is None,
    }
}

/// `r` is what forced photometry is converted to. It must have been processed, with status
/// "0", have a zero point, and have a measured uncertainty.
pub open spec fn is_from_forced<S: Fn(Double, Double) -> Double>(
    r: Result<ZtfPhotometry, EnrichmentWorkerError>,
    p: ZtfForcedPhotometry,
    scale: S,
) -> bool {
    match p.procstatus {
        None => r matches Err(EnrichmentWorkerError::Serialization(why)) && why@
            == "missing procstatus"@,
        Some(status) => if status@ != "0"@ {
            r == Err::<ZtfPhotometry, _>(EnrichmentWorkerError::BadProcstatus(status))
        } else {
            match p.magzpsci {
                None => r == Err::<ZtfPhotometry, _>(EnrichmentWorkerError::MissingMagZPSci),
                Some(zp) => if !is_measured(p.flux_err) {
                    r == Err::<ZtfPhotometry, _>(EnrichmentWorkerError::MissingFluxPSF)
                } else {
                    r matches Ok(out) && is_scaled(out.flux, p.flux, zp, scale) && scale.ensures(
                        (p.flux_err, zp),
                        out.flux_err,
                    ) && out == from_forced(p, out.flux, out.flux_err)
                },
            }
        },
    }
}

/// A magnitude for the light curve: where magnitude, uncertainty and signal-to-noise are
/// there, and the signal-to-noise is not below the least one that is asked for.
pub open spec fn photometry_mag(p: ZtfPhotometry, min_snr: Option<Double>) -> Option<
    PhotometryMag,
> {
    match (p.snr_psf, p.magpsf, p.sigmapsf) {
        (Some(snr), Some(mag), Some(sig)) => {
            let weak = match min_snr {
                Some(thresh) => double::lt(Double { bits: double::magnitude(snr) as u64 }, thresh),
                None => false,
            };
            if weak {
                None
            } else {
                Some(
                    PhotometryMag {
                        time: p.jd,
                        mag: double::narrowed(mag),
                        mag_err: double::narrowed(sig),
                        band: p.band,
                    },
                )
            }
        },
        _ => None,
    }
}

impl ZtfPhotometry {
    /// Convert an alert's photometry.
    pub fn try_from_alert(phot: &ZtfAlertPhotometry) -> (r: Result<Self, EnrichmentWorkerError>)
        ensures
            r == Ok::<ZtfPhotometry, EnrichmentWorkerError>(from_alert(*phot)),
    {
        Ok(
            ZtfPhotometry {
                jd: phot.jd,
                magpsf: phot.magpsf,
                sigmapsf: phot.sigmapsf,
                diffmaglim: phot.diffmaglim,
                flux: phot.flux,
                flux_err: phot.flux_err,
                band: phot.band.clone(),
                ra: phot.ra,
                dec: phot.dec,
                snr_psf: first_of(phot.snr_psf, phot.snr_legacy),
                programid: phot.programid,
            },
        )
    }

    /// Convert forced photometry. `scale` brings a flux that was measured at a zero point
    /// to the fixed one, in nJy.
    pub fn try_from_forced<S: Fn(Double, Double) -> Double>(
        phot: &ZtfForcedPhotometry,
        scale: &S,
    ) -> (r: Result<Self, EnrichmentWorkerError>)
        requires
            forall|f: Double, zp: Double| #[trigger] scale.requires((f, zp)),
        ensures
            is_from_forced(r, *phot, *scale),
    {
        match &phot.procstatus {
            None => {
                return Err(EnrichmentWorkerError::Serialization("missing procstatus".to_owned()));
            },
            Some(status) => if !same_text(status.as_str(), "0") {
                return Err(EnrichmentWorkerError::BadProcstatus(status.clone()));
            },
        }
        let magzpsci = match phot.magzpsci {
            Some(zp) => zp,
            None => {
                return Err(EnrichmentWorkerError::MissingMagZPSci);
            },
        };
        let flux = match phot.flux {
            Some(f) => if measured(f) {
                Some(scale(f, magzpsci))
            } else {
                None
            },
            None => None,
        };
        if !measured(phot.flux_err) {
            return Err(EnrichmentWorkerError::MissingFluxPSF);
        }
        let flux_err = scale(phot.flux_err, magzpsci);
        Ok(
            ZtfPhotometry {
                jd: phot.jd,
                magpsf: phot.magpsf,
                sigmapsf: phot.sigmapsf,
                diffmaglim: phot.diffmaglim,
                flux,
                flux_err,
                band: phot.band.clone(),
                ra: phot.ra,
                dec: phot.dec,
                snr_psf: first_of(phot.snr_psf, phot.snr_legacy),
                programid: phot.programid,
            },
        )
    }

    /// `min_snr` of `None` applies no SNR cut.
    pub fn to_photometry_mag(&self, min_snr: Option<Double>) -> (r: Option<PhotometryMag>)
        ensures
            r == photometry_mag(*self, min_snr),
    {
        match (self.snr_psf, self.magpsf, self.sigmapsf) {
            (Some(snr), Some(mag), Some(sig)) => {
                let weak = match min_snr {
                    Some(thresh) => snr.abs().less_than(thresh),
                    None => false,
                };
                if weak {
                    None
                } else {
                    Some(
                        PhotometryMag {
                            time: self.jd,
                            mag: mag.narrow(),
                            mag_err: sig.narrow(),
                            band: self.band.clone(),
                        },
                    )
                }
            },
            _ => None,
        }
    }
}

/// The light curve that a stored list of alert photometry stands for.
pub open spec fn alert_lightcurve(stored: Option<Seq<ZtfAlertPhotometry>>) -> Seq<ZtfPhotometry> {
    match stored {
        Some(points) => points.map_values(|p: ZtfAlertPhotometry| from_alert(p)),
        None => Seq::empty(),
    }
}

/// Convert the stored alert photometry of a document. A field that is null is an empty
/// light curve.
pub fn deserialize_ztf_alert_lightcurve(lightcurve: Option<Vec<ZtfAlertPhotometry>>) -> (r: Vec<
    ZtfPhotometry,
>)
    ensures
        r@ == alert_lightcurve(
            match lightcurve {
                Some(points) => Some(points@),
                None => None,
            },
        ),
{
    let mut out: Vec<ZtfPhotometry> = Vec::new();
    match lightcurve {
        Some(points) => {
            let mut i: usize = 0;
            while i < points.len()
                invariant
                    i <= points.len(),
                    out@ =~= points@.take(i as int).map_values(
                        |p: ZtfAlertPhotometry| from_alert(p),
                    ),
                decreases points.len() - i,
            {
                match ZtfPhotometry::try_from_alert(&points[i]) {
                    Ok(p) => {
                        out.push(p);
                    },
                    Err(_) => {},
                }
                i = i + 1;
            }
            assert(points@.take(i as int) =~= points@);
        },
        None => {},
    }
    out
}

/// The photometry among these results, in order.
pub open spec fn converted(results: Seq<Result<ZtfPhotometry, EnrichmentWorkerError>>) -> Seq<
    ZtfPhotometry,
>
    decreases results.len(),
{
    if results.len() == 0 {
        Seq::empty()
    } else {
        match results.last() {
            Ok(p) => converted(results.drop_last()).push(p),
            Err(_) => converted(results.drop_last()),
        }
    }
}

/// `results` are what the points of a stored list are converted to.
pub open spec fn are_from_forced<S: Fn(Double, Double) -> Double>(
    results: Seq<Result<ZtfPhotometry, EnrichmentWorkerError>>,
    stored: Seq<ZtfForcedPhotometry>,
    scale: S,
) -> bool {
    results.len() == stored.len() && forall|i: int|
        0 <= i < stored.len() ==> is_from_forced(#[trigger] results[i], stored[i], scale)
}

/// Convert the stored forced photometry of a document, without the points that cannot be
/// converted. A field that is null is an empty light curve.
pub fn deserialize_ztf_forced_lightcurve<S: Fn(Double, Double) -> Double>(
    lightcurve: Option<Vec<ZtfForcedPhotometry>>,
    scale: &S,
) -> (r: Vec<ZtfPhotometry>)
    requires
        forall|f: Double, zp: Double| #[trigger] scale.requires((f, zp)),
    ensures
        match lightcurve {
            Some(points) => exists|results: Seq<Result<ZtfPhotometry, EnrichmentWorkerError>>|
                #[trigger] are_from_forced(results, points@, *scale) && r@ == converted(results),
            None => r@ == Seq::<ZtfPhotometry>::empty(),
        },
{
    let mut out: Vec<ZtfPhotometry> = Vec::new();
    match lightcurve {
        Some(points) => {
            let ghost mut results: Seq<Result<ZtfPhotometry, EnrichmentWorkerError>> = Seq::empty();
            let mut i: usize = 0;
            while i < points.len()
                invariant
                    i <= points.len(),
                    forall|f: Double, zp: Double| #[trigger] scale.requires((f, zp)),
                    are_from_forced(results, points@.take(i as int), *scale),
                    out@ == converted(results),
                decreases points.len() - i,
            {
                let result = ZtfPhotometry::try_from_forced(&points[i], scale);
                proof {
                    let next = results.push(result);
                    assert(next.drop_last() =~= results);
                    assert(are_from_forced(next, points@.take(i + 1), *scale)) by {
                        assert forall|k: int| 0 <= k < i + 1 implies is_from_forced(
                            #[trigger] next[k],
                            points@.take(i + 1)[k],
                            *scale,
                        ) by {
                            if k < i {
                                assert(next[k] == results[k]);
                                assert(points@.take(i + 1)[k] == points@.take(i as int)[k]);
                            }
                        }
                    }
                    results = next;
                }
                match result {
                    Ok(p) => {
                        out.push(p);
                    },
                    Err(_) => {},
                }
                i = i + 1;
            }
            assert(points@.take(i as int) =~= points@);
        },
        None => {},
    }
    out
}

} // verus!
