//! ZTF alerts, as far as enrichment and filters read them.

use crate::enrichment::photometry::{PhotometryMag, ZtfPhotometry};
use crate::utils::double::Double;
use vstd::prelude::*;

verus! {

/// The detection of a ZTF alert, as far as it is read. Of single-precision numbers the
/// double of the same value is held.
#[derive(Debug, Clone)]
pub struct Candidate {
    pub jd: Double,
    pub fid: i32,
    pub programid: i32,
    pub ra: Double,
    pub dec: Double,
    pub magpsf: Double,
    pub sigmapsf: Double,
    pub magap: Option<Double>,
    pub ssnamenr: Option<String>,
    pub ssdistnr: Option<Double>,
    pub ssmagnr: Option<Double>,
    pub rb: Option<Double>,
    pub drb: Option<Double>,
    pub sgscore1: Option<Double>,
    pub sgscore2: Option<Double>,
    pub sgscore3: Option<Double>,
    pub distpsnr1: Option<Double>,
    pub distpsnr2: Option<Double>,
    pub distpsnr3: Option<Double>,
    pub srmag1: Option<Double>,
    pub srmag2: Option<Double>,
    pub srmag3: Option<Double>,
    pub sgmag1: Option<Double>,
    pub simag1: Option<Double>,
    pub szmag1: Option<Double>,
    pub neargaiabright: Option<Double>,
    pub maggaiabright: Option<Double>,
}

/// The candidate of an alert.
#[derive(Debug, Clone)]
pub struct ZtfCandidate {
    pub candidate: Candidate,
}

/// A point of an LSST light curve.
#[derive(Debug, Clone)]
pub struct LsstPhotometry {
    pub jd: Double,
    /// In nJy.
    pub flux: Option<Double>,
    /// In nJy.
    pub flux_err: Double,
    /// The band, as it is written out.
    pub band: String,
    pub ra: Option<Double>,
    pub dec: Option<Double>,
    /// The point in magnitudes, where it has one.
    pub point: Option<PhotometryMag>,
    /// The point in magnitudes, where it has one and is three times above the noise.
    pub significant_point: Option<PhotometryMag>,
}

/// The LSST object at the position of an alert.
#[derive(Debug, Clone)]
pub struct LsstMatch {
    pub object_id: String,
    pub ra: Double,
    pub dec: Double,
    pub prv_candidates: Vec<LsstPhotometry>,
    pub fp_hists: Vec<LsstPhotometry>,
}

/// The objects of other surveys at the position of a ZTF alert.
#[derive(Debug, Clone)]
pub struct ZtfSurveyMatches {
    pub lsst: Option<LsstMatch>,
}

/// The ZTF object at the position of another survey's alert.
#[derive(Debug, Clone)]
pub struct ZtfMatch {
    pub object_id: String,
    pub ra: Double,
    pub dec: Double,
    pub prv_candidates: Vec<ZtfPhotometry>,
    pub prv_nondetections: Vec<ZtfPhotometry>,
    pub fp_hists: Vec<ZtfPhotometry>,
}

/// ZTF alert structure used to deserialize alerts
/// from the database, used by the enrichment worker
/// to compute features and ML scores
#[derive(Debug, Clone)]
pub struct ZtfAlertForEnrichment {
    pub candid: i64,
    pub object_id: String,
    pub candidate: ZtfCandidate,
    pub prv_candidates: Vec<ZtfPhotometry>,
    pub prv_nondetections: Vec<ZtfPhotometry>,
    pub fp_hists: Vec<ZtfPhotometry>,
    pub survey_matches: Option<ZtfSurveyMatches>,
}

/// ZTF alert ML classifier scores
#[derive(Debug, Clone, Copy, PartialEq, Eq, Structural)]
pub struct ZtfAlertClassifications {
    pub acai_h: Double,
    pub acai_n: Double,
    pub acai_v: Double,
    pub acai_o: Double,
    pub acai_b: Double,
    pub btsbot: Double,
}

/// The images of an alert.
#[derive(Debug, Clone)]
pub struct AlertCutout {
    pub cutout_science: Vec<u8>,
    pub cutout_template: Vec<u8>,
    pub cutout_difference: Vec<u8>,
}

/// The LSST match of an alert.
pub open spec fn lsst_match(matches: Option<ZtfSurveyMatches>) -> Option<LsstMatch> {
    match matches {
        Some(m) => m.lsst,
        None => None,
    }
}

/// The LSST match of an alert.
pub fn lsst_match_of(matches: &Option<ZtfSurveyMatches>) -> (r: Option<&LsstMatch>)
    ensures
        match r {
            Some(m) => lsst_match(*matches) == Some(*m),
            None => lsst_match(*matches) is None,
        },
{
    match matches {
        Some(m) => match &m.lsst {
            Some(l) => Some(l),
            None => None,
        },
        None => None,
    }
}

} // verus!
