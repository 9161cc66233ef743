//! Orbits and observing geometry of solar system objects.

use crate::utils::double::Double;
use vstd::prelude::*;

verus! {

/// Heliocentric osculating elements at `epoch_jd`, as MPCORB distributes them.
#[derive(Debug, Clone, Copy, PartialEq, Eq, Structural)]
pub struct OrbitalElements {
    pub epoch_jd: Double,
    /// Semimajor axis, au.
    pub a: Double,
    /// Eccentricity.
    pub e: Double,
    /// Inclination, degrees.
    pub incl: Double,
    /// Longitude of the ascending node, degrees.
    pub node: Double,
    /// Argument of perihelion, degrees.
    pub peri: Double,
    /// Mean anomaly at `epoch_jd`, degrees. Meaningless once `e >= 1`.
    pub mean_anomaly: Double,
    /// Perihelion distance, au. Every conic has one; `a` does not. Authoritative
    /// for propagation, so build through a constructor rather than field update.
    pub q: Double,
    /// Time of perihelion passage, JD.
    pub tp: Double,
}

/// Where and when an orbit passes the Sun.
#[derive(Debug, Clone, Copy, PartialEq, Eq, Structural)]
pub struct Perihelion {
    /// Perihelion distance, au.
    pub q: Double,
    /// Time of perihelion passage, JD.
    pub tp: Double,
}

/// The elements with this perihelion.
pub open spec fn at_perihelion(e: OrbitalElements, p: Perihelion) -> OrbitalElements {
    OrbitalElements { q: p.q, tp: p.tp, ..e }
}

/// `r` are the elements `e` with the perihelion that `perihelion` derives from them.
pub open spec fn is_completed<P: Fn(OrbitalElements) -> Perihelion>(
    r: OrbitalElements,
    e: OrbitalElements,
    perihelion: P,
) -> bool {
    exists|p: Perihelion| perihelion.ensures((e,), p) && r == #[trigger] at_perihelion(e, p)
}

/// Elliptical elements that lack their perihelion.
pub open spec fn without_perihelion(
    epoch_jd: Double,
    a: Double,
    e: Double,
    incl: Double,
    node: Double,
    peri: Double,
    mean_anomaly: Double,
) -> OrbitalElements {
    OrbitalElements {
        epoch_jd,
        a,
        e,
        incl,
        node,
        peri,
        mean_anomaly,
        q: Double { bits: 0 },
        tp: Double { bits: 0 },
    }
}

impl OrbitalElements {
    /// Elliptical elements as MPCORB gives them, with `q` and `tp` derived.
    pub fn elliptical<P: Fn(OrbitalElements) -> Perihelion>(
        epoch_jd: Double,
        a: Double,
        e: Double,
        incl: Double,
        node: Double,
        peri: Double,
        mean_anomaly: Double,
        perihelion: &P,
    ) -> (r: Self)
        requires
            forall|e: OrbitalElements| #[trigger] perihelion.requires((e,)),
        ensures
            is_completed(
                r,
                without_perihelion(epoch_jd, a, e, incl, node, peri, mean_anomaly),
                *perihelion,
            ),
    {
        OrbitalElements {
            epoch_jd,
            a,
            e,
            incl,
            node,
            peri,
            mean_anomaly,
            q: Double::zero(),
            tp: Double::zero(),
        }.with_perihelion(perihelion)
    }

    /// Fill `q` and `tp` from an elliptical element set that lacks them. `perihelion`
    /// computes them; every other element stays as it is.
    pub fn with_perihelion<P: Fn(OrbitalElements) -> Perihelion>(self, perihelion: &P) -> (r: Self)
        requires
            perihelion.requires((self,)),
        ensures
            is_completed(r, self, *perihelion),
    {
        let p = perihelion(self);
        let r = OrbitalElements {
            epoch_jd: self.epoch_jd,
            a: self.a,
            e: self.e,
            incl: self.incl,
            node: self.node,
            peri: self.peri,
            mean_anomaly: self.mean_anomaly,
            q: p.q,
            tp: p.tp,
        };
        assert(r == at_perihelion(self, p));
        r
    }
}

/// Observing geometry at a given instant.
#[derive(Debug, Clone, Copy, PartialEq, Eq, Structural)]
pub struct Geometry {
    /// Sun-to-object distance, au.
    pub helio_dist: Double,
    /// Observer-to-object distance, au.
    pub topo_dist: Double,
    /// Sun-object-observer angle, degrees.
    pub phase_angle: Double,
    /// Angle from perihelion along the orbit, degrees in (-180, 180]. Negative
    /// inbound, so the two legs of an apparition separate on a plot.
    pub true_anomaly: Double,
    /// Time of perihelion passage, JD. Constant for an orbit, carried per
    /// detection because a refreshed orbit moves it.
    pub perihelion_time: Double,
}

/// The geometry with the perihelion time of the elements that it is of.
pub open spec fn timed(g: Geometry, e: OrbitalElements) -> Geometry {
    Geometry { perihelion_time: e.tp, ..g }
}

} // verus!
