//! Surveys.

use vstd::prelude::*;

verus! {

/// A survey that alerts come from.
#[derive(Debug, Clone, Copy, PartialEq, Eq, Structural)]
pub enum Survey {
    Ztf,
    Lsst,
}

/// The programs of each survey that may be seen; nothing where a survey has no entry.
#[derive(Debug, Clone)]
pub struct Permissions {
    pub ztf: Option<Vec<i32>>,
    pub lsst: Option<Vec<i32>>,
}

/// The programs of a survey that may be seen, where it has an entry.
pub open spec fn programs(p: Permissions, survey: Survey) -> Option<Seq<i32>> {
    let entry = match survey {
        Survey::Ztf => p.ztf,
        Survey::Lsst => p.lsst,
    };
    match entry {
        Some(list) => Some(list@),
        None => None,
    }
}

impl Permissions {
    /// The programs of a survey that may be seen, where it has an entry.
    pub fn get(&self, survey: Survey) -> (r: Option<&Vec<i32>>)
        ensures
            match r {
                Some(list) => programs(*self, survey) == Some(list@),
                None => programs(*self, survey) is None,
            },
    {
        match survey {
            Survey::Ztf => self.ztf.as_ref(),
            Survey::Lsst => self.lsst.as_ref(),
        }
    }
}

} // verus!
