use vstd::prelude::*;

verus! {

/// A closed interval `[low, high]` of utilisation percentages.
#[derive(Clone, Copy, Debug, PartialEq, Eq, Structural)]
pub struct TargetBand {
    pub low: u64,
    pub high: u64,
}

impl TargetBand {
    /// A band is well formed when it is a non-empty interval of percentages.
    pub open spec fn wf(self) -> bool {
        self.low <= self.high && self.high <= 100
    }

    /// The value that corrections converge to: the rounded-down centre.
    pub open spec fn mid(self) -> nat {
        ((self.low + self.high) / 2) as nat
    }

    /// Whether `sample` lies inside the band, ends included.
    pub open spec fn holds(self, sample: int) -> bool {
        self.low <= sample && sample <= self.high
    }

    /// Builds the band `[low, high]`, or nothing where that is no interval of
    /// percentages.
    pub fn new(low: u64, high: u64) -> (band: Option<TargetBand>)
        ensures
            band.is_some() <==> (low <= high && high <= 100),
            band.is_some() ==> band.unwrap().wf() && band.unwrap().low == low
                && band.unwrap().high == high,
    {
        if low <= high && high <= 100 {
            Some(TargetBand { low, high })
        } else {
            None
        }
    }

    /// The band's midpoint.
    pub fn midpoint(&self) -> (m: u64)
        requires
            self.wf(),
        ensures
            m == self.mid(),
            self.low <= m && m <= self.high,
    {
        (self.low + self.high) / 2
    }

    /// Whether `sample` lies inside the band.
    pub fn contains(&self, sample: u64) -> (inside: bool)
        ensures
            inside == self.holds(sample as int),
    {
        self.low <= sample && sample <= self.high
    }
}

} // verus!
