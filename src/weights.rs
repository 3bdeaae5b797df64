use vstd::prelude::*;

verus! {

/// A two-dimensional weight: computation time and proof size.
#[derive(Debug, Clone, Copy, PartialEq, Eq, Structural)]
pub struct Weight {
    pub ref_time: u64,
    pub proof_size: u64,
}

/// `a + b` saturated at `u64::MAX`.
pub open spec fn sat_add(a: u64, b: u64) -> u64 {
    if a as int + b as int > u64::MAX as int {
        u64::MAX
    } else {
        (a + b) as u64
    }
}

/// `a · b` saturated at `u64::MAX`.
pub open spec fn sat_mul(a: u64, b: u64) -> u64 {
    if a as int * b as int > u64::MAX as int {
        u64::MAX
    } else {
        (a * b) as u64
    }
}

/// `a · b` saturated at `u64::MAX`.
pub fn saturating_mul_u64(a: u64, b: u64) -> (r: u64)
    ensures
        r == sat_mul(a, b),
{
    match a.checked_mul(b) {
        Some(p) => p,
        None => u64::MAX,
    }
}

/// Component-wise saturating sum.
pub open spec fn weight_add(a: Weight, b: Weight) -> Weight {
    Weight { ref_time: sat_add(a.ref_time, b.ref_time), proof_size: sat_add(a.proof_size, b.proof_size) }
}

impl Weight {
    pub fn from_parts(ref_time: u64, proof_size: u64) -> (r: Weight)
        ensures
            r == (Weight { ref_time, proof_size }),
    {
        Weight { ref_time, proof_size }
    }

    pub fn saturating_add(self, other: Weight) -> (r: Weight)
        ensures
            r == weight_add(self, other),
    {
        Weight {
            ref_time: self.ref_time.saturating_add(other.ref_time),
            proof_size: self.proof_size.saturating_add(other.proof_size),
        }
    }
}

/// The weight of one storage read and of one storage write.
#[derive(Debug, Clone, Copy, PartialEq, Eq, Structural)]
pub struct RuntimeDbWeight {
    pub read: u64,
    pub write: u64,
}

impl RuntimeDbWeight {
    pub open spec fn spec_reads(self, r: u64) -> Weight {
        Weight { ref_time: sat_mul(self.read, r), proof_size: 0 }
    }

    pub open spec fn spec_writes(self, w: u64) -> Weight {
        Weight { ref_time: sat_mul(self.write, w), proof_size: 0 }
    }

    pub open spec fn spec_reads_writes(self, r: u64, w: u64) -> Weight {
        Weight { ref_time: sat_add(sat_mul(self.read, r), sat_mul(self.write, w)), proof_size: 0 }
    }

    pub fn reads(self, r: u64) -> (res: Weight)
        ensures
            res == self.spec_reads(r),
    {
        Weight { ref_time: saturating_mul_u64(self.read, r), proof_size: 0 }
    }

    pub fn writes(self, w: u64) -> (res: Weight)
        ensures
            res == self.spec_writes(w),
    {
        Weight { ref_time: saturating_mul_u64(self.write, w), proof_size: 0 }
    }

    pub fn reads_writes(self, r: u64, w: u64) -> (res: Weight)
        ensures
            res == self.spec_reads_writes(r, w),
    {
        let rw = saturating_mul_u64(self.read, r);
        let ww = saturating_mul_u64(self.write, w);
        Weight { ref_time: rw.saturating_add(ww), proof_size: 0 }
    }
}

/// A budget of weight: how much has been consumed and how much may be.
#[derive(Debug, Clone, Copy, PartialEq, Eq, Structural)]
pub struct WeightMeter {
    pub consumed: Weight,
    pub limit: Weight,
}

impl WeightMeter {
    /// `w` can be consumed without passing the limit in either component.
    pub open spec fn spec_can_consume(&self, w: Weight) -> bool {
        &&& self.consumed.ref_time as int + w.ref_time as int <= self.limit.ref_time as int
        &&& self.consumed.proof_size as int + w.proof_size as int <= self.limit.proof_size as int
    }

    pub fn with_limit(limit: Weight) -> (r: WeightMeter)
        ensures
            r == (WeightMeter { consumed: Weight { ref_time: 0, proof_size: 0 }, limit }),
    {
        WeightMeter { consumed: Weight { ref_time: 0, proof_size: 0 }, limit }
    }

    pub fn can_consume(&self, w: Weight) -> (r: bool)
        ensures
            r == self.spec_can_consume(w),
    {
        match self.consumed.ref_time.checked_add(w.ref_time) {
            None => false,
            Some(t) => match self.consumed.proof_size.checked_add(w.proof_size) {
                None => false,
                Some(p) => t <= self.limit.ref_time && p <= self.limit.proof_size,
            },
        }
    }

    /// Adds `w` to what has been consumed, saturating.
    pub fn consume(&mut self, w: Weight)
        ensures
            final(self).consumed == weight_add(old(self).consumed, w),
            final(self).limit == old(self).limit,
    {
        self.consumed = self.consumed.saturating_add(w);
    }
}

} // verus!
