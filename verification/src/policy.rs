use vstd::prelude::*;

verus! {

/// Rotation threshold as an exact fraction `num / den`: a generation is due
/// for rotation once the accumulated delta size exceeds `base_size * num / den`.
pub struct Threshold {
    pub num: u64,
    pub den: u64,
}

impl Threshold {
    /// A threshold is a fraction, so its denominator is non-zero.
    pub open spec fn valid(&self) -> bool {
        self.den >= 1
    }
}

/// Rotation is due exactly when the base is non-empty and the accumulated
/// delta size exceeds the threshold fraction of the base size.
pub open spec fn rotation_due(base_size: u64, delta_size: u64, threshold: Threshold) -> bool {
    base_size > 0 && delta_size * threshold.den > base_size * threshold.num
}

/// Decides whether the active generation should be retired. A zero base size
/// (empty or missing base) never triggers rotation; otherwise the decision is
/// `delta_size > base_size * threshold`, computed exactly on integers.
pub fn should_rotate(base_size: u64, delta_size: u64, threshold: &Threshold) -> (r: bool)
    requires
        threshold.valid(),
    ensures
        r == rotation_due(base_size, delta_size, *threshold),
{
    if base_size == 0 {
        false
    } else {
        proof {
            assert(delta_size * threshold.den <= u128::MAX && base_size * threshold.num
                <= u128::MAX) by (nonlinear_arith)
                requires
                    delta_size <= u64::MAX,
                    threshold.den <= u64::MAX,
                    base_size <= u64::MAX,
                    threshold.num <= u64::MAX,
            ;
        }
        let lhs: u128 = (delta_size as u128) * (threshold.den as u128);
        let rhs: u128 = (base_size as u128) * (threshold.num as u128);
        lhs > rhs
    }
}

} // verus!
