use vstd::prelude::*;

use crate::math::{spec_percent_div, spec_percent_mul, PERCENTAGE_FACTOR};
use crate::pallet::Pallet;
use crate::table::value_or;
use crate::types::PalletError;
use crate::weights::{weight_add, WeightMeter};

verus! {

/// `a + b` saturated at `u128::MAX`.
pub open spec fn sat_add_u128(a: int, b: int) -> int {
    if a + b > u128::MAX as int {
        u128::MAX as int
    } else {
        a + b
    }
}

/// `a - b`, not below zero.
pub open spec fn sat_sub(a: int, b: int) -> int {
    if a < b {
        0
    } else {
        a - b
    }
}

/// `v` moved into `[lo, hi]`: raised to `lo`, then lowered to `hi`.
pub open spec fn clamp(v: int, lo: int, hi: int) -> int {
    let up = if v < lo {
        lo
    } else {
        v
    };
    if up > hi {
        hi
    } else {
        up
    }
}

/// The rate that registration pressure asks for: the minimum with no registrations, the
/// maximum at or above the target, and in between a linear share of the range.
pub open spec fn spec_target_burn_rate(registrations: u32, target: u32, min: u128, max: u128) -> int {
    if registrations == 0 {
        min as int
    } else if registrations >= target {
        max as int
    } else {
        sat_add_u128(
            min as int,
            spec_percent_mul(
                sat_sub(max as int, min as int),
                spec_percent_div(registrations as int, target as int),
            ),
        )
    }
}

/// The next burn rate: the average of the target rate and the previous rate weighted by
/// `alpha`, clamped into `[min, max]`.
pub open spec fn spec_next_burn_rate(
    registrations: u32,
    target: u32,
    previous: u128,
    alpha: u128,
    min: u128,
    max: u128,
) -> int {
    let t = spec_target_burn_rate(registrations, target, min, max);
    let a = spec_percent_mul(t, alpha as int);
    let p = spec_percent_mul(previous as int, sat_sub(PERCENTAGE_FACTOR as int, alpha as int));
    clamp(sat_add_u128(a, p), min as int, max as int)
}

impl Pallet {
    /// The registration cost of subnet `s` at its current burn rate.
    pub fn calculate_burn_amount(&self, subnet_id: u32) -> (r: u128)
        requires
            self.wf(),
        ensures
            r as int == spec_percent_mul(
                self.config.base_burn_amount as int,
                value_or(self.burn.current_rate@, subnet_id, 0u128) as int,
            ),
    {
        let base_burn = self.config.base_burn_amount;
        let burn_rate = self.burn.current_rate.get_or_zero(&subnet_id);
        Self::percent_mul(base_burn, burn_rate)
    }

    /// Counts one registration in subnet `s` for this epoch.
    pub fn record_registration(&mut self, subnet_id: u32) -> (r: Result<(), PalletError>)
        requires
            old(self).wf(),
        ensures
            final(self).wf(),
            r is Ok,
            final(self).burn.registrations@ == old(self).burn.registrations@.insert(
                subnet_id,
                (if value_or(old(self).burn.registrations@, subnet_id, 0u32) == u32::MAX {
                    u32::MAX
                } else {
                    (value_or(old(self).burn.registrations@, subnet_id, 0u32) + 1) as u32
                }),
            ),
            final(self).burn.current_rate == old(self).burn.current_rate,
            final(self).burn.target_registrations == old(self).burn.target_registrations,
            final(self).burn.alpha == old(self).burn.alpha,
            final(self).subnet_nodes == old(self).subnet_nodes,
            final(self).registered_subnet_nodes == old(self).registered_subnet_nodes,
            final(self).ids == old(self).ids,
            final(self).keys == old(self).keys,
            final(self).stats == old(self).stats,
            final(self).election == old(self).election,
            final(self).stake == old(self).stake,
            final(self).config == old(self).config,
            final(self).block == old(self).block,
            final(self).elected_validators == old(self).elected_validators,
            final(self).subnets == old(self).subnets,
    {
        let current = self.burn.registrations.get_or_zero(&subnet_id);
        self.burn.registrations.insert(subnet_id, current.saturating_add(1));
        Ok(())
    }

    pub fn calculate_target_burn_rate(&self, registrations: u32, target: u32) -> (r: u128)
        ensures
            r as int == spec_target_burn_rate(
                registrations,
                target,
                self.config.min_node_burn_rate,
                self.config.max_node_burn_rate,
            ),
    {
        let min_rate = self.config.min_node_burn_rate;
        let max_rate = self.config.max_node_burn_rate;
        if registrations == 0 {
            min_rate
        } else if registrations >= target {
            max_rate
        } else {
            let ratio = Self::percent_div(registrations as u128, target as u128);
            let rate_range = max_rate.saturating_sub(min_rate);
            let rate_component = Self::percent_mul(rate_range, ratio);
            min_rate.saturating_add(rate_component)
        }
    }

    /// The once-per-epoch step of the burn-rate controller for subnet `s`. When the meter
    /// cannot afford nine reads and two writes, it does nothing; otherwise it moves the rate
    /// toward the rate that this epoch's registrations ask for, and resets the count.
    pub fn update_burn_rate_for_epoch(&mut self, weight_meter: &mut WeightMeter, subnet_id: u32)
        requires
            old(self).wf(),
        ensures
            final(self).wf(),
            !old(weight_meter).spec_can_consume(old(self).config.db_weight.spec_reads_writes(9, 2))
                ==> *final(self) == *old(self) && *final(weight_meter) == *old(weight_meter),
            old(weight_meter).spec_can_consume(old(self).config.db_weight.spec_reads_writes(9, 2))
                ==> {
                let db = old(self).config.db_weight;
                &&& final(self).burn.current_rate@ == old(self).burn.current_rate@.insert(
                    subnet_id,
                    spec_next_burn_rate(
                        value_or(old(self).burn.registrations@, subnet_id, 0u32),
                        value_or(old(self).burn.target_registrations@, subnet_id, 0u32),
                        value_or(old(self).burn.current_rate@, subnet_id, 0u128),
                        value_or(old(self).burn.alpha@, subnet_id, 0u128),
                        old(self).config.min_node_burn_rate,
                        old(self).config.max_node_burn_rate,
                    ) as u128,
                )
                &&& final(self).burn.registrations@ == old(self).burn.registrations@.insert(subnet_id, 0)
                &&& final(self).burn.target_registrations == old(self).burn.target_registrations
                &&& final(self).burn.alpha == old(self).burn.alpha
                &&& final(weight_meter).consumed == weight_add(
                    weight_add(
                        weight_add(weight_add(old(weight_meter).consumed, db.spec_reads(5)), db.spec_reads(2)),
                        db.spec_reads(2),
                    ),
                    db.spec_writes(2),
                )
                &&& final(weight_meter).limit == old(weight_meter).limit
            },
            final(self).subnet_nodes == old(self).subnet_nodes,
            final(self).registered_subnet_nodes == old(self).registered_subnet_nodes,
            final(self).ids == old(self).ids,
            final(self).keys == old(self).keys,
            final(self).stats == old(self).stats,
            final(self).election == old(self).election,
            final(self).stake == old(self).stake,
            final(self).config == old(self).config,
            final(self).block == old(self).block,
            final(self).elected_validators == old(self).elected_validators,
            final(self).subnets == old(self).subnets,
    {
        let db_weight = self.config.db_weight;
        if !weight_meter.can_consume(db_weight.reads_writes(9, 2)) {
            return ;
        }
        let registrations = self.burn.registrations.get_or_zero(&subnet_id);
        let target = self.burn.target_registrations.get_or_zero(&subnet_id);
        let previous_burn_rate = self.burn.current_rate.get_or_zero(&subnet_id);
        let alpha = self.burn.alpha.get_or_zero(&subnet_id);
        weight_meter.consume(db_weight.reads(5));
        let target_burn_rate = self.calculate_target_burn_rate(registrations, target);
        weight_meter.consume(db_weight.reads(2));
        let precision = Self::percentage_factor_as_u128();
        let one_minus_alpha = precision.saturating_sub(alpha);
        let alpha_component = Self::percent_mul(target_burn_rate, alpha);
        let previous_component = Self::percent_mul(previous_burn_rate, one_minus_alpha);
        let new_burn_rate = alpha_component.saturating_add(previous_component);
        let min_rate = self.config.min_node_burn_rate;
        let max_rate = self.config.max_node_burn_rate;
        weight_meter.consume(db_weight.reads(2));
        let raised = if new_burn_rate < min_rate {
            min_rate
        } else {
            new_burn_rate
        };
        let clamped_rate = if raised > max_rate {
            max_rate
        } else {
            raised
        };
        weight_meter.consume(db_weight.writes(2));
        self.burn.current_rate.insert(subnet_id, clamped_rate);
        self.burn.registrations.insert(subnet_id, 0);
    }
}

/// Registrations equal to a positive target ask for the maximum rate, no registrations ask
/// for the minimum, and with `alpha` at 100% one epoch step lands exactly on the rate that
/// registrations ask for.
pub proof fn lemma_burn_rate_targets(
    registrations: u32,
    target: u32,
    previous: u128,
    min: u128,
    max: u128,
)
    ensures
        target > 0 ==> spec_target_burn_rate(target, target, min, max) == max as int,
        spec_target_burn_rate(0, target, min, max) == min as int,
        min <= max ==> spec_next_burn_rate(registrations, target, previous, PERCENTAGE_FACTOR, min, max)
            == spec_target_burn_rate(registrations, target, min, max),
{
    let f = PERCENTAGE_FACTOR as int;
    let t = spec_target_burn_rate(registrations, target, min, max);
    if min <= max {
        if registrations != 0 && registrations < target {
            let ratio = spec_percent_div(registrations as int, target as int);
            let range = max as int - min as int;
            let ri = registrations as int;
            let ti = target as int;
            assert(ri * f / ti < f) by (nonlinear_arith)
                requires
                    0 < ri < ti,
                    f > 0,
            ;
            assert(0 <= ri * f / ti) by (nonlinear_arith)
                requires
                    0 < ri < ti,
                    f > 0,
            ;
            assert(0 <= ratio <= f);
            if range != 0 && ratio != 0 {
                assert(range * ratio / f <= range) by (nonlinear_arith)
                    requires
                        0 <= ratio <= f,
                        range >= 0,
                        f > 0,
                ;
                assert(range * ratio / f >= 0) by (nonlinear_arith)
                    requires
                        0 <= ratio,
                        range >= 0,
                        f > 0,
                ;
            }
        }
        assert(min as int <= t <= max as int);
        assert((t * f) / f == t) by (nonlinear_arith)
            requires
                f > 0,
        ;
        assert(spec_percent_mul(t, f) == t);
        assert(sat_sub(f, f) == 0);
        assert(spec_percent_mul(previous as int, 0) == 0);
    }
}

} // verus!
