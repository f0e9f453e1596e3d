use vstd::prelude::*;

verus! {

/// Full width of the health bar, in world units.
pub const HEALTH_BAR_WIDTH: u64 = 20;

/// Largest maximum health.
pub const MAX_HEALTH: u64 = 1_000_000_000;

/// Current and maximum health. Damage never takes `current` below zero.
#[derive(Clone, Copy, Debug, PartialEq, Eq, Structural)]
pub struct Health {
    pub max: u64,
    pub current: u64,
}

/// A width in world units, held exactly as the fraction `num / den`.
#[derive(Clone, Copy, Debug, PartialEq, Eq, Structural)]
pub struct BarWidth {
    pub num: u64,
    pub den: u64,
}

/// Width of the health bar: exactly `HEALTH_BAR_WIDTH * current / max`.
pub open spec fn bar_width(h: Health) -> BarWidth {
    BarWidth { num: (HEALTH_BAR_WIDTH * h.current) as u64, den: h.max }
}

impl BarWidth {
    /// The whole width `units`.
    pub fn whole(units: u64) -> (r: BarWidth)
        ensures
            r == (BarWidth { num: units, den: 1 }),
    {
        BarWidth { num: units, den: 1 }
    }

    /// The width is exactly `units` world units.
    pub fn equals_units(&self, units: u64) -> (r: bool)
        ensures
            r == (self.num == units * self.den),
    {
        let (a, b) = (units as u128, self.den as u128);
        proof {
            assert(a * b <= 0xffff_ffff_ffff_ffff * 0xffff_ffff_ffff_ffffu128) by (nonlinear_arith)
                requires a <= 0xffff_ffff_ffff_ffffu128, b <= 0xffff_ffff_ffff_ffffu128;
        }
        self.num as u128 == a * b
    }
}

impl Health {
    pub open spec fn wf(self) -> bool {
        0 < self.max <= MAX_HEALTH && self.current <= self.max
    }

    /// Full health.
    pub fn new(max: u64) -> (r: Health)
        requires
            0 < max <= MAX_HEALTH,
        ensures
            r.wf(),
            r.max == max,
            r.current == max,
    {
        Health { max, current: max }
    }

    /// Removes `amount`, stopping at zero.
    pub fn take_damage(&mut self, amount: u64)
        requires
            old(self).wf(),
        ensures
            final(self).wf(),
            final(self).max == old(self).max,
            final(self).current == if old(self).current >= amount {
                old(self).current - amount
            } else {
                0
            },
    {
        if self.current >= amount {
            self.current = self.current - amount;
        } else {
            self.current = 0;
        }
    }

    /// No health is left.
    pub fn is_depleted(&self) -> (r: bool)
        ensures
            r == (self.current == 0),
    {
        self.current == 0
    }
}

/// Width of the health bar shown for `h`, exactly `20 * current / max`:
/// empty at zero health, full at maximum health.
pub fn health_bar_width(h: &Health) -> (r: BarWidth)
    requires
        h.wf(),
    ensures
        r == bar_width(*h),
        r.num == HEALTH_BAR_WIDTH * h.current,
        r.den == h.max,
        r.num <= HEALTH_BAR_WIDTH * r.den,
        h.current == 0 ==> r.num == 0,
        h.current == h.max ==> r.num == HEALTH_BAR_WIDTH * r.den,
{
    BarWidth { num: HEALTH_BAR_WIDTH * h.current, den: h.max }
}

} // verus!
