//! Conversion between abstract gas units and interpreter fuel.

use vstd::prelude::*;

verus! {

/// Fuel units per gas unit.
pub const FUEL_PER_GAS: u64 = 100;

/// Gas converted to fuel, saturating at `u64::MAX`.
pub fn to_fuel(gas: u64) -> (fuel: u64)
    ensures
        fuel == if gas * FUEL_PER_GAS > u64::MAX { u64::MAX as int } else { gas * FUEL_PER_GAS },
{
    match gas.checked_mul(FUEL_PER_GAS) {
        Some(f) => f,
        None => u64::MAX,
    }
}

/// Fuel converted to whole gas units (rounding down).
pub fn from_fuel(fuel: u64) -> (gas: u64)
    ensures
        gas == fuel / FUEL_PER_GAS,
{
    fuel / FUEL_PER_GAS
}

/// Converting gas to fuel and back is the identity when no saturation occurs.
pub proof fn lemma_fuel_roundtrip(gas: u64)
    requires
        gas * FUEL_PER_GAS <= u64::MAX,
    ensures
        (gas * FUEL_PER_GAS) / (FUEL_PER_GAS as int) == gas,
{
}

} // verus!
