use vstd::prelude::*;

verus! {

/// Weather condition of the shared world.
#[derive(Debug, Clone, Copy, PartialEq, Eq, Structural)]
pub enum WeatherState {
    Clear,
    LightFog,
    HeavyFog,
}

} // verus!
