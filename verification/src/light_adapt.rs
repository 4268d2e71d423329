//! Light adaptation: ambient light conditions and headlight rules.
use vstd::prelude::*;

verus! {

/// Ambient light condition.
#[derive(Debug, Clone, Copy, PartialEq, Eq, Structural)]
pub enum LightCondition {
    BrightSun,
    Overcast,
    Dusk,
    Night,
    TunnelEntry,
    TunnelExit,
    Fog,
    Rain,
    Snow,
}

impl LightCondition {
    /// Headlights are required at night, entering a tunnel, at dusk, in fog and in rain.
    pub fn headlights_required(&self) -> (b: bool)
        ensures
            b == (*self == LightCondition::Night || *self == LightCondition::TunnelEntry || *self
                == LightCondition::Dusk || *self == LightCondition::Fog || *self
                == LightCondition::Rain),
    {
        match self {
            LightCondition::Night | LightCondition::TunnelEntry | LightCondition::Dusk
            | LightCondition::Fog | LightCondition::Rain => true,
            _ => false,
        }
    }

    /// High beams are only considered safe at night.
    pub fn high_beam_safe(&self) -> (b: bool)
        ensures
            b == (*self == LightCondition::Night),
    {
        match self {
            LightCondition::Night => true,
            _ => false,
        }
    }
}

} // verus!
