//! What the effect tells its host about itself.

use vstd::prelude::*;

verus! {

/// The number of input channels, and of output channels.
pub const CHANNELS: i32 = 2;

/// The kind of plugin.
#[derive(Clone, Copy, Debug, PartialEq, Eq, Structural)]
pub enum Category {
    /// A plugin that transforms the audio it is given.
    Effect,
}

/// The identity of the plugin and the shape of its audio.
#[derive(Clone, Copy, Debug)]
pub struct Identity {
    pub name: &'static str,
    pub vendor: &'static str,
    pub unique_id: i32,
    pub inputs: i32,
    pub outputs: i32,
    /// The number of parameters that the host can automate. The threshold is
    /// none of them: it is reached through the control surface alone.
    pub parameters: i32,
    pub category: Category,
}

/// The identity of this effect.
pub fn identity() -> (id: Identity)
    ensures
        id.name@ == "BleachInjector"@,
        id.vendor@ == "Rein van der Woerd"@,
        id.unique_id == 25032017,
        id.inputs == CHANNELS,
        id.outputs == CHANNELS,
        id.parameters == 0,
        id.category == Category::Effect,
{
    Identity {
        name: "BleachInjector",
        vendor: "Rein van der Woerd",
        unique_id: 25032017,
        inputs: CHANNELS,
        outputs: CHANNELS,
        parameters: 0,
        category: Category::Effect,
    }
}

} // verus!
