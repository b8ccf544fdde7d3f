use vstd::prelude::*;

verus! {

/// The classes of operations that a queue family can run.
#[derive(Clone, Copy, Debug, PartialEq, Eq, Structural)]
pub struct Capabilities {
    pub graphics: bool,
    pub compute: bool,
    pub transfer: bool,
}

impl Capabilities {
    /// Every class asked for in `required` is offered by `self`.
    pub open spec fn includes(self, required: Capabilities) -> bool {
        &&& (required.graphics ==> self.graphics)
        &&& (required.compute ==> self.compute)
        &&& (required.transfer ==> self.transfer)
    }

    pub fn contains(&self, required: &Capabilities) -> (r: bool)
        ensures
            r == self.includes(*required),
    {
        (!required.graphics || self.graphics) && (!required.compute || self.compute) && (
        !required.transfer || self.transfer)
    }
}

/// One queue family of a physical device, as the driver enumerates it.
#[derive(Clone, Copy, Debug, PartialEq, Eq, Structural)]
pub struct QueueFamily {
    pub id: u32,
    pub capabilities: Capabilities,
    pub queue_count: u32,
}

/// A family can serve `required` when it has a queue and offers every class.
pub open spec fn serves(family: QueueFamily, required: Capabilities) -> bool {
    family.queue_count > 0 && family.capabilities.includes(required)
}

#[derive(Clone, Copy, Debug, PartialEq, Eq, Structural)]
pub enum ConfigurationError {
    NoCapableQueue,
}

/// Picks the first enumerated family that serves `required`; its position is
/// returned. No scoring: the first match wins.
pub fn select_queue_family(families: &Vec<QueueFamily>, required: Capabilities) -> (r: Result<
    usize,
    ConfigurationError,
>)
    ensures
        match r {
            Ok(i) => {
                &&& i < families@.len()
                &&& serves(families@[i as int], required)
                &&& forall|j: int| 0 <= j < i ==> !serves(#[trigger] families@[j], required)
            },
            Err(_) => forall|j: int|
                0 <= j < families@.len() ==> !serves(#[trigger] families@[j], required),
        },
{
    let mut i: usize = 0;
    while i < families.len()
        invariant
            i <= families@.len(),
            forall|j: int| 0 <= j < i ==> !serves(#[trigger] families@[j], required),
        decreases families@.len() - i,
    {
        let f = &families[i];
        if f.queue_count > 0 && f.capabilities.contains(&required) {
            return Ok(i);
        }
        i = i + 1;
    }
    Err(ConfigurationError::NoCapableQueue)
}

} // verus!
