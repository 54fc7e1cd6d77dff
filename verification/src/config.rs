use vstd::prelude::*;
use crate::ext_devices::ExtDevicesConfig;

verus! {

/// A guest memory region, optionally loaded from a file.
#[derive(Clone, Debug)]
pub struct Region {
    pub name: String,
    pub start: u32,
    pub size: u32,
    pub load: Option<String>,
}

/// Bytes written over guest memory after loading.
#[derive(Clone, Debug)]
pub struct Patch {
    pub start: u32,
    pub data: Vec<u8>,
}

#[derive(Clone, Copy, Debug, PartialEq, Eq, Structural)]
pub enum CpuModel {
    CortexM4,
    CortexM7,
}

#[derive(Clone, Debug)]
pub struct Cpu {
    pub model: CpuModel,
    pub svd: String,
    pub vector_table: u32,
}

#[derive(Clone, Copy, Debug, PartialEq, Eq, Structural)]
pub enum InternalFlashModel {
    Stm32F7DualBank,
}

/// The part of internal flash that survives restarts, kept in a backing
/// file.
#[derive(Clone, Debug)]
pub struct FlashPersistence {
    pub start: u32,
    pub size: u32,
    pub backing_file: Option<String>,
}

#[derive(Clone, Debug)]
pub struct InternalFlashConfig {
    pub model: InternalFlashModel,
    pub start: u32,
    pub size: u32,
    pub aliases: Vec<u32>,
    pub persistent: Option<FlashPersistence>,
}

impl FlashPersistence {
    pub fn copy(&self) -> (r: FlashPersistence)
        ensures
            r == *self,
    {
        let backing_file = match &self.backing_file {
            Some(f) => Some(f.clone()),
            None => None,
        };
        FlashPersistence { start: self.start, size: self.size, backing_file }
    }
}

impl InternalFlashConfig {
    /// The same configuration: equal fields and the same alias addresses.
    pub open spec fn spec_same(self, other: InternalFlashConfig) -> bool {
        &&& self.model == other.model
        &&& self.start == other.start
        &&& self.size == other.size
        &&& self.aliases@ == other.aliases@
        &&& self.persistent == other.persistent
    }

    pub fn copy(&self) -> (r: InternalFlashConfig)
        ensures
            r.spec_same(*self),
    {
        let mut aliases: Vec<u32> = Vec::new();
        let mut i: usize = 0;
        while i < self.aliases.len()
            invariant
                i <= self.aliases@.len(),
                aliases@ == self.aliases@.take(i as int),
            decreases self.aliases@.len() - i,
        {
            aliases.push(self.aliases[i]);
            i += 1;
            assert(aliases@ =~= self.aliases@.take(i as int));
        }
        assert(aliases@ =~= self.aliases@);
        let persistent = match &self.persistent {
            Some(p) => Some(p.copy()),
            None => None,
        };
        InternalFlashConfig { model: self.model, start: self.start, size: self.size, aliases, persistent }
    }
}

/// Both absent, or the same configuration.
pub open spec fn spec_same_internal_flash(
    a: Option<InternalFlashConfig>,
    b: Option<InternalFlashConfig>,
) -> bool {
    match (a, b) {
        (None, None) => true,
        (Some(x), Some(y)) => x.spec_same(y),
        _ => false,
    }
}

pub fn copy_internal_flash(c: &Option<InternalFlashConfig>) -> (r: Option<InternalFlashConfig>)
    ensures
        spec_same_internal_flash(r, *c),
{
    match c {
        Some(f) => Some(f.copy()),
        None => None,
    }
}

/// Peripheral options of a board configuration.
#[derive(Clone, Debug)]
pub struct PeripheralsConfig {}

/// A board configuration.
#[derive(Clone, Debug)]
pub struct Config {
    pub cpu: Cpu,
    pub regions: Vec<Region>,
    pub internal_flash: Option<InternalFlashConfig>,
    pub patches: Option<Vec<Patch>>,
    pub peripherals: Option<PeripheralsConfig>,
    pub devices: Option<ExtDevicesConfig>,
}

} // verus!
