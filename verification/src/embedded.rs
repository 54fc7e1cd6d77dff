use vstd::prelude::*;
use crate::config::{Config, FlashPersistence, InternalFlashConfig, Region};
use crate::ext_devices::embedded_cdc::EmbeddedCdcLink;
use crate::ext_devices::embedded_ecu_io::EmbeddedEcuIoLink;
use crate::paths::{join, spec_join};

verus! {

/// How to run a board configuration inside a host program.
#[derive(Debug)]
pub struct EmbeddedEmulatorOptions {
    pub config_path: String,
    /// A backing file, chosen by the host, for the persistent range of
    /// internal flash.
    pub flash_backing_path: Option<String>,
    pub verbose: u8,
    pub max_instructions: Option<u64>,
    pub stop_addr: Option<u32>,
    pub busy_loop_stop: bool,
    pub interrupt_period: u32,
    pub dump_stack: Option<usize>,
    pub cdc_link: Option<EmbeddedCdcLink>,
    pub ecu_io_link: Option<EmbeddedEcuIoLink>,
}

impl EmbeddedEmulatorOptions {
    /// Options that run without an instruction limit and check interrupts
    /// after every instruction.
    pub fn new(config_path: &str) -> (o: EmbeddedEmulatorOptions)
        ensures
            o.config_path@ == config_path@,
            o.flash_backing_path is None,
            o.verbose == 0,
            o.max_instructions is None,
            o.stop_addr is None,
            !o.busy_loop_stop,
            o.interrupt_period == 1,
            o.dump_stack is None,
            o.cdc_link is None,
            o.ecu_io_link is None,
    {
        EmbeddedEmulatorOptions {
            config_path: config_path.to_owned(),
            flash_backing_path: None,
            verbose: 0,
            max_instructions: None,
            stop_addr: None,
            busy_loop_stop: false,
            interrupt_period: 1,
            dump_stack: None,
            cdc_link: None,
            ecu_io_link: None,
        }
    }

    /// Interrupts are checked at least every instruction.
    pub fn effective_interrupt_period(&self) -> (p: u32)
        ensures
            p == if self.interrupt_period == 0 {
                1
            } else {
                self.interrupt_period
            },
    {
        if self.interrupt_period == 0 {
            1
        } else {
            self.interrupt_period
        }
    }
}

/// Admits one embedded emulator at a time.
pub struct EmbeddedRunGuard {
    pub running: bool,
}

impl EmbeddedRunGuard {
    pub fn new() -> (g: EmbeddedRunGuard)
        ensures
            !g.running,
    {
        EmbeddedRunGuard { running: false }
    }

    /// Takes the run slot, or refuses while it is taken.
    pub fn acquire(&mut self) -> (r: Result<(), &'static str>)
        ensures
            r is Ok <==> !old(self).running,
            r matches Err(e) ==> e == "only one embedded STM32 emulator can run in this process",
            final(self).running,
    {
        if self.running {
            return Err("only one embedded STM32 emulator can run in this process");
        }
        self.running = true;
        Ok(())
    }

    /// Gives the run slot back.
    pub fn release(&mut self)
        ensures
            !final(self).running,
    {
        self.running = false;
    }
}

/// `value` resolved against the configuration's directory `base`.
pub fn resolve_path(base: &str, value: &str) -> (r: String)
    ensures
        r@ == spec_join(base@, value@),
{
    join(base, value)
}

/// The regions with each file to load resolved against `base`.
pub open spec fn spec_resolved_regions(regions: Seq<Region>, resolved: Seq<Region>, base: Seq<char>) -> bool {
    &&& resolved.len() == regions.len()
    &&& forall|i: int|
        0 <= i < regions.len() ==> {
            let a = #[trigger] regions[i];
            let b = resolved[i];
            &&& b.name == a.name
            &&& b.start == a.start
            &&& b.size == a.size
            &&& match a.load {
                Some(l) => b.load matches Some(l2) && l2@ == spec_join(base, l@),
                None => b.load is None,
            }
        }
}

/// Resolves every relative path of a configuration against the directory
/// `base` of its file: the SVD, the files loaded into regions and the
/// flash backing file.
pub fn resolve_config_paths(config: &mut Config, base: &str)
    ensures
        final(config).cpu.svd@ == spec_join(base@, old(config).cpu.svd@),
        final(config).cpu.model == old(config).cpu.model,
        final(config).cpu.vector_table == old(config).cpu.vector_table,
        spec_resolved_regions(old(config).regions@, final(config).regions@, base@),
        match old(config).internal_flash {
            None => final(config).internal_flash is None,
            Some(f) => final(config).internal_flash matches Some(f2) && {
                &&& f2.model == f.model
                &&& f2.start == f.start
                &&& f2.size == f.size
                &&& f2.aliases@ == f.aliases@
                &&& match f.persistent {
                    None => f2.persistent is None,
                    Some(p) => f2.persistent matches Some(p2) && p2.start == p.start && p2.size
                        == p.size && match p.backing_file {
                        None => p2.backing_file is None,
                        Some(b) => p2.backing_file matches Some(b2) && b2@ == spec_join(base@, b@),
                    },
                }
            },
        },
{
    let svd = resolve_path(base, config.cpu.svd.as_str());
    config.cpu.svd = svd;
    let n = config.regions.len();
    let mut i: usize = 0;
    while i < n
        invariant
            n == config.regions@.len(),
            n == old(config).regions@.len(),
            i <= n,
            config.cpu.svd@ == spec_join(base@, old(config).cpu.svd@),
            config.cpu.model == old(config).cpu.model,
            config.cpu.vector_table == old(config).cpu.vector_table,
            config.internal_flash == old(config).internal_flash,
            forall|j: int|
                0 <= j < n ==> {
                    let a = #[trigger] old(config).regions@[j];
                    let b = config.regions@[j];
                    &&& b.name == a.name
                    &&& b.start == a.start
                    &&& b.size == a.size
                    &&& j >= i ==> b.load == a.load
                    &&& j < i ==> match a.load {
                        Some(l) => b.load matches Some(l2) && l2@ == spec_join(base@, l@),
                        None => b.load is None,
                    }
                },
        decreases n - i,
    {
        let resolved = match &config.regions[i].load {
            Some(l) => Some(resolve_path(base, l.as_str())),
            None => None,
        };
        let ghost before = config.regions@;
        config.regions[i].load = resolved;
        proof {
            assert forall|j: int| 0 <= j < n && j != i implies #[trigger] config.regions@[j] == before[j] by {}
        }
        i += 1;
    }
    match &mut config.internal_flash {
        Some(f) => match &mut f.persistent {
            Some(p) => {
                let resolved = match &p.backing_file {
                    Some(b) => Some(resolve_path(base, b.as_str())),
                    None => None,
                };
                p.backing_file = resolved;
            },
            None => {},
        },
        None => {},
    }
}

/// Points the persistent flash range at the host's backing file; without
/// a persistent range there is nothing to point.
pub fn apply_flash_backing_path(config: &mut Config, backing_file: String) -> (r: Result<
    (),
    &'static str,
>)
    ensures
        r is Ok <==> (old(config).internal_flash matches Some(f) && f.persistent is Some),
        r matches Err(e) ==> e
            == "flash_backing_path requires an internal_flash.persistent configuration",
        r is Err ==> *final(config) == *old(config),
        r is Ok ==> (old(config).internal_flash matches Some(f) && f.persistent matches Some(p)
            && *final(config) == (Config {
            internal_flash: Some(
                InternalFlashConfig {
                    persistent: Some(FlashPersistence { backing_file: Some(backing_file), ..p }),
                    ..f
                },
            ),
            ..*old(config)
        })),
{
    match &mut config.internal_flash {
        Some(f) => match &mut f.persistent {
            Some(p) => {
                p.backing_file = Some(backing_file);
                Ok(())
            },
            None => Err("flash_backing_path requires an internal_flash.persistent configuration"),
        },
        None => Err("flash_backing_path requires an internal_flash.persistent configuration"),
    }
}

/// CDC protocol tracing is on when the variable is set to anything but
/// empty or "0".
pub fn cdc_trace_enabled(value: Option<&str>) -> (r: bool)
    ensures
        r == match value {
            Some(v) => v@.len() > 0 && v@ != "0"@,
            None => false,
        },
{
    match value {
        Some(v) => {
            let c = crate::text::chars_of(v);
            proof {
                reveal_strlit("0");
                assert("0"@ =~= seq!['0']);
                if c.len() == 1 && c[0] == '0' {
                    assert(v@ =~= "0"@);
                }
            }
            !(c.len() == 0) && !(c.len() == 1 && c[0] == '0')
        },
        None => false,
    }
}

} // verus!
