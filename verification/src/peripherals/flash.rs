use vstd::prelude::*;
use crate::text::str_eq;
use crate::config::{InternalFlashConfig, InternalFlashModel, Region};

verus! {

pub const FLASH_ACR: u32 = 0x00;
pub const FLASH_KEYR: u32 = 0x04;
pub const FLASH_OPTKEYR: u32 = 0x08;
pub const FLASH_SR: u32 = 0x0c;
pub const FLASH_CR: u32 = 0x10;
pub const FLASH_OPTCR: u32 = 0x14;

pub const KEY1: u32 = 0x4567_0123;
pub const KEY2: u32 = 0xcdef_89ab;
/// CR.SER: sector erase.
pub const CR_SER: u32 = 0x2;
/// CR.SNB: sector number, bits 3-7.
pub const CR_SNB_MASK: u32 = 0xf8;
/// CR.STRT: start the operation.
pub const CR_STRT: u32 = 0x1_0000;
/// CR.LOCK.
pub const CR_LOCK: u32 = 0x8000_0000;
/// SR.OPERR.
pub const SR_OPERR: u32 = 0x2;
pub const OPTCR_OPTLOCK: u32 = 1;
/// Reset value of OPTCR: RDP 0xAA, write protection bits, OPTLOCK set.
pub const OPTCR_RESET: u32 = 0x0fff_aaed;
/// Value of erased flash bytes.
pub const ERASED: u8 = 0xff;
/// Size of the STM32F7 dual-bank internal flash.
pub const F7_FLASH_SIZE: u32 = 0x20_0000;

/// Physical offset and size of an STM32F767 dual-bank sector, by the value
/// of CR.SNB: sectors 0-11 of bank 1 are 0-11, those of bank 2 are
/// 0x10-0x1b. Each bank has 4 sectors of 16K, one of 64K, then 7 of 128K.
pub open spec fn spec_sector_range(register_sector: u8) -> Option<(u32, u32)> {
    if register_sector <= 11 || (0x10 <= register_sector && register_sector <= 0x1b) {
        let bank_offset: int = if register_sector <= 11 { 0 } else { 0x10_0000 };
        let bank_sector: int = if register_sector <= 11 {
            register_sector as int
        } else {
            register_sector - 0x10
        };
        let size: int = if bank_sector <= 3 {
            0x4000
        } else if bank_sector == 4 {
            0x1_0000
        } else {
            0x2_0000
        };
        let offset: int = if bank_sector <= 3 {
            bank_sector * 0x4000
        } else if bank_sector == 4 {
            0x1_0000
        } else {
            0x2_0000 + (bank_sector - 5) * 0x2_0000
        };
        Some(((bank_offset + offset) as u32, size as u32))
    } else {
        None
    }
}

/// Why an internal-flash configuration is refused.
#[derive(Clone, Copy, Debug, PartialEq, Eq, Structural)]
pub enum FlashConfigError {
    /// The model needs exactly 0x200000 bytes; the configured size.
    WrongSize(u32),
    /// The flash range runs past the 32-bit address space.
    FlashRangeOverflows,
    /// The persistent range runs past the 32-bit address space.
    PersistentRangeOverflows,
    /// The persistent range lies outside internal flash.
    PersistentOutsideFlash,
}

pub open spec fn spec_validate_config(config: InternalFlashConfig) -> Result<(), FlashConfigError> {
    if config.size != F7_FLASH_SIZE {
        Err(FlashConfigError::WrongSize(config.size))
    } else {
        match config.persistent {
            None => Ok(()),
            Some(p) => if config.start + config.size > u32::MAX {
                Err(FlashConfigError::FlashRangeOverflows)
            } else if p.start + p.size > u32::MAX {
                Err(FlashConfigError::PersistentRangeOverflows)
            } else if p.start < config.start || p.start + p.size > config.start + config.size {
                Err(FlashConfigError::PersistentOutsideFlash)
            } else {
                Ok(())
            },
        }
    }
}

/// Whether `[start, start + size)` lies inside the flash window at `base`
/// (which is `config.size` long, cut at the top of the address space).
pub open spec fn spec_within(base: u32, size: u32, start: u32, len: u32) -> bool {
    start + len <= u32::MAX && start >= base && start + len <= (if base + size > u32::MAX {
        u32::MAX as int
    } else {
        base + size
    })
}

/// Whether a region maps internal flash itself or one of its aliases.
pub open spec fn spec_is_flash_mapping(config: InternalFlashConfig, start: u32, len: u32) -> bool {
    spec_within(config.start, config.size, start, len) || exists|i: int|
        0 <= i < config.aliases@.len() && spec_within(config.aliases@[i], config.size, start, len)
}

/// What the flash interface asks its owner to do after a CR write: fill
/// these `(address, size)` ranges with erased bytes, then save the
/// persistent range to its backing file.
#[derive(Clone, Debug)]
pub struct FlashCommand {
    pub erase: Vec<(u64, u32)>,
    pub persist: bool,
}

/// The flash interface: the unlock key sequence, CR lock, sector erase and
/// persistence on relock.
pub struct Flash {
    pub acr: u32,
    pub sr: u32,
    pub cr: u32,
    pub optcr: u32,
    pub key_stage: u8,
    pub internal: Option<InternalFlashConfig>,
}

/// The erase ranges of a sector: the flash itself, then each alias, at the
/// sector's offset.
pub open spec fn spec_erase_ranges(config: InternalFlashConfig, offset: u32, size: u32) -> Seq<
    (u64, u32),
> {
    seq![((config.start + offset) as u64, size)] + config.aliases@.map_values(
        |a: u32| ((a + offset) as u64, size),
    )
}

impl Flash {
    pub open spec fn spec_read(self, offset: u32) -> u32 {
        if offset == FLASH_ACR {
            self.acr
        } else if offset == FLASH_SR {
            self.sr
        } else if offset == FLASH_CR {
            self.cr
        } else if offset == FLASH_OPTCR {
            self.optcr
        } else {
            0
        }
    }

    pub open spec fn spec_write_key(self, value: u32) -> Flash {
        if self.key_stage == 0 && value == KEY1 {
            Flash { key_stage: 1, ..self }
        } else if self.key_stage == 1 && value == KEY2 {
            Flash { key_stage: 0, cr: self.cr & !CR_LOCK, ..self }
        } else {
            Flash { key_stage: 0, ..self }
        }
    }

    /// The interface after a CR write, the ranges to erase, and whether to
    /// save the persistent range.
    pub open spec fn spec_write_control(self, value: u32) -> (Flash, Seq<(u64, u32)>, bool) {
        if self.spec_locked() && value & CR_LOCK == 0 {
            (self, Seq::empty(), false)
        } else {
            let erase_requested = !self.spec_locked() && value & CR_STRT != 0 && value & CR_SER
                != 0;
            let sector = ((value & CR_SNB_MASK) >> 3u32) as u8;
            let erasable = erase_requested && self.internal is Some && spec_sector_range(
                sector,
            ) is Some;
            (
                Flash {
                    cr: value & !CR_STRT,
                    sr: if erase_requested && !erasable {
                        self.sr | SR_OPERR
                    } else {
                        self.sr
                    },
                    ..self
                },
                if erasable {
                    spec_erase_ranges(
                        self.internal.unwrap(),
                        spec_sector_range(sector).unwrap().0,
                        spec_sector_range(sector).unwrap().1,
                    )
                } else {
                    Seq::empty()
                },
                !self.spec_locked() && value & CR_LOCK != 0,
            )
        }
    }

    /// The interface after a register write other than CR.
    pub open spec fn spec_write(self, offset: u32, value: u32) -> Flash {
        if offset == FLASH_ACR {
            Flash { acr: value, ..self }
        } else if offset == FLASH_KEYR {
            self.spec_write_key(value)
        } else if offset == FLASH_SR {
            Flash { sr: self.sr & !value, ..self }
        } else if offset == FLASH_CR {
            self.spec_write_control(value).0
        } else if offset == FLASH_OPTCR && self.optcr & OPTCR_OPTLOCK == 0 {
            Flash { optcr: value, ..self }
        } else {
            self
        }
    }

    pub open spec fn spec_locked(self) -> bool {
        self.cr & CR_LOCK != 0
    }

    pub fn new(name: &str, internal: Option<InternalFlashConfig>) -> (r: Option<Flash>)
        ensures
            r is Some <==> name@ == "FLASH"@,
            r matches Some(f) ==> f.acr == 0 && f.sr == 0 && f.cr == CR_LOCK && f.optcr
                == OPTCR_RESET && f.key_stage == 0 && f.internal == internal,
    {
        if str_eq(name, "FLASH") {
            Some(Flash { acr: 0, sr: 0, cr: CR_LOCK, optcr: OPTCR_RESET, key_stage: 0, internal })
        } else {
            None
        }
    }

    /// ACR keeps latency and cache bits as written.
    pub fn acr_after_write(value: u32) -> (r: u32)
        ensures
            r == value,
    {
        value
    }

    pub fn sector_range(register_sector: u8) -> (r: Option<(u32, u32)>)
        ensures
            r == spec_sector_range(register_sector),
    {
        let (bank_offset, bank_sector): (u32, u8) = if register_sector <= 11 {
            (0, register_sector)
        } else if 0x10 <= register_sector && register_sector <= 0x1b {
            (0x10_0000, register_sector - 0x10)
        } else {
            return None;
        };
        let sector_size: u32 = if bank_sector <= 3 {
            16 * 1024
        } else if bank_sector == 4 {
            64 * 1024
        } else {
            128 * 1024
        };
        let sector_offset: u32 = if bank_sector <= 3 {
            (bank_sector as u32) * 16 * 1024
        } else if bank_sector == 4 {
            64 * 1024
        } else {
            128 * 1024 + ((bank_sector - 5) as u32) * 128 * 1024
        };
        Some((bank_offset + sector_offset, sector_size))
    }

    /// Checks an internal-flash configuration: the F7 dual-bank model needs
    /// 0x200000 bytes, and a persistent range must lie inside flash.
    pub fn validate_config(config: &InternalFlashConfig) -> (r: Result<(), FlashConfigError>)
        ensures
            r == spec_validate_config(*config),
    {
        if config.size != F7_FLASH_SIZE {
            return Err(FlashConfigError::WrongSize(config.size));
        }
        match &config.persistent {
            None => Ok(()),
            Some(persistent) => {
                let flash_end = match config.start.checked_add(config.size) {
                    Some(e) => e,
                    None => return Err(FlashConfigError::FlashRangeOverflows),
                };
                let persistent_end = match persistent.start.checked_add(persistent.size) {
                    Some(e) => e,
                    None => return Err(FlashConfigError::PersistentRangeOverflows),
                };
                if persistent.start < config.start || persistent_end > flash_end {
                    Err(FlashConfigError::PersistentOutsideFlash)
                } else {
                    Ok(())
                }
            },
        }
    }

    fn within(base: u32, size: u32, start: u32, len: u32) -> (r: bool)
        ensures
            r == spec_within(base, size, start, len),
    {
        match start.checked_add(len) {
            None => false,
            Some(end) => start >= base && end <= base.saturating_add(size),
        }
    }

    /// Whether `[start, start + size)` maps internal flash or an alias.
    pub fn is_flash_mapping(config: &InternalFlashConfig, start: u32, size: u32) -> (r: bool)
        ensures
            r == spec_is_flash_mapping(*config, start, size),
    {
        if Self::within(config.start, config.size, start, size) {
            return true;
        }
        let mut i: usize = 0;
        while i < config.aliases.len()
            invariant
                i <= config.aliases@.len(),
                forall|j: int|
                    0 <= j < i ==> !spec_within(config.aliases@[j], config.size, start, size),
            decreases config.aliases@.len() - i,
        {
            if Self::within(config.aliases[i], config.size, start, size) {
                return true;
            }
            i += 1;
        }
        false
    }

    /// The key register: KEY1 then KEY2 unlocks CR; anything else restarts
    /// the sequence.
    pub fn write_key(&mut self, value: u32)
        ensures
            *final(self) == old(self).spec_write_key(value),
    {
        if self.key_stage == 0 && value == KEY1 {
            self.key_stage = 1;
        } else if self.key_stage == 1 && value == KEY2 {
            self.key_stage = 0;
            self.cr = self.cr & !CR_LOCK;
        } else {
            self.key_stage = 0;
        }
    }

    fn erase_ranges(config: &InternalFlashConfig, offset: u32, size: u32) -> (r: Vec<(u64, u32)>)
        ensures
            r@ == spec_erase_ranges(*config, offset, size),
    {
        let mut r: Vec<(u64, u32)> = Vec::new();
        r.push((config.start as u64 + offset as u64, size));
        let mut i: usize = 0;
        while i < config.aliases.len()
            invariant
                i <= config.aliases@.len(),
                r@ == seq![((config.start + offset) as u64, size)] + config.aliases@.subrange(
                    0,
                    i as int,
                ).map_values(|a: u32| ((a + offset) as u64, size)),
            decreases config.aliases@.len() - i,
        {
            let a = config.aliases[i];
            r.push((a as u64 + offset as u64, size));
            assert(config.aliases@.subrange(0, i + 1) == config.aliases@.subrange(0, i as int).push(
                a,
            ));
            i += 1;
        }
        assert(config.aliases@.subrange(0, config.aliases@.len() as int) == config.aliases@);
        r
    }

    /// A CR write. While locked, only writes that keep LOCK set are taken.
    /// Once unlocked, SER with STRT erases the sector named by SNB (an
    /// unknown sector, or no internal-flash configuration, sets OPERR), and
    /// setting LOCK again asks for the persistent range to be saved.
    pub fn write_control(&mut self, value: u32) -> (cmd: FlashCommand)
        ensures
            (*final(self), cmd.erase@, cmd.persist) == old(self).spec_write_control(value),
    {
        let was_locked = self.cr & CR_LOCK != 0;
        let mut cmd = FlashCommand { erase: Vec::new(), persist: false };
        if was_locked && value & CR_LOCK == 0 {
            return cmd;
        }
        self.cr = value & !CR_STRT;
        if !was_locked && value & CR_STRT != 0 && value & CR_SER != 0 {
            let register_sector = ((value & CR_SNB_MASK) >> 3u32) as u8;
            match (&self.internal, Self::sector_range(register_sector)) {
                (Some(config), Some((offset, size))) => {
                    cmd.erase = Self::erase_ranges(config, offset, size);
                },
                _ => {
                    self.sr = self.sr | SR_OPERR;
                },
            }
        }
        if !was_locked && value & CR_LOCK != 0 {
            cmd.persist = true;
        }
        cmd
    }

    /// Records that an erase or save that was asked for failed.
    pub fn report_operation_error(&mut self)
        ensures
            final(self).sr == old(self).sr | SR_OPERR,
            final(self).cr == old(self).cr,
            final(self).key_stage == old(self).key_stage,
    {
        self.sr = self.sr | SR_OPERR;
    }

    pub fn read(&self, offset: u32) -> (v: u32)
        ensures
            v == self.spec_read(offset),
    {
        if offset == FLASH_ACR {
            self.acr
        } else if offset == FLASH_SR {
            self.sr
        } else if offset == FLASH_CR {
            self.cr
        } else if offset == FLASH_OPTCR {
            self.optcr
        } else {
            0
        }
    }

    /// A register write; a CR write may ask for an erase or a save.
    pub fn write(&mut self, offset: u32, value: u32) -> (cmd: Option<FlashCommand>)
        ensures
            *final(self) == old(self).spec_write(offset, value),
            (cmd is Some) <==> offset == FLASH_CR,
            cmd matches Some(c) ==> (c.erase@, c.persist) == (
                old(self).spec_write_control(value).1,
                old(self).spec_write_control(value).2,
            ),
    {
        if offset == FLASH_ACR {
            self.acr = Self::acr_after_write(value);
            None
        } else if offset == FLASH_KEYR {
            self.write_key(value);
            None
        } else if offset == FLASH_SR {
            self.sr = self.sr & !value;
            None
        } else if offset == FLASH_CR {
            Some(self.write_control(value))
        } else if offset == FLASH_OPTCR {
            if self.optcr & OPTCR_OPTLOCK == 0 {
                self.optcr = value;
            }
            None
        } else {
            None
        }
    }
}

/// Writing KEY1 then KEY2 to the key register clears CR.LOCK, from any
/// state where the sequence has not been started.
pub proof fn law_flash_key_sequence_unlocks(f: Flash)
    requires
        f.key_stage == 0,
    ensures
        !f.spec_write_key(KEY1).spec_write_key(KEY2).spec_locked(),
{
    let c = f.cr;
    assert((c & !0x8000_0000u32) & 0x8000_0000u32 == 0) by (bit_vector);
}

/// Any other write to the key register restarts the sequence, so KEY2 on
/// its own never unlocks.
pub proof fn law_flash_key2_alone_keeps_lock(f: Flash)
    requires
        f.key_stage == 0,
    ensures
        f.spec_write_key(KEY2).cr == f.cr,
{
}

/// The regions of guest memory that map internal flash or an alias, as
/// `(start, size)`, in order.
pub open spec fn spec_flash_regions(config: InternalFlashConfig, regions: Seq<Region>) -> Seq<(u32, u32)>
    decreases regions.len(),
{
    if regions.len() == 0 {
        Seq::empty()
    } else {
        let rest = spec_flash_regions(config, regions.drop_last());
        let r = regions.last();
        if spec_is_flash_mapping(config, r.start, r.size) {
            rest.push((r.start, r.size))
        } else {
            rest
        }
    }
}

/// Why a saved image of the persistent flash range is not loaded.
#[derive(Clone, Copy, Debug, PartialEq, Eq, Structural)]
pub enum PersistentImageError {
    /// The image is not exactly as long as the persistent range.
    WrongSize { actual: usize, expected: u32 },
}

impl Flash {
    /// The regions to fill with erased bytes at start-up: those that map
    /// internal flash or an alias, once the configuration is valid.
    pub fn initial_erase_ranges(config: &InternalFlashConfig, regions: &Vec<Region>) -> (r: Result<
        Vec<(u32, u32)>,
        FlashConfigError,
    >)
        ensures
            r matches Err(e) ==> spec_validate_config(*config) == Err::<(), FlashConfigError>(e),
            r is Ok <==> spec_validate_config(*config) is Ok,
            r matches Ok(v) ==> v@ == spec_flash_regions(*config, regions@),
    {
        match Self::validate_config(config) {
            Err(e) => return Err(e),
            Ok(()) => {},
        }
        let mut v: Vec<(u32, u32)> = Vec::new();
        let mut i: usize = 0;
        while i < regions.len()
            invariant
                i <= regions@.len(),
                v@ == spec_flash_regions(*config, regions@.take(i as int)),
            decreases regions@.len() - i,
        {
            proof {
                assert(regions@.take(i + 1).drop_last() =~= regions@.take(i as int));
                assert(regions@.take(i + 1).last() == regions@[i as int]);
            }
            if Self::is_flash_mapping(config, regions[i].start, regions[i].size) {
                v.push((regions[i].start, regions[i].size));
            }
            i += 1;
        }
        assert(regions@.take(i as int) =~= regions@);
        Ok(v)
    }

    /// Where a saved image of `len` bytes of the persistent range goes at
    /// start-up: the persistent range itself, then the same place in each
    /// alias. An image of another length is refused.
    pub fn persistent_image_targets(config: &InternalFlashConfig, len: usize) -> (r: Result<
        Vec<u32>,
        PersistentImageError,
    >)
        requires
            config.persistent matches Some(p) && p.start >= config.start && forall|i: int|
                0 <= i < config.aliases@.len() ==> config.aliases@[i] + (p.start - config.start)
                    <= u32::MAX,
        ensures
            ({
                let p = config.persistent.unwrap();
                &&& (r is Ok) <==> len == p.size
                &&& r matches Err(e) ==> e == (PersistentImageError::WrongSize {
                    actual: len,
                    expected: p.size,
                })
                &&& r matches Ok(v) ==> v@ == seq![p.start] + config.aliases@.map_values(
                    |a: u32| (a + (p.start - config.start)) as u32,
                )
            }),
    {
        let p = match &config.persistent {
            Some(p) => p,
            None => return Err(PersistentImageError::WrongSize { actual: len, expected: 0 }),
        };
        if len != p.size as usize {
            return Err(PersistentImageError::WrongSize { actual: len, expected: p.size });
        }
        let offset = p.start - config.start;
        let mut v: Vec<u32> = Vec::new();
        v.push(p.start);
        let mut i: usize = 0;
        while i < config.aliases.len()
            invariant
                i <= config.aliases@.len(),
                offset == p.start - config.start,
                config.persistent == Some(*p),
                forall|j: int|
                    0 <= j < config.aliases@.len() ==> config.aliases@[j] + offset <= u32::MAX,
                v@ == seq![p.start] + config.aliases@.take(i as int).map_values(
                    |a: u32| (a + offset) as u32,
                ),
            decreases config.aliases@.len() - i,
        {
            v.push(config.aliases[i] + offset);
            assert(config.aliases@.take(i + 1) =~= config.aliases@.take(i as int).push(
                config.aliases@[i as int],
            ));
            assert(v@ =~= seq![p.start] + config.aliases@.take(i + 1).map_values(
                |a: u32| (a + offset) as u32,
            ));
            i += 1;
        }
        assert(config.aliases@.take(i as int) =~= config.aliases@);
        Ok(v)
    }

    /// The range saved when the control register is locked again, and
    /// whether there is a backing file to save it to.
    pub fn persist_target(&self) -> (r: Option<(u32, u32)>)
        ensures
            r == match self.internal {
                Some(c) => match c.persistent {
                    Some(p) => if p.backing_file is Some {
                        Some((p.start, p.size))
                    } else {
                        None
                    },
                    None => None,
                },
                None => None,
            },
    {
        match &self.internal {
            Some(c) => match &c.persistent {
                Some(p) => if p.backing_file.is_some() {
                    Some((p.start, p.size))
                } else {
                    None
                },
                None => None,
            },
            None => None,
        }
    }
}

/// With the interface unlocked and an internal flash configured, a CR
/// write with SER and STRT erases the sector named by the whole SNB field
/// (bits 3 to 7 of the value): that sector's range in flash and in each
/// alias, in that order. A field that names no sector erases nothing and
/// sets OPERR.
pub proof fn law_flash_erase_follows_the_snb_field(f: Flash, value: u32)
    requires
        !f.spec_locked(),
        f.internal is Some,
        value & CR_STRT != 0,
        value & CR_SER != 0,
    ensures
        ({
            let snb = ((value as int / 8) % 32) as u8;
            let (next, erase, _) = f.spec_write_control(value);
            let c = f.internal.unwrap();
            match spec_sector_range(snb) {
                Some((offset, size)) => {
                    &&& erase.len() == 1 + c.aliases@.len()
                    &&& erase[0] == ((c.start + offset) as u64, size)
                    &&& forall|j: int|
                        0 <= j < c.aliases@.len() ==> #[trigger] erase[1 + j] == ((c.aliases@[j]
                            + offset) as u64, size)
                },
                None => erase.len() == 0 && next.sr & SR_OPERR != 0,
            }
        }),
{
    assert((value & 0xf8u32) >> 3u32 == (value / 8) % 32) by (bit_vector);
    let sr = f.sr;
    assert((sr | 2u32) & 2u32 != 0) by (bit_vector);
    let snb = ((value as int / 8) % 32) as u8;
    let c = f.internal.unwrap();
    match spec_sector_range(snb) {
        Some((offset, size)) => {
            let e = spec_erase_ranges(c, offset, size);
            assert forall|j: int| 0 <= j < c.aliases@.len() implies #[trigger] e[1 + j] == ((
            c.aliases@[j] + offset) as u64, size) by {}
        },
        None => {},
    }
}

/// The sectors of each 1 MiB bank lie end to end: four of 16 KiB, one of
/// 64 KiB, then seven of 128 KiB, sector 0 at the bank's start and sector
/// 11 ending at its end. SNB 0x10 + s names sector s of bank 2, 1 MiB
/// above sector s of bank 1; SNB 12-15 and above 0x1b name no sector.
pub proof fn law_flash_sectors_tile_the_banks(s: u8, n: u8)
    requires
        s <= 11,
    ensures
        ({
            let r = spec_sector_range(s);
            let offset = r.unwrap().0;
            let size = r.unwrap().1;
            &&& r is Some
            &&& size == (if s <= 3 {
                0x4000u32
            } else if s == 4 {
                0x1_0000u32
            } else {
                0x2_0000u32
            })
            &&& s == 0 ==> offset == 0
            &&& s == 11 ==> offset + size == 0x10_0000
            &&& s < 11 ==> spec_sector_range((s + 1) as u8) is Some && spec_sector_range(
                (s + 1) as u8,
            ).unwrap().0 == offset + size
            &&& spec_sector_range((s + 0x10) as u8) == Some(((offset + 0x10_0000) as u32, size))
        }),
        (12 <= n < 0x10 || n > 0x1b) ==> spec_sector_range(n) is None,
{
}

/// A CR write erases nothing unless the interface was unlocked and the
/// value sets both SER and STRT.
pub proof fn law_flash_erase_needs_unlock_ser_and_strt(f: Flash, value: u32)
    requires
        f.spec_locked() || value & CR_STRT == 0 || value & CR_SER == 0,
    ensures
        f.spec_write_control(value).1.len() == 0,
{
}

} // verus!
