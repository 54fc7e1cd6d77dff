use vstd::prelude::*;
use crate::config::{InternalFlashConfig, copy_internal_flash, spec_same_internal_flash};
use crate::text::str_eq;
use super::{
    GenericPeripheral, Model, OverlapError, PeripheralSlot, Peripherals, last_start_at_or_below,
    lemma_find_bounds, lemma_find_same_layout, max_register_offset, spec_has_model,
    spec_in_reset_state, spec_max_offset, spec_model_matches, spec_modeled_range,
    spec_no_overlap, spec_placed,
};
use super::exti::Exti;
use super::svd_screen::{spec_svd_screened, svd_text_screened};
use super::nvic::Nvic;

verus! {

/// A register block of the device description, as the bus layout reads
/// it: its name, base address, the block it derives its registers from,
/// and its registers by offset.
pub struct SvdPeripheral {
    pub name: String,
    pub base_address: u64,
    pub derived_from: Option<String>,
    pub registers: Vec<(u32, String)>,
}

/// The register blocks that `svd_parser::parse` finds in a device
/// description, or `None` when it refuses the text.
pub uninterp spec fn svd_parse_result(xml: Seq<char>) -> Option<Seq<SvdPeripheral>>;

/// Parses a device description with `svd_parser::parse` (its default
/// configuration, which leaves derivations unexpanded) and hands out each
/// register block as listed: name, base address, `derivedFrom`, and the
/// offset and name of each register that `PeripheralInfo::registers`
/// yields (the registers listed directly in the block). The outcome is
/// named, not stated; the error text is the parser's and is left unsaid.
/// The text must pass the screen of `svd_screen`: on the shapes it turns
/// away the parser unwraps a missing child, overflows a bit width or
/// spells out an index range of billions of names.
#[verifier::external_body]
fn parse_svd(xml: &str) -> (r: Result<Vec<SvdPeripheral>, String>)
    requires
        spec_svd_screened(xml@),
    ensures
        match r {
            Ok(v) => svd_parse_result(xml@) == Some(v@),
            Err(_) => svd_parse_result(xml@) is None,
        },
{
    match svd_parser::parse(xml) {
        Ok(device) => Ok(device.peripherals.iter().map(|p| SvdPeripheral {
            name: p.name.clone(),
            base_address: p.base_address,
            derived_from: p.derived_from.clone(),
            registers: p.registers().map(|r| (r.address_offset, r.name.clone())).collect(),
        }).collect()),
        Err(e) => Err(format!("{e:#}")),
    }
}

/// Where a block with base address `b` goes in blocks sorted by base
/// address: after every block whose base is at or below it.
pub open spec fn spec_upper_bound(s: Seq<SvdPeripheral>, b: u64) -> int
    decreases s.len(),
{
    if s.len() == 0 {
        0
    } else if s.last().base_address <= b {
        s.len() as int
    } else {
        spec_upper_bound(s.drop_last(), b)
    }
}

/// The blocks in order of base address; blocks with equal base addresses
/// keep their order (a stable sort).
pub open spec fn spec_sort_by_base(s: Seq<SvdPeripheral>) -> Seq<SvdPeripheral>
    decreases s.len(),
{
    if s.len() == 0 {
        s
    } else {
        let sorted = spec_sort_by_base(s.drop_last());
        sorted.insert(spec_upper_bound(sorted, s.last().base_address), s.last())
    }
}

pub open spec fn sorted_by_base(s: Seq<SvdPeripheral>) -> bool {
    forall|i: int, j: int| 0 <= i < j < s.len() ==> s[i].base_address <= s[j].base_address
}

proof fn lemma_upper_bound_prefix(s: Seq<SvdPeripheral>, b: u64, k: int)
    requires
        0 <= k <= s.len(),
        forall|j: int| 0 <= j < k ==> s[j].base_address <= b,
        forall|j: int| k <= j < s.len() ==> s[j].base_address > b,
    ensures
        spec_upper_bound(s, b) == k,
    decreases s.len(),
{
    if s.len() > 0 && k < s.len() {
        let t = s.drop_last();
        assert forall|j: int| 0 <= j < k implies t[j].base_address <= b by {
            assert(t[j] == s[j]);
        }
        assert forall|j: int| k <= j < t.len() implies t[j].base_address > b by {
            assert(t[j] == s[j]);
        }
        lemma_upper_bound_prefix(t, b, k);
    }
}

/// In blocks sorted by base address, the upper bound splits them into
/// those at or below `b` and those above it.
proof fn lemma_upper_bound_sorted(s: Seq<SvdPeripheral>, b: u64)
    requires
        sorted_by_base(s),
    ensures
        0 <= spec_upper_bound(s, b) <= s.len(),
        forall|j: int| 0 <= j < spec_upper_bound(s, b) ==> s[j].base_address <= b,
        forall|j: int| spec_upper_bound(s, b) <= j < s.len() ==> s[j].base_address > b,
    decreases s.len(),
{
    if s.len() > 0 && s.last().base_address > b {
        let t = s.drop_last();
        assert forall|i: int, j: int| 0 <= i < j < t.len() implies t[i].base_address
            <= t[j].base_address by {
            assert(t[i] == s[i] && t[j] == s[j]);
        }
        lemma_upper_bound_sorted(t, b);
        assert forall|j: int| 0 <= j < spec_upper_bound(s, b) implies s[j].base_address <= b by {
            assert(t[j] == s[j]);
        }
        assert forall|j: int| spec_upper_bound(s, b) <= j < s.len() implies s[j].base_address
            > b by {
            if j < t.len() {
                assert(t[j] == s[j]);
            }
        }
    } else if s.len() > 0 {
        assert forall|j: int| 0 <= j < s.len() implies s[j].base_address <= b by {
            if j < s.len() - 1 {
                assert(s[j].base_address <= s[s.len() - 1].base_address);
            }
        }
    }
}

/// Sorting orders the blocks by base address and keeps every block.
pub proof fn lemma_sort_by_base(s: Seq<SvdPeripheral>)
    ensures
        sorted_by_base(spec_sort_by_base(s)),
        spec_sort_by_base(s).len() == s.len(),
        spec_sort_by_base(s).to_multiset() == s.to_multiset(),
    decreases s.len(),
{
    broadcast use vstd::seq_lib::group_to_multiset_ensures;

    if s.len() > 0 {
        let t = s.drop_last();
        let x = s.last();
        lemma_sort_by_base(t);
        let sorted = spec_sort_by_base(t);
        lemma_upper_bound_sorted(sorted, x.base_address);
        let k = spec_upper_bound(sorted, x.base_address);
        let r = sorted.insert(k, x);
        assert forall|i: int, j: int| 0 <= i < j < r.len() implies r[i].base_address
            <= r[j].base_address by {
            if j < k {
                assert(r[i] == sorted[i] && r[j] == sorted[j]);
            } else if j == k {
                assert(r[i] == sorted[i]);
            } else if i < k {
                assert(r[i] == sorted[i] && r[j] == sorted[j - 1]);
            } else if i == k {
                assert(r[j] == sorted[j - 1]);
            } else {
                assert(r[i] == sorted[i - 1] && r[j] == sorted[j - 1]);
            }
        }
        assert(s =~= t.push(x));
        assert(r.to_multiset() == sorted.to_multiset().insert(x));
        assert(s.to_multiset() == t.to_multiset().insert(x));
    }
}

/// Sorts the blocks by base address, keeping blocks with equal base
/// addresses in their order.
pub fn sort_by_base_address(v: Vec<SvdPeripheral>) -> (r: Vec<SvdPeripheral>)
    ensures
        r@ == spec_sort_by_base(v@),
{
    let ghost orig = v@;
    let mut rest = v;
    let mut out: Vec<SvdPeripheral> = Vec::new();
    let n = rest.len();
    let mut i: usize = 0;
    while i < n
        invariant
            n == orig.len(),
            i <= n,
            rest@ == orig.skip(i as int),
            out@ == spec_sort_by_base(orig.take(i as int)),
        decreases n - i,
    {
        let x = rest.remove(0);
        assert(x == orig[i as int]);
        assert(rest@ =~= orig.skip(i as int + 1));
        let mut k: usize = 0;
        while k < out.len() && out[k].base_address <= x.base_address
            invariant
                0 <= k <= out@.len(),
                forall|j: int| 0 <= j < k ==> out@[j].base_address <= x.base_address,
            decreases out@.len() - k,
        {
            k += 1;
        }
        proof {
            lemma_sort_by_base(orig.take(i as int));
            assert forall|j: int| k <= j < out@.len() implies out@[j].base_address
                > x.base_address by {
                if k < out@.len() {
                    assert(out@[k as int].base_address > x.base_address);
                    assert(out@[k as int].base_address <= out@[j].base_address);
                }
            }
            lemma_upper_bound_prefix(out@, x.base_address, k as int);
            assert(orig.take(i as int + 1).drop_last() =~= orig.take(i as int));
        }
        out.insert(k, x);
        i += 1;
    }
    assert(orig.take(n as int) =~= orig);
    out
}

/// Index of the last block named `name`, or -1: of blocks with the same
/// name, the later one is the one a derivation refers to.
pub open spec fn spec_last_named(s: Seq<SvdPeripheral>, name: Seq<char>) -> int
    decreases s.len(),
{
    if s.len() == 0 {
        -1
    } else if s.last().name@ == name {
        s.len() - 1
    } else {
        spec_last_named(s.drop_last(), name)
    }
}

proof fn lemma_last_named_bounds(s: Seq<SvdPeripheral>, name: Seq<char>)
    ensures
        -1 <= spec_last_named(s, name) < s.len(),
        spec_last_named(s, name) >= 0 ==> s[spec_last_named(s, name)].name@ == name,
    decreases s.len(),
{
    if s.len() > 0 && s.last().name@ != name {
        lemma_last_named_bounds(s.drop_last(), name);
        let j = spec_last_named(s.drop_last(), name);
        if j >= 0 {
            assert(s.drop_last()[j] == s[j]);
        }
    }
}

/// The registers block `i` is laid out with: its own, or those of the
/// block it derives from; `None` when no block has that name.
pub open spec fn spec_resolved_registers(s: Seq<SvdPeripheral>, i: int) -> Option<
    Seq<(u32, String)>,
> {
    match s[i].derived_from {
        None => Some(s[i].registers@),
        Some(d) => {
            let j = spec_last_named(s, d@);
            if j >= 0 {
                Some(s[j].registers@)
            } else {
                None
            }
        },
    }
}

/// A block at `base` with these registers, and the range its model
/// covers, stay within the 32-bit address space.
pub open spec fn spec_block_fits(name: Seq<char>, base: u32, regs: Seq<(u32, String)>) -> bool {
    &&& spec_max_offset(regs) <= u32::MAX - 4
    &&& base + spec_max_offset(regs) + 4 <= u32::MAX
    &&& name == "OTG_FS_GLOBAL"@ ==> base <= u32::MAX - 0x7000
    &&& name == "SCB"@ ==> base <= u32::MAX - 0x008f
}

pub const UNSUPPORTED_SVD_MESSAGE: &'static str =
    "The device description holds an empty writeConstraint, an out-of-range bit range or index list, or an entity declaration";

/// Why a device description cannot be laid out on the bus.
#[derive(Debug)]
pub enum SvdLayoutError {
    /// The text is no device description; the parser's message.
    Parse(String),
    /// A block derives from a block that the description does not have.
    UnknownDerivation(String),
    /// The named block runs past the end of the address space.
    AddressOverflow(String),
    /// Two register blocks overlap.
    Overlap(OverlapError),
    /// The text holds an element shape that the parser is not handed
    /// (see `svd_screen`).
    Unsupported,
}

impl SvdLayoutError {
    pub fn message(&self) -> (m: String)
        ensures
            m@ == match self {
                SvdLayoutError::Parse(e) => e@,
                SvdLayoutError::UnknownDerivation(n) => "Cannot find peripheral "@ + n@,
                SvdLayoutError::AddressOverflow(n) => "Register block "@ + n@
                    + " does not fit in the address space"@,
                SvdLayoutError::Overlap(e) => "Overlapping register blocks between "@ + e.first@
                    + " and "@ + e.second@,
                SvdLayoutError::Unsupported => UNSUPPORTED_SVD_MESSAGE@,
            },
    {
        match self {
            SvdLayoutError::Parse(e) => e.clone(),
            SvdLayoutError::UnknownDerivation(n) => {
                let mut m = String::new();
                m.append("Cannot find peripheral ");
                m.append(n.as_str());
                m
            },
            SvdLayoutError::AddressOverflow(n) => {
                let mut m = String::new();
                m.append("Register block ");
                m.append(n.as_str());
                m.append(" does not fit in the address space");
                m
            },
            SvdLayoutError::Overlap(e) => e.message(),
            SvdLayoutError::Unsupported => {
                let mut m = String::new();
                m.append(UNSUPPORTED_SVD_MESSAGE);
                m
            },
        }
    }
}

/// What stops block `i` from being registered, if anything.
pub open spec fn spec_block_error(s: Seq<SvdPeripheral>, i: int) -> Option<SvdLayoutError> {
    match spec_resolved_registers(s, i) {
        None => Some(SvdLayoutError::UnknownDerivation(s[i].derived_from.unwrap())),
        Some(regs) => if spec_block_fits(s[i].name@, s[i].base_address as u32, regs) {
            None
        } else {
            Some(SvdLayoutError::AddressOverflow(s[i].name))
        },
    }
}

/// The first block error from block `i` on.
pub open spec fn spec_first_block_error(s: Seq<SvdPeripheral>, i: int) -> Option<SvdLayoutError>
    decreases s.len() - i,
{
    if i < 0 || i >= s.len() {
        None
    } else if spec_block_error(s, i) is Some {
        spec_block_error(s, i)
    } else {
        spec_first_block_error(s, i + 1)
    }
}

/// The diagnostic slot of block `i`: its range, name and registers.
pub open spec fn spec_block_slot(s: Seq<SvdPeripheral>, i: int) -> PeripheralSlot<
    (String, Seq<(u32, String)>),
> {
    let regs = spec_resolved_registers(s, i).unwrap();
    let base = s[i].base_address as u32;
    PeripheralSlot {
        start: base,
        end: (base + spec_max_offset(regs) + 4) as u32,
        peripheral: (s[i].name, regs),
    }
}

/// The diagnostic slots after the first `n` blocks are registered.
pub open spec fn spec_debug_layout(s: Seq<SvdPeripheral>, n: int) -> Seq<
    PeripheralSlot<(String, Seq<(u32, String)>)>,
>
    decreases n,
{
    if n <= 0 {
        Seq::empty()
    } else {
        spec_placed(spec_debug_layout(s, n - 1), spec_block_slot(s, n - 1))
    }
}

/// The model slots, by the name each model serves, after the first `n`
/// blocks are registered.
pub open spec fn spec_model_layout(s: Seq<SvdPeripheral>, n: int) -> Seq<PeripheralSlot<Seq<char>>>
    decreases n,
{
    if n <= 0 {
        Seq::empty()
    } else {
        let prev = spec_model_layout(s, n - 1);
        let name = s[n - 1].name@;
        if spec_has_model(name) {
            let d = spec_block_slot(s, n - 1);
            let (start, end) = spec_modeled_range(name, d.start, (d.end - d.start) as u32);
            spec_placed(prev, PeripheralSlot { start, end, peripheral: name })
        } else {
            prev
        }
    }
}

/// The model slots once the core peripherals are added.
pub open spec fn spec_with_core(l: Seq<PeripheralSlot<Seq<char>>>) -> Seq<PeripheralSlot<Seq<char>>> {
    spec_placed(
        spec_placed(
            spec_placed(l, PeripheralSlot { start: 0xe000_1000u32, end: 0xe000_1008u32, peripheral: "DWT"@ }),
            PeripheralSlot { start: 0xe000_e010u32, end: 0xe000_e01cu32, peripheral: "STK"@ },
        ),
        PeripheralSlot { start: 0xe000_ed00u32, end: 0xe000_ed8fu32, peripheral: "SCB"@ },
    )
}

/// The diagnostic slots by range, name and registers.
pub open spec fn spec_debug_view(d: Seq<PeripheralSlot<GenericPeripheral>>) -> Seq<
    PeripheralSlot<(String, Seq<(u32, String)>)>,
> {
    Seq::new(
        d.len(),
        |i: int|
            PeripheralSlot {
                start: d[i].start,
                end: d[i].end,
                peripheral: (d[i].peripheral.name, d[i].peripheral.registers@),
            },
    )
}

/// The configuration a flash interface holds; `None` for other models.
pub open spec fn spec_flash_config(m: Model) -> Option<InternalFlashConfig> {
    match m {
        Model::Flash(f) => f.internal,
        _ => None,
    }
}

/// The model slots agree with the layout `l` in range and in the name
/// each model serves, and each model is in its reset state; a flash
/// interface has the configuration `flash`.
pub open spec fn spec_models_follow(
    p: Seq<PeripheralSlot<Model>>,
    l: Seq<PeripheralSlot<Seq<char>>>,
    flash: Option<InternalFlashConfig>,
) -> bool {
    &&& p.len() == l.len()
    &&& forall|i: int|
        0 <= i < p.len() ==> {
            &&& (#[trigger] p[i]).start == l[i].start
            &&& p[i].end == l[i].end
            &&& spec_model_matches(p[i].peripheral, l[i].peripheral)
            &&& spec_in_reset_state(p[i].peripheral, spec_flash_config(p[i].peripheral))
            &&& (p[i].peripheral matches Model::Flash(f) ==> spec_same_internal_flash(f.internal, flash))
        }
}

/// The last block named `name`, if any.
fn last_named(s: &Vec<SvdPeripheral>, name: &str) -> (r: Option<usize>)
    ensures
        r is None <==> spec_last_named(s@, name@) < 0,
        r matches Some(j) ==> j == spec_last_named(s@, name@),
{
    let mut k: usize = s.len();
    assert(s@.take(k as int) =~= s@);
    while k > 0
        invariant
            k <= s@.len(),
            spec_last_named(s@, name@) == spec_last_named(s@.take(k as int), name@),
        decreases k,
    {
        assert(s@.take(k as int).drop_last() =~= s@.take(k as int - 1));
        if str_eq(s[k - 1].name.as_str(), name) {
            return Some(k - 1);
        }
        k -= 1;
    }
    None
}

fn copy_registers(regs: &Vec<(u32, String)>) -> (r: Vec<(u32, String)>)
    ensures
        r@ == regs@,
{
    let mut r: Vec<(u32, String)> = Vec::new();
    let mut i: usize = 0;
    while i < regs.len()
        invariant
            i <= regs@.len(),
            r@ == regs@.take(i as int),
        decreases regs@.len() - i,
    {
        r.push((regs[i].0, regs[i].1.clone()));
        i += 1;
        assert(r@ =~= regs@.take(i as int));
    }
    assert(r@ =~= regs@);
    r
}

/// The registers block `i` is laid out with, if its derivation resolves.
fn resolve_registers(s: &Vec<SvdPeripheral>, i: usize) -> (r: Option<Vec<(u32, String)>>)
    requires
        i < s@.len(),
    ensures
        r is None <==> spec_resolved_registers(s@, i as int) is None,
        r matches Some(v) ==> spec_resolved_registers(s@, i as int) == Some(v@),
{
    match &s[i].derived_from {
        None => Some(copy_registers(&s[i].registers)),
        Some(d) => match last_named(s, d.as_str()) {
            Some(j) => {
                proof {
                    lemma_last_named_bounds(s@, d@);
                }
                Some(copy_registers(&s[j].registers))
            },
            None => None,
        },
    }
}

fn block_fits(name: &str, base: u32, regs: &Vec<(u32, String)>) -> (r: bool)
    ensures
        r == spec_block_fits(name@, base, regs@),
{
    let m = max_register_offset(regs);
    if m > u32::MAX - 4 {
        return false;
    }
    if base > u32::MAX - 4 - m {
        return false;
    }
    if str_eq(name, "OTG_FS_GLOBAL") && base > u32::MAX - 0x7000 {
        return false;
    }
    if str_eq(name, "SCB") && base > u32::MAX - 0x008f {
        return false;
    }
    true
}

proof fn lemma_debug_view_insert(
    d: Seq<PeripheralSlot<GenericPeripheral>>,
    k: int,
    x: PeripheralSlot<GenericPeripheral>,
)
    requires
        0 <= k <= d.len(),
    ensures
        spec_debug_view(d.insert(k, x)) == spec_debug_view(d).insert(
            k,
            PeripheralSlot {
                start: x.start,
                end: x.end,
                peripheral: (x.peripheral.name, x.peripheral.registers@),
            },
        ),
{
    let a = spec_debug_view(d.insert(k, x));
    let b = spec_debug_view(d).insert(
        k,
        PeripheralSlot { start: x.start, end: x.end, peripheral: (x.peripheral.name, x.peripheral.registers@) },
    );
    assert forall|i: int| 0 <= i < a.len() implies a[i] == b[i] by {
        if i < k {
            assert(d.insert(k, x)[i] == d[i]);
        } else if i > k {
            assert(d.insert(k, x)[i] == d[i - 1]);
        }
    }
    assert(a =~= b);
}

proof fn lemma_debug_view_layout(d: Seq<PeripheralSlot<GenericPeripheral>>, addr: u32)
    ensures
        spec_debug_view(d).len() == d.len(),
        last_start_at_or_below(d, addr) == last_start_at_or_below(spec_debug_view(d), addr),
        spec_no_overlap(d) <==> spec_no_overlap(spec_debug_view(d)),
{
    let v = spec_debug_view(d);
    assert forall|i: int| 0 <= i < d.len() implies d[i].start == v[i].start && d[i].end
        == v[i].end by {}
    lemma_find_same_layout(d, v, addr);
}

proof fn lemma_models_follow_insert(
    p: Seq<PeripheralSlot<Model>>,
    l: Seq<PeripheralSlot<Seq<char>>>,
    flash: Option<InternalFlashConfig>,
    x: PeripheralSlot<Model>,
    y: PeripheralSlot<Seq<char>>,
)
    requires
        spec_models_follow(p, l, flash),
        x.start == y.start,
        x.end == y.end,
        spec_model_matches(x.peripheral, y.peripheral),
        spec_in_reset_state(x.peripheral, spec_flash_config(x.peripheral)),
        x.peripheral matches Model::Flash(f) ==> spec_same_internal_flash(f.internal, flash),
    ensures
        spec_models_follow(spec_placed(p, x), spec_placed(l, y), flash),
{
    assert forall|i: int| 0 <= i < p.len() implies p[i].start == l[i].start && p[i].end
        == l[i].end by {
        assert(p[i].start == l[i].start);
    }
    lemma_find_same_layout(p, l, x.start);
    lemma_find_bounds(p, x.start);
    let k = last_start_at_or_below(p, x.start) + 1;
    let p2 = spec_placed(p, x);
    let l2 = spec_placed(l, y);
    assert forall|i: int| 0 <= i < p2.len() implies {
        &&& (#[trigger] p2[i]).start == l2[i].start
        &&& p2[i].end == l2[i].end
        &&& spec_model_matches(p2[i].peripheral, l2[i].peripheral)
        &&& spec_in_reset_state(p2[i].peripheral, spec_flash_config(p2[i].peripheral))
        &&& (p2[i].peripheral matches Model::Flash(f) ==> spec_same_internal_flash(f.internal, flash))
    } by {
        if i < k {
            assert(p2[i] == p[i] && l2[i] == l[i]);
            assert(p[i].start == l[i].start);
        } else if i > k {
            assert(p2[i] == p[i - 1] && l2[i] == l[i - 1]);
            assert(p[i - 1].start == l[i - 1].start);
        }
    }
}

/// What laying out the register blocks `input` gives: the first block
/// that cannot be registered decides the error; otherwise the result is
/// the bus with every block in order of base address, or the first pair
/// of overlapping blocks.
pub open spec fn spec_laid_out(
    input: Seq<SvdPeripheral>,
    flash: Option<InternalFlashConfig>,
    r: Result<Peripherals, SvdLayoutError>,
) -> bool {
    let s = spec_sort_by_base(input);
    let d = spec_debug_layout(s, s.len() as int);
    match spec_first_block_error(s, 0) {
        Some(e) => r == Err::<Peripherals, SvdLayoutError>(e),
        None => match r {
            Ok(p) => {
                &&& spec_no_overlap(d)
                &&& p.wf()
                &&& spec_debug_view(p.debug_peripherals@) == d
                &&& p.debug_peripherals@.len() == d.len()
                &&& spec_models_follow(
                    p.peripherals@,
                    spec_with_core(spec_model_layout(s, s.len() as int)),
                    flash,
                )
                &&& p.nvic == (Nvic {
                    systick_period: None,
                    last_systick_trigger: 0,
                    pending: 0,
                    in_interrupt: false,
                    active_exception: 0,
                })
                &&& p.exti == Exti::default_spec()
            },
            Err(SvdLayoutError::Overlap(e)) => {
                &&& !spec_no_overlap(d)
                &&& exists|i: int|
                    0 <= i < d.len() - 1 && #[trigger] d[i].end >= d[i + 1].start
                        && e.first == d[i].peripheral.0 && e.second == d[i + 1].peripheral.0
                        && (forall|j: int| 0 <= j < i ==> #[trigger] d[j].end < d[j + 1].start)
            },
            Err(_) => false,
        },
    }
}

impl Peripherals {
    /// Lays the register blocks of a device description out on the bus:
    /// in order of base address, each block is kept for diagnostics with
    /// its own registers or those of the block it derives from, and gets
    /// the model for its name, if any; then the core peripherals are
    /// added and the layout is checked for overlapping blocks.
    pub fn from_svd(
        svd_peripherals: Vec<SvdPeripheral>,
        internal_flash: Option<InternalFlashConfig>,
    ) -> (r: Result<Peripherals, SvdLayoutError>)
        ensures
            spec_laid_out(svd_peripherals@, internal_flash, r),
    {
        let ghost input = svd_peripherals@;
        let sorted = sort_by_base_address(svd_peripherals);
        let ghost s = sorted@;
        let mut p = Peripherals::new();
        let n = sorted.len();
        let mut i: usize = 0;
        while i < n
            invariant
                sorted@ == s,
                s == spec_sort_by_base(input),
                input == svd_peripherals@,
                n == s.len(),
                i <= n,
                p.wf(),
                spec_first_block_error(s, 0) == spec_first_block_error(s, i as int),
                spec_debug_view(p.debug_peripherals@) == spec_debug_layout(s, i as int),
                spec_models_follow(p.peripherals@, spec_model_layout(s, i as int), internal_flash),
                p.nvic == (Nvic {
                    systick_period: None,
                    last_systick_trigger: 0,
                    pending: 0,
                    in_interrupt: false,
                    active_exception: 0,
                }),
                p.exti == Exti::default_spec(),
            decreases n - i,
        {
            let regs = match resolve_registers(&sorted, i) {
                Some(regs) => regs,
                None => {
                    assert(spec_first_block_error(s, i as int) == spec_block_error(s, i as int));
                    let missing = match &sorted[i].derived_from {
                        Some(d) => d.clone(),
                        None => String::new(),
                    };
                    let e = SvdLayoutError::UnknownDerivation(missing);
                    assert(spec_block_error(s, i as int) == Some(e));
                    return Err(e);
                },
            };
            let base = #[verifier::truncate] (sorted[i].base_address as u32);
            if !block_fits(sorted[i].name.as_str(), base, &regs) {
                assert(spec_first_block_error(s, i as int) == spec_block_error(s, i as int));
                let e = SvdLayoutError::AddressOverflow(sorted[i].name.clone());
                assert(spec_block_error(s, i as int) == Some(e));
                return Err(e);
            }
            assert(spec_block_error(s, i as int) is None);
            assert(spec_first_block_error(s, i as int) == spec_first_block_error(s, i as int + 1));
            let ghost d0 = p.debug_peripherals@;
            let ghost m0 = p.peripherals@;
            let ghost regs_view = regs@;
            let flash = copy_internal_flash(&internal_flash);
            p.register_peripheral(sorted[i].name.clone(), base, regs, flash);
            proof {
                let k = last_start_at_or_below(d0, base) + 1;
                lemma_find_bounds(d0, base);
                lemma_debug_view_layout(d0, base);
                lemma_debug_view_insert(d0, k, p.debug_peripherals@[k]);
                assert(spec_block_slot(s, i as int).start == base);
                if spec_has_model(s[i as int].name@) {
                    let (start, end) = spec_modeled_range(
                        s[i as int].name@,
                        base,
                        (spec_max_offset(regs_view) + 4) as u32,
                    );
                    let km = last_start_at_or_below(m0, start) + 1;
                    lemma_models_follow_insert(
                        m0,
                        spec_model_layout(s, i as int),
                        internal_flash,
                        p.peripherals@[km],
                        PeripheralSlot { start, end, peripheral: s[i as int].name@ },
                    );
                }
            }
            i += 1;
        }
        let ghost m1 = p.peripherals@;
        p.register_core_peripherals();
        proof {
            let l = spec_model_layout(s, n as int);
            let dwt = super::spec_core_dwt();
            let stk = super::spec_core_systick();
            let scb = super::spec_core_scb();
            let dwt_name = PeripheralSlot { start: 0xe000_1000u32, end: 0xe000_1008u32, peripheral: "DWT"@ };
            let stk_name = PeripheralSlot { start: 0xe000_e010u32, end: 0xe000_e01cu32, peripheral: "STK"@ };
            let scb_name = PeripheralSlot { start: 0xe000_ed00u32, end: 0xe000_ed8fu32, peripheral: "SCB"@ };
            lemma_models_follow_insert(m1, l, internal_flash, dwt, dwt_name);
            lemma_models_follow_insert(spec_placed(m1, dwt), spec_placed(l, dwt_name), internal_flash, stk, stk_name);
            lemma_models_follow_insert(
                spec_placed(spec_placed(m1, dwt), stk),
                spec_placed(spec_placed(l, dwt_name), stk_name),
                internal_flash,
                scb,
                scb_name,
            );
            lemma_debug_view_layout(p.debug_peripherals@, 0);
            assert(spec_first_block_error(s, n as int) is None);
        }
        let ghost d = p.debug_peripherals@;
        match p.finish_registration() {
            Ok(()) => Ok(p),
            Err(e) => {
                proof {
                    let v = spec_debug_view(d);
                    let i = choose|i: int|
                        0 <= i < d.len() - 1 && #[trigger] d[i].end >= d[i + 1].start
                            && e.first == d[i].peripheral.name && e.second == d[i
                            + 1].peripheral.name && (forall|j: int|
                            0 <= j < i ==> #[trigger] d[j].end < d[j + 1].start);
                    assert(v[i].end >= v[i + 1].start);
                    assert forall|j: int| 0 <= j < i implies #[trigger] v[j].end < v[j + 1].start by {
                        assert(d[j].end < d[j + 1].start);
                    }
                }
                Err(SvdLayoutError::Overlap(e))
            },
        }
    }

    /// Parses a device description and lays its register blocks out on
    /// the bus; text that the parser refuses gives its message, and text
    /// that fails the screen of `svd_screen` is not parsed at all.
    pub fn from_svd_text(xml: &str, internal_flash: Option<InternalFlashConfig>) -> (r: Result<
        Peripherals,
        SvdLayoutError,
    >)
        ensures
            !spec_svd_screened(xml@) ==> r matches Err(SvdLayoutError::Unsupported),
            spec_svd_screened(xml@) ==> match svd_parse_result(xml@) {
                Some(v) => spec_laid_out(v, internal_flash, r),
                None => r matches Err(SvdLayoutError::Parse(_)),
            },
    {
        if !svd_text_screened(xml) {
            return Err(SvdLayoutError::Unsupported);
        }
        match parse_svd(xml) {
            Ok(v) => Self::from_svd(v, internal_flash),
            Err(m) => Err(SvdLayoutError::Parse(m)),
        }
    }
}

} // verus!
