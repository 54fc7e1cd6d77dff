use vstd::prelude::*;
use crate::launcher::{EmulationSupport, KnownVariant};

verus! {

/// Every board of the catalog, sorted by id; the ones with an emulation
/// profile carry it.
pub fn all_variants() -> (v: Vec<KnownVariant>)
    ensures
        v@.len() == 1,
        v@[0].id@ == "proteus_f7"@,
        v@[0].support == EmulationSupport::Partial,
        v@[0].profile is Some,
{
    let mut v: Vec<KnownVariant> = Vec::new();
    v.push(KnownVariant::proteus_f7());
    v
}

/// What the launcher says of a board's emulation support.
pub fn support_summary(variant: KnownVariant) -> (s: &'static str)
    ensures
        s@ == match variant.support {
            EmulationSupport::Runnable => "Runnable: profile and devices are modeled."@,
            EmulationSupport::Partial => "Partial: the memory map is verified; device-model coverage remains incomplete."@,
            EmulationSupport::Unsupported => "Cataloged only: no evidence-backed MCU, memory map, and SVD profile exists."@,
        },
{
    match variant.support {
        EmulationSupport::Runnable => "Runnable: profile and devices are modeled.",
        EmulationSupport::Partial => "Partial: the memory map is verified; device-model coverage remains incomplete.",
        EmulationSupport::Unsupported => "Cataloged only: no evidence-backed MCU, memory map, and SVD profile exists.",
    }
}

/// The short label of a board's emulation support.
pub fn support_label(support: EmulationSupport) -> (s: &'static str)
    ensures
        s@ == match support {
            EmulationSupport::Runnable => "runnable"@,
            EmulationSupport::Partial => "partial"@,
            EmulationSupport::Unsupported => "cataloged"@,
        },
{
    match support {
        EmulationSupport::Runnable => "runnable",
        EmulationSupport::Partial => "partial",
        EmulationSupport::Unsupported => "cataloged",
    }
}

} // verus!
