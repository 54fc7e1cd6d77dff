use vstd::prelude::*;
use crate::launcher::registry::support_summary;
use crate::launcher::ui_state::LauncherState;
use crate::launcher::workspace::SavedLauncherState;
use crate::launcher::{
    parse_address, spec_parse_address, EmulationSupport, KnownVariant, LauncherCpuModel,
    ResolvedProfile,
};
use crate::text::str_eq;

verus! {

/// The manual-profile fields of the launcher, as typed.
#[derive(Debug)]
pub struct ManualForm {
    pub enabled: bool,
    pub cpu_model: LauncherCpuModel,
    pub svd: String,
    pub vector_table: String,
    pub flash_start: String,
    pub flash_size: String,
    pub ram_start: String,
    pub ram_size: String,
}

/// A saved field, or its default when it was saved empty.
pub open spec fn spec_or_default(saved: Seq<char>, default: Seq<char>) -> Seq<char> {
    if saved.len() == 0 {
        default
    } else {
        saved
    }
}

fn or_default(saved: &String, default: &str) -> (r: String)
    ensures
        r@ == spec_or_default(saved@, default@),
{
    if saved.as_str().unicode_len() == 0 {
        default.to_owned()
    } else {
        saved.clone()
    }
}

impl ManualForm {
    /// The form holds what was saved, with defaults for empty addresses.
    pub open spec fn spec_from_saved(self, saved: SavedLauncherState) -> bool {
        &&& self.enabled == saved.manual_enabled
        &&& self.cpu_model == saved.manual_cpu_model
        &&& self.svd@ == saved.manual_svd@
        &&& self.vector_table@ == spec_or_default(saved.manual_vector_table@, "0x08000000"@)
        &&& self.flash_start@ == spec_or_default(saved.manual_flash_start@, "0x08000000"@)
        &&& self.flash_size@ == spec_or_default(saved.manual_flash_size@, "0x00100000"@)
        &&& self.ram_start@ == spec_or_default(saved.manual_ram_start@, "0x20000000"@)
        &&& self.ram_size@ == spec_or_default(saved.manual_ram_size@, "0x00020000"@)
    }

    /// The form as it was saved; empty address fields get the defaults of
    /// an STM32F4-class part (flash at 0x08000000, 1 MB, RAM at
    /// 0x20000000, 128 KB).
    pub fn from_saved(saved: &SavedLauncherState) -> (f: ManualForm)
        ensures
            f.spec_from_saved(*saved),
    {
        ManualForm {
            enabled: saved.manual_enabled,
            cpu_model: saved.manual_cpu_model,
            svd: saved.manual_svd.clone(),
            vector_table: or_default(&saved.manual_vector_table, "0x08000000"),
            flash_start: or_default(&saved.manual_flash_start, "0x08000000"),
            flash_size: or_default(&saved.manual_flash_size, "0x00100000"),
            ram_start: or_default(&saved.manual_ram_start, "0x20000000"),
            ram_size: or_default(&saved.manual_ram_size, "0x00020000"),
        }
    }
}

/// Index of the first variant with id `id`, or -1.
pub open spec fn spec_first_variant(variants: Seq<KnownVariant>, id: Seq<char>) -> int
    decreases variants.len(),
{
    if variants.len() == 0 {
        -1
    } else if variants[0].id@ == id {
        0
    } else {
        let r = spec_first_variant(variants.skip(1), id);
        if r < 0 {
            -1
        } else {
            r + 1
        }
    }
}

proof fn lemma_first_variant(variants: Seq<KnownVariant>, id: Seq<char>)
    ensures
        -1 <= spec_first_variant(variants, id) < variants.len(),
        spec_first_variant(variants, id) >= 0 ==> variants[spec_first_variant(variants, id)].id@
            == id,
        forall|j: int|
            0 <= j < variants.len() && (spec_first_variant(variants, id) < 0 || j
                < spec_first_variant(variants, id)) ==> variants[j].id@ != id,
    decreases variants.len(),
{
    if variants.len() > 0 && variants[0].id@ != id {
        lemma_first_variant(variants.skip(1), id);
        assert forall|j: int|
            0 <= j < variants.len() && (spec_first_variant(variants, id) < 0 || j
                < spec_first_variant(variants, id)) implies variants[j].id@ != id by {
            if j > 0 {
                assert(variants[j] == variants.skip(1)[j - 1]);
            }
        }
    }
}

/// The variant with id `id`, if any.
pub fn find_variant(variants: &Vec<KnownVariant>, id: &str) -> (r: Option<KnownVariant>)
    ensures
        r is Some <==> spec_first_variant(variants@, id@) >= 0,
        r matches Some(v) ==> v == variants@[spec_first_variant(variants@, id@)],
{
    proof {
        lemma_first_variant(variants@, id@);
    }
    let mut i: usize = 0;
    while i < variants.len()
        invariant
            i <= variants@.len(),
            forall|j: int| 0 <= j < i ==> variants@[j].id@ != id@,
        decreases variants@.len() - i,
    {
        if str_eq(variants[i].id, id) {
            proof {
                lemma_first_variant(variants@, id@);
            }
            return Some(variants[i]);
        }
        i += 1;
    }
    proof {
        lemma_first_variant(variants@, id@);
    }
    None
}

/// The manual-profile addresses, or the message of the first that does
/// not parse, in form order.
pub open spec fn spec_manual_addresses(form: ManualForm) -> Option<(u32, u32, u32, u32, u32)> {
    match (
        spec_parse_address(form.vector_table@),
        spec_parse_address(form.flash_start@),
        spec_parse_address(form.flash_size@),
        spec_parse_address(form.ram_start@),
        spec_parse_address(form.ram_size@),
    ) {
        (Some(a), Some(b), Some(c), Some(d), Some(e)) => Some((a, b, c, d, e)),
        _ => None,
    }
}

/// The label of the first manual field that does not parse.
pub open spec fn spec_first_bad_field(form: ManualForm) -> Seq<char> {
    if spec_parse_address(form.vector_table@) is None {
        "vector table"@
    } else if spec_parse_address(form.flash_start@) is None {
        "flash start"@
    } else if spec_parse_address(form.flash_size@) is None {
        "flash size"@
    } else if spec_parse_address(form.ram_start@) is None {
        "RAM start"@
    } else {
        "RAM size"@
    }
}

/// The launcher has what it needs for a profile: firmware that is a file
/// and either a manual form with an existing SVD and addresses that
/// parse, or a selected variant that is emulated, has a profile and an
/// existing SVD.
pub open spec fn spec_launch_ok(
    state: LauncherState,
    manual: ManualForm,
    variants: Seq<KnownVariant>,
    firmware_is_file: bool,
    svd_is_file: bool,
) -> bool {
    &&& state.firmware is Some
    &&& firmware_is_file
    &&& if manual.enabled {
        svd_is_file && spec_manual_addresses(manual) is Some
    } else {
        let k = match state.selected_variant {
            Some(id) => spec_first_variant(variants, id@),
            None => -1,
        };
        &&& k >= 0
        &&& variants[k].support != EmulationSupport::Unsupported
        &&& state.svd is Some
        &&& svd_is_file
        &&& variants[k].profile is Some
    }
}

/// The profile the launcher would run, or why it cannot. Whether the
/// firmware and the SVD named by the selection are files is asked of the
/// caller (`firmware_is_file`, `svd_is_file`; the SVD is the manual form's
/// when it is enabled, else the selected one).
pub fn resolve_launch(
    state: &LauncherState,
    manual: &ManualForm,
    variants: &Vec<KnownVariant>,
    firmware_is_file: bool,
    svd_is_file: bool,
) -> (r: Result<ResolvedProfile, String>)
    ensures
        r is Ok <==> spec_launch_ok(*state, *manual, variants@, firmware_is_file, svd_is_file),
        match state.firmware {
            None => r matches Err(m) && m@ == "Choose a firmware .bin file."@,
            Some(fw) => if !firmware_is_file {
                r matches Err(m) && m@ == "Firmware file does not exist: "@ + fw@
            } else if manual.enabled {
                if !svd_is_file {
                    r matches Err(m) && m@ == "Manual profile requires an existing SVD file."@
                } else {
                    match spec_manual_addresses(*manual) {
                        None => r matches Err(m) && m@ == "Manual "@ + spec_first_bad_field(*manual)
                            + " must be decimal or hexadecimal (0x...)."@,
                        Some((vt, fs, fsz, rs, rsz)) => r matches Ok(p)
                            && p.spec_is_manual_profile(
                            manual.cpu_model,
                            fw@,
                            manual.svd@,
                            vt,
                            fs,
                            fsz,
                            rs,
                            rsz,
                        ),
                    }
                }
            } else {
                let k = match state.selected_variant {
                    Some(id) => spec_first_variant(variants@, id@),
                    None => -1,
                };
                if k < 0 {
                    r matches Err(m) && m@ == "Choose a cataloged variant or enable Manual profile."@
                } else {
                    let v = variants@[k];
                    if v.support == EmulationSupport::Unsupported {
                        r matches Err(m) && m@ == "Cataloged only: no evidence-backed MCU, memory map, and SVD profile exists."@
                    } else {
                        match state.svd {
                            None => r matches Err(m) && m@
                                == "Choose the SVD asset required by this profile."@,
                            Some(svd) => if !svd_is_file {
                                r matches Err(m) && m@ == "SVD file does not exist: "@ + svd@
                            } else if v.profile is None {
                                r matches Err(m) && m@ == "Variant '"@ + v.id@
                                    + "' has no verified emulation profile"@
                            } else {
                                r matches Ok(p) && p.spec_is_variant_profile(v, fw@, svd@)
                            },
                        }
                    }
                }
            },
        },
{
    let firmware = match &state.firmware {
        None => return Err("Choose a firmware .bin file.".to_owned()),
        Some(f) => f,
    };
    match crate::launcher::process::firmware_verdict(firmware.as_str(), firmware_is_file) {
        Err(e) => return Err(e.0),
        Ok(()) => {},
    }
    if manual.enabled {
        if !svd_is_file {
            return Err("Manual profile requires an existing SVD file.".to_owned());
        }
        let vt = match parse_address(manual.vector_table.as_str(), "vector table") {
            Ok(v) => v,
            Err(m) => {
                proof {
                    reveal_strlit("vector table");
                }
                return Err(m);
            },
        };
        let fs = match parse_address(manual.flash_start.as_str(), "flash start") {
            Ok(v) => v,
            Err(m) => return Err(m),
        };
        let fsz = match parse_address(manual.flash_size.as_str(), "flash size") {
            Ok(v) => v,
            Err(m) => return Err(m),
        };
        let rs = match parse_address(manual.ram_start.as_str(), "RAM start") {
            Ok(v) => v,
            Err(m) => return Err(m),
        };
        let rsz = match parse_address(manual.ram_size.as_str(), "RAM size") {
            Ok(v) => v,
            Err(m) => return Err(m),
        };
        return Ok(
            ResolvedProfile::manual(
                manual.cpu_model,
                firmware.clone(),
                manual.svd.clone(),
                vt,
                fs,
                fsz,
                rs,
                rsz,
            ),
        );
    }
    let variant = match &state.selected_variant {
        None => return Err("Choose a cataloged variant or enable Manual profile.".to_owned()),
        Some(id) => match find_variant(variants, id.as_str()) {
            None => return Err("Choose a cataloged variant or enable Manual profile.".to_owned()),
            Some(v) => v,
        },
    };
    if variant.support == EmulationSupport::Unsupported {
        return Err(support_summary(variant).to_owned());
    }
    let svd = match &state.svd {
        None => return Err("Choose the SVD asset required by this profile.".to_owned()),
        Some(s) => s,
    };
    if !svd_is_file {
        let mut m = String::new();
        m.append("SVD file does not exist: ");
        m.append(svd.as_str());
        return Err(m);
    }
    match ResolvedProfile::for_variant(variant, firmware.clone(), svd.clone()) {
        Ok(p) => Ok(p),
        Err(e) => Err(e.message()),
    }
}

} // verus!
