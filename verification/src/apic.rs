use crate::logger::{lemma_frame_appended_trans, spec_frame_appended, Console, _print};
use vstd::prelude::*;

verus! {

/// What probing the firmware tables logs: the announcement, then either
/// the success line or the degraded-mode line when the firmware reported
/// no table pointer.
pub open spec fn spec_acpi_output(found: bool) -> Seq<char> {
    "LOADING ACPI\n"@ + if found {
        "Init acpi\n"@
    } else {
        "No RSDP addrs was found. running is BIOS? or not reported.\n"@
    }
}

/// Probes the firmware tables from the optional pointer the bootloader
/// handed over. A missing pointer is not fatal: it is logged and the
/// system continues in a degraded mode, as on legacy firmware.
pub fn init(console: &mut Console, rsdp_addr: Option<u64>)
    requires
        old(console).frame_ok(),
    ensures
        final(console).frame_ok(),
        spec_frame_appended(*old(console), *final(console), spec_acpi_output(rsdp_addr is Some)),
{
    let ghost c0 = *old(console);
    _print(console, "LOADING ACPI\n");
    let ghost c1 = *console;
    match rsdp_addr {
        Some(_addr) => {
            _print(console, "Init acpi\n");
            proof {
                lemma_frame_appended_trans(c0, c1, *console, "LOADING ACPI\n"@, "Init acpi\n"@);
            }
        },
        None => {
            // most likely a BIOS system
            _print(console, "No RSDP addrs was found. running is BIOS? or not reported.\n");
            proof {
                lemma_frame_appended_trans(
                    c0,
                    c1,
                    *console,
                    "LOADING ACPI\n"@,
                    "No RSDP addrs was found. running is BIOS? or not reported.\n"@,
                );
            }
        },
    }
}

} // verus!
