//! Human-readable byte-size text, as the configuration serializer writes
//! it: the largest binary unit that divides the value evenly.

use vstd::prelude::*;

use crate::fmt::{spec_dec, u64_to_dec};

verus! {

/// The size text for `value`: `0` bare, otherwise the value scaled to the
/// largest binary unit that divides it exactly, suffixed with that unit.
pub open spec fn spec_size_text(value: u64) -> Seq<char> {
    if value == 0 {
        "0"@
    } else if value & 0x3FFu64 != 0 {
        spec_dec(value as nat) + "B"@
    } else if value & 0xFFFFFu64 != 0 {
        spec_dec((value >> 10) as nat) + "KiB"@
    } else if value & 0x3FFFFFFFu64 != 0 {
        spec_dec((value >> 20) as nat) + "MiB"@
    } else if value & 0xFFFFFFFFFFu64 != 0 {
        spec_dec((value >> 30) as nat) + "GiB"@
    } else if value & 0x3FFFFFFFFFFFFu64 != 0 {
        spec_dec((value >> 40) as nat) + "TiB"@
    } else {
        spec_dec((value >> 50) as nat) + "PiB"@
    }
}

/// Render a byte count the way the configuration file shows it.
pub fn serialize(value: &u64) -> (r: String)
    ensures
        r@ == spec_size_text(*value),
{
    let v = *value;
    if v == 0 {
        return String::from_str("0");
    }
    let (scaled, unit): (u64, &str) = if v & 0x3FFu64 != 0 {
        (v, "B")
    } else if v & 0xFFFFFu64 != 0 {
        (v >> 10, "KiB")
    } else if v & 0x3FFFFFFFu64 != 0 {
        (v >> 20, "MiB")
    } else if v & 0xFFFFFFFFFFu64 != 0 {
        (v >> 30, "GiB")
    } else if v & 0x3FFFFFFFFFFFFu64 != 0 {
        (v >> 40, "TiB")
    } else {
        (v >> 50, "PiB")
    };
    let mut s = u64_to_dec(scaled);
    s.append(unit);
    s
}

} // verus!
