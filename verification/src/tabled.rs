//! Table-cell rendering of service information: states, byte sizes and
//! durations.

use vstd::prelude::*;

use colored::Colorize;

use crate::fmt::{spec_dec, spec_digit, u64_to_dec};
use crate::info::Info;
use crate::status::Status;

verus! {

/// The bare name of a lifecycle state.
pub open spec fn spec_status_name(s: Status) -> Seq<char> {
    match s {
        Status::Created => "Created"@,
        Status::Running => "Running"@,
        Status::Finished => "Finished"@,
        Status::Stopped => "Stopped"@,
        Status::Crashed => "Crashed"@,
    }
}

/// Render the bare name of a lifecycle state.
pub fn status_name(s: &Status) -> (r: String)
    ensures
        r@ == spec_status_name(*s),
{
    match s {
        Status::Created => String::from_str("Created"),
        Status::Running => String::from_str("Running"),
        Status::Finished => String::from_str("Finished"),
        Status::Stopped => String::from_str("Stopped"),
        Status::Crashed => String::from_str("Crashed"),
    }
}

/// Relies on colored's `Colorize::bright_black`; the rendering depends on
/// the terminal's color support, so nothing is promised of it.
#[verifier::external_body]
fn paint_bright_black(s: &str) -> String {
    s.bright_black().to_string()
}

/// Relies on colored's `Colorize::green`; the rendering depends on the
/// terminal's color support, so nothing is promised of it.
#[verifier::external_body]
fn paint_green(s: &str) -> String {
    s.green().to_string()
}

/// Relies on colored's `Colorize::bright_yellow`; the rendering depends on
/// the terminal's color support, so nothing is promised of it.
#[verifier::external_body]
fn paint_bright_yellow(s: &str) -> String {
    s.bright_yellow().to_string()
}

/// Relies on colored's `Colorize::red`; the rendering depends on the
/// terminal's color support, so nothing is promised of it.
#[verifier::external_body]
fn paint_red(s: &str) -> String {
    s.red().to_string()
}

/// Render a lifecycle state for the table: its bare name, painted in the
/// state's color when `colored` asks for it.
pub fn info_status_str(status: &Status, colored: bool) -> (r: String)
    ensures
        !colored ==> r@ == spec_status_name(*status),
{
    let name = status_name(status);
    if colored {
        match status {
            Status::Created => paint_bright_black(name.as_str()),
            Status::Running => paint_green(name.as_str()),
            Status::Finished => paint_bright_black(name.as_str()),
            Status::Stopped => paint_bright_yellow(name.as_str()),
            Status::Crashed => paint_red(name.as_str()),
        }
    } else {
        name
    }
}

/// A whole part and a rounded two-digit fraction of `v / div`.
pub open spec fn spec_fixed2(v: u64, div: u64) -> Seq<char> {
    let whole = v as nat / div as nat;
    let rem = v as nat % div as nat;
    let fs = (rem * 100 + div as nat / 2) / div as nat;
    let w2 = if fs >= 100 {
        whole + 1
    } else {
        whole
    };
    let f2 = if fs >= 100 {
        (fs - 100) as nat
    } else {
        fs
    };
    spec_dec(w2) + "."@ + seq![spec_digit(f2 / 10), spec_digit(f2 % 10)]
}

/// Render `v / div` with two decimals, rounding half away from zero.
fn fixed2(v: u64, div: u64) -> (r: String)
    requires
        div == 0x400 || div == 0x100000 || div == 0x40000000,
    ensures
        r@ == spec_fixed2(v, div),
{
    let whole = v / div;
    let rem = v % div;
    let fs = (rem * 100 + div / 2) / div;
    proof {
        let x = rem as int * 100 + div as int / 2;
        assert(x < 101 * div) by (nonlinear_arith)
            requires
                x == rem as int * 100 + div as int / 2,
                rem < div,
                div >= 2,
        ;
        assert(x / (div as int) < 101) by (nonlinear_arith)
            requires
                x < 101 * (div as int),
                0 <= x,
                div >= 2,
        ;
    }
    let (w2, f2) = if fs >= 100 {
        (whole + 1, fs - 100)
    } else {
        (whole, fs)
    };
    let mut s = u64_to_dec(w2);
    s.append(".");
    let d1 = crate::fmt::digit_str(f2 / 10);
    s.append(d1.as_str());
    let d2 = crate::fmt::digit_str(f2 % 10);
    s.append(d2.as_str());
    proof {
        assert(s@ =~= spec_fixed2(v, div));
    }
    s
}

/// The byte-count cell: scaled to the largest unit at or below the value,
/// with two decimals; bare bytes stay whole.
pub open spec fn spec_bytes_str(v: u64) -> Seq<char> {
    if v >= 0x40000000 {
        spec_fixed2(v, 0x40000000) + " GiB"@
    } else if v >= 0x100000 {
        spec_fixed2(v, 0x100000) + " MiB"@
    } else if v >= 0x400 {
        spec_fixed2(v, 0x400) + " KiB"@
    } else {
        spec_dec(v as nat) + " B"@
    }
}

/// Render a byte count for the table.
pub fn bytes_str(value: &u64) -> (r: String)
    ensures
        r@ == spec_bytes_str(*value),
{
    let v = *value;
    if v >= 0x40000000 {
        let mut s = fixed2(v, 0x40000000);
        s.append(" GiB");
        s
    } else if v >= 0x100000 {
        let mut s = fixed2(v, 0x100000);
        s.append(" MiB");
        s
    } else if v >= 0x400 {
        let mut s = fixed2(v, 0x400);
        s.append(" KiB");
        s
    } else {
        let mut s = u64_to_dec(v);
        s.append(" B");
        s
    }
}

/// The seconds a service has run: until `end_time` when one is recorded,
/// else until `now` while it is running or stopped; nothing otherwise, nor
/// when the clock went backwards.
pub open spec fn spec_duration_for(end_time: Option<u64>, info: &Info, now: u64) -> Option<u64> {
    let until = match end_time {
        Some(e) => Some(e),
        None => if info.status == Status::Running || info.status == Status::Stopped {
            Some(now)
        } else {
            None
        },
    };
    match (until, info.start_time) {
        (Some(u), Some(s)) => if u >= s {
            Some(((u - s) / 1000) as u64)
        } else {
            None
        },
        _ => None,
    }
}

/// What humantime renders for a whole-second duration; a function of the
/// seconds alone.
pub uninterp spec fn spec_human_secs(secs: u64) -> Seq<char>;

/// Relies on humantime's `format_duration`: the rendering of a duration of
/// `secs` whole seconds, which depends on the seconds alone.
#[verifier::external_body]
fn human_duration_secs(secs: u64) -> (r: String)
    ensures
        r@ == spec_human_secs(secs),
{
    humantime::format_duration(std::time::Duration::from_secs(secs)).to_string()
}

/// Render the duration cell of a service: its run time in whole seconds,
/// humantime-formatted, or an empty cell when no run time applies.
pub fn info_duration_str(end_time: &Option<u64>, info: &Info, now: u64) -> (r: String)
    ensures
        r@ == match spec_duration_for(*end_time, info, now) {
            Some(d) => spec_human_secs(d),
            None => Seq::<char>::empty(),
        },
{
    let until = match end_time {
        Some(e) => Some(*e),
        None => match info.status {
            Status::Running | Status::Stopped => Some(now),
            _ => None,
        },
    };
    let secs = match (until, info.start_time) {
        (Some(u), Some(s)) => if u >= s {
            Some((u - s) / 1000)
        } else {
            None
        },
        _ => None,
    };
    match secs {
        Some(d) => human_duration_secs(d),
        None => {
            let r = String::from_str("");
            proof {
                reveal_strlit("");
                assert(r@ =~= Seq::<char>::empty());
            }
            r
        },
    }
}

} // verus!
