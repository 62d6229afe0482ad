use ppm::debug::DebugIter;
use ppm::fmt::u64_to_dec;
use ppm::human;
use ppm::info::Info;
use ppm::status::Status;
use ppm::tabled::{bytes_str, info_duration_str, info_status_str, status_name};

#[test]
fn debug_iter() {
    let value = vec![1, 2, 3];
    assert_eq!("[1, 2, 3]", DebugIter::new(value).debug_string().as_str());
    assert_eq!("[]", DebugIter::new(Vec::new()).debug_string().as_str());
    assert_eq!("[7]", DebugIter::new(vec![7]).debug_string().as_str());
}

#[test]
fn decimal() {
    assert_eq!("0", u64_to_dec(0).as_str());
    assert_eq!("9", u64_to_dec(9).as_str());
    assert_eq!("10", u64_to_dec(10).as_str());
    assert_eq!("12345", u64_to_dec(12345).as_str());
    assert_eq!("18446744073709551615", u64_to_dec(u64::MAX).as_str());
}

/// The configuration size text: the largest binary unit that divides the
/// value exactly.
#[test]
fn sizes() {
    assert_eq!("0", human::serialize(&0).as_str());
    assert_eq!("123B", human::serialize(&123).as_str());
    assert_eq!("12KiB", human::serialize(&(12 * 1024)).as_str());
    assert_eq!("12MiB", human::serialize(&(12 * 1024 * 1024)).as_str());
    assert_eq!("12GiB", human::serialize(&(12 * 1024 * 1024 * 1024)).as_str());
    assert_eq!("1025B", human::serialize(&1025).as_str());
    assert_eq!("20MiB", human::serialize(&(1024 * 1024 * 20)).as_str());
}

/// The table cell for byte counts: two decimals in the unit below the
/// value.
#[test]
fn byte_cells() {
    assert_eq!("123 B", bytes_str(&123).as_str());
    assert_eq!("1.00 KiB", bytes_str(&1024).as_str());
    assert_eq!("1.50 KiB", bytes_str(&1536).as_str());
    assert_eq!("12.21 KiB", bytes_str(&12_500).as_str());
    assert_eq!("1.00 MiB", bytes_str(&(1024 * 1024)).as_str());
    assert_eq!("1.00 GiB", bytes_str(&(1024 * 1024 * 1024)).as_str());
    assert_eq!("2.50 GiB", bytes_str(&(1024 * 1024 * 1024 * 5 / 2)).as_str());
}

#[test]
fn status_cells() {
    assert_eq!("Created", status_name(&Status::Created).as_str());
    assert_eq!("Running", status_name(&Status::Running).as_str());
    assert_eq!("Crashed", status_name(&Status::Crashed).as_str());
    assert_eq!("Running", info_status_str(&Status::Running, false).as_str());
}

/// The duration cell: seconds-truncated run time, humantime-formatted.
#[test]
fn duration_cells() {
    let mut info = Info::new();
    info.set_running_at(9, 1_000);

    // a recorded end time measures from the start time
    assert_eq!("1m", info_duration_str(&Some(61_000), &info, 0).as_str());
    assert_eq!("1m 5s", info_duration_str(&Some(66_200), &info, 0).as_str());

    // without one, a running service measures up to now
    assert_eq!("2s", info_duration_str(&None, &info, 3_500).as_str());

    // a service that never ran has no duration
    let idle = Info::new();
    assert_eq!("", info_duration_str(&None, &idle, 3_500).as_str());
}
