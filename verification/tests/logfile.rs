use ppm::buffer::Buffer;
use ppm::logfile::{
    LogFile, LoggerOptions, RotatePlan, LOGFILE_MAX_FILES_DEFAULT, LOGFILE_MAX_SIZE_DEFAULT,
};
use ppm::logpump::LogPump;
use ppm::poller::{PollerFds, POLL_ERR, POLL_IN, POLL_OUT};

#[test]
fn name_grammar() {
    let log = LogFile::new("/tmp/logs", "test");
    assert!(log.is_match("test-2026-01-08T09:54:09+01:00.log"));
    assert!(!log.is_match("other-2026-01-08T09:54:09+01:00.log"));
    assert!(!log.is_match("test-2026-01-08T09:54:09+01:00.txt"));
    assert!(!log.is_match("test-2026-01-08.log"));
    assert!(!log.is_match("test-2026-01-08T09:54:0x+01:00.log"));
    assert!(!log.is_match("test"));

    // offsets west of UTC are RFC3339 too
    assert!(log.is_match("test-2026-01-08T09:54:09-07:00.log"));
    let west = log.filename_for("2026-01-08T09:54:09-07:00");
    assert!(log.is_match(west.as_str()));

    let name = log.filename_for("2026-01-08T09:54:09+01:00");
    assert_eq!("test-2026-01-08T09:54:09+01:00.log", name.as_str());
    assert!(log.is_match(name.as_str()));
}

#[test]
fn logger_defaults() {
    let options = LoggerOptions::default();
    assert_eq!("/var/log/", options.path.as_str());
    assert_eq!(3, options.max_files);
    assert_eq!(1024 * 1024 * 20, options.max_file_size);
}

#[test]
fn defaults() {
    let log = LogFile::new("/var/log", "svc");
    assert_eq!(LOGFILE_MAX_SIZE_DEFAULT, log.max_size());
    assert_eq!(LOGFILE_MAX_FILES_DEFAULT, log.max_files());
    assert_eq!(1024 * 1024 * 20, LOGFILE_MAX_SIZE_DEFAULT);
    assert_eq!(3, LOGFILE_MAX_FILES_DEFAULT);
}

/// Rotation: keep an open file with room; reopen the newest existing file
/// while it has room; else prune down to `max_files - 1` and create.
#[test]
fn rotation_plans() {
    let mut log = LogFile::new_with_limits("/tmp/logs", "test", 10, 2);

    // nothing open, no file on disk: create, nothing to prune
    assert_eq!(RotatePlan::Create { remove_count: 0 }, log.rotate_plan(0, None));

    // the newest file has room: append to it
    assert_eq!(RotatePlan::Reopen { size: 4 }, log.rotate_plan(1, Some(4)));

    // the newest file is full: prune so that the new file fits the cap
    assert_eq!(RotatePlan::Create { remove_count: 0 }, log.rotate_plan(1, Some(10)));
    assert_eq!(RotatePlan::Create { remove_count: 2 }, log.rotate_plan(3, Some(12)));

    // an open file with room is kept
    log.record_create(7);
    assert_eq!(Some(7), log.as_raw_fd());
    assert_eq!(RotatePlan::Keep, log.rotate_plan(1, Some(0)));

    // once the cap is written, it rotates
    log.record_write(10);
    assert_eq!(RotatePlan::Create { remove_count: 0 }, log.rotate_plan(1, Some(10)));
    assert_eq!(RotatePlan::Create { remove_count: 1 }, log.rotate_plan(2, Some(10)));

    // reopening restores the size accounting
    log.record_reopen(6, 8);
    assert_eq!(RotatePlan::Keep, log.rotate_plan(1, Some(6)));
    log.record_failure();
    assert_eq!(None, log.as_raw_fd());
}

#[test]
fn filtering() {
    let log = LogFile::new("/tmp/logs", "svc");
    let names = vec![
        String::from("svc-2026-01-08T09:54:09+01:00.log"),
        String::from("unrelated.txt"),
        String::from("svc-2026-01-08T10:00:00+01:00.log"),
        String::from("other-2026-01-08T10:00:00+01:00.log"),
    ];
    let kept = log.filter_log_files(&names);
    assert_eq!(2, kept.len());
    assert_eq!("svc-2026-01-08T09:54:09+01:00.log", kept[0].as_str());
    assert_eq!("svc-2026-01-08T10:00:00+01:00.log", kept[1].as_str());
}

/// The pump under backpressure: a short write parks the tail, the poll
/// set watches the output, and the drained buffer comes back.
#[test]
fn pump_backpressure() {
    let mut pump = LogPump::new(LogFile::new("/tmp/logs", "svc"));
    pump.add_input(4);
    pump.add_input(5);
    pump.output.record_create(9);

    let mut buffer = Buffer::new(16);
    buffer.write_at(0, b"hello world");
    buffer.set_range(0, 11);

    // a short write of 5 bytes parks the 6-byte tail
    let back = pump.after_log(buffer, 5);
    assert!(back.is_none());
    assert!(pump.has_buffer());

    // under backpressure the poll set holds only the output
    let mut pfds = PollerFds::with_capacity(4);
    let n = pump.prepare(&mut pfds);
    assert_eq!(1, n);
    let entries = pfds.ready();
    assert_eq!(0, entries.len()); // nothing polled yet

    // the pending buffer drains fully and comes back for reuse
    let pending = pump.take_pending().unwrap();
    assert_eq!(b" world", pending.as_slice());
    let back = pump.after_log(pending, 6).unwrap();
    assert!(back.is_empty());
    assert!(!pump.has_buffer());

    // without backpressure every input is polled
    let mut pfds = PollerFds::with_capacity(4);
    let n = pump.prepare(&mut pfds);
    assert_eq!(2, n);
}

#[test]
fn pump_hangup() {
    let mut pump = LogPump::new(LogFile::new("/tmp/logs", "svc"));
    pump.add_input(4);
    pump.add_input(5);
    pump.output.record_create(9);

    assert!(pump.on_hup(4).is_none());
    assert_eq!(vec![5], pump.input);

    // an unknown descriptor is no input and no output: ignored
    assert!(pump.on_error(77).is_none());
    assert_eq!(vec![5], pump.input);

    // an error on the output surrenders the pending buffer
    let mut buffer = Buffer::new(8);
    buffer.write_at(0, b"abcd");
    buffer.set_range(0, 4);
    pump.after_log(buffer, 1);
    assert!(pump.has_buffer());
    let surrendered = pump.on_error(9).unwrap();
    assert_eq!(b"bcd", surrendered.as_slice());
    assert!(!pump.has_buffer());
}

/// The flag helpers follow the poll encoding.
#[test]
fn poll_flags() {
    assert_eq!(0x001, POLL_IN);
    assert_eq!(0x004, POLL_OUT);
    assert_eq!(0x008, POLL_ERR);
}
