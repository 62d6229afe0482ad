//! Rotating per-service log files: naming, rotation and pruning decisions.
//!
//! The file system work — listing the directory, opening and removing
//! files — happens outside the library; this module owns the decisions:
//! which names belong to the service's log, when to rotate, which file to
//! reopen and which old files to prune.

use vstd::prelude::*;

verus! {

/// Default cap on one log file's size, in bytes.
pub const LOGFILE_MAX_SIZE_DEFAULT: u64 = 1024 * 1024 * 20;

/// Default cap on the number of log files kept per service.
pub const LOGFILE_MAX_FILES_DEFAULT: usize = 3;

/// Length of the timestamp suffix of a log file name.
pub const LOGFILE_SUFFIX_LEN: usize = 30;

pub open spec fn spec_is_digit(c: char) -> bool {
    48 <= (c as u32) <= 57
}

/// An RFC3339 wall time at seconds precision with its UTC offset,
/// `YYYY-MM-DDTHH:MM:SS±HH:MM`: 25 characters, digits at the numeric
/// positions, the field separators in between, and the offset signed
/// either way.
pub open spec fn spec_is_rfc3339_stamp(s: Seq<char>) -> bool {
    &&& s.len() == 25
    &&& spec_is_digit(s[0]) && spec_is_digit(s[1]) && spec_is_digit(s[2]) && spec_is_digit(s[3])
    &&& s[4] == '-'
    &&& spec_is_digit(s[5]) && spec_is_digit(s[6])
    &&& s[7] == '-'
    &&& spec_is_digit(s[8]) && spec_is_digit(s[9])
    &&& s[10] == 'T'
    &&& spec_is_digit(s[11]) && spec_is_digit(s[12])
    &&& s[13] == ':'
    &&& spec_is_digit(s[14]) && spec_is_digit(s[15])
    &&& s[16] == ':'
    &&& spec_is_digit(s[17]) && spec_is_digit(s[18])
    &&& (s[19] == '+' || s[19] == '-')
    &&& spec_is_digit(s[20]) && spec_is_digit(s[21])
    &&& s[22] == ':'
    &&& spec_is_digit(s[23]) && spec_is_digit(s[24])
}

/// The timestamp suffix of a log file name: a separating dash, an RFC3339
/// stamp, and the `.log` extension.
pub open spec fn spec_is_stamp_suffix(s: Seq<char>) -> bool {
    &&& s.len() == LOGFILE_SUFFIX_LEN
    &&& s[0] == '-'
    &&& spec_is_rfc3339_stamp(s.subrange(1, 26))
    &&& s[26] == '.' && s[27] == 'l' && s[28] == 'o' && s[29] == 'g'
}

/// Whether `filename` names a log file of the service called `log_name`:
/// the service name followed by a timestamp suffix.
pub open spec fn spec_is_logfile_name(log_name: Seq<char>, filename: Seq<char>) -> bool {
    &&& filename.len() == log_name.len() + LOGFILE_SUFFIX_LEN
    &&& filename.take(log_name.len() as int) == log_name
    &&& spec_is_stamp_suffix(filename.skip(log_name.len() as int))
}

/// What one rotation step does.
#[derive(Debug, Clone, Copy, PartialEq, Eq, Structural)]
pub enum RotatePlan {
    /// the current file still has room: keep writing to it
    Keep,
    /// append to the newest existing file, which holds `size` bytes
    Reopen { size: u64 },
    /// prune the `remove_count` oldest files and create a fresh one
    Create { remove_count: usize },
}

/// A rotating log file's bookkeeping: its name, caps, and what is known
/// of the currently open file.
#[derive(Debug)]
pub struct LogFile {
    /// bytes written to the open file so far
    written: u64,
    /// cap on one file's size
    max_size: u64,
    /// cap on the number of files kept
    max_files: usize,
    /// directory the files live in
    log_dir: String,
    /// service name, the prefix of every file name
    log_name: String,
    /// descriptor of the open file, when one is open
    fd: Option<i32>,
}

impl LogFile {
    pub closed spec fn spec_log_name(&self) -> Seq<char> {
        self.log_name@
    }

    pub closed spec fn spec_log_dir(&self) -> Seq<char> {
        self.log_dir@
    }

    pub closed spec fn spec_written(&self) -> u64 {
        self.written
    }

    pub closed spec fn spec_max_size(&self) -> u64 {
        self.max_size
    }

    pub closed spec fn spec_max_files(&self) -> usize {
        self.max_files
    }

    pub closed spec fn spec_fd(&self) -> Option<i32> {
        self.fd
    }

    /// The size cap of one file.
    pub fn max_size(&self) -> (r: u64)
        ensures
            r == self.spec_max_size(),
    {
        self.max_size
    }

    /// The cap on the number of files kept.
    pub fn max_files(&self) -> (r: usize)
        ensures
            r == self.spec_max_files(),
    {
        self.max_files
    }

    /// Change the caps.
    pub fn set_limits(&mut self, max_size: u64, max_files: usize)
        ensures
            final(self).spec_max_size() == max_size,
            final(self).spec_max_files() == max_files,
            final(self).spec_written() == old(self).spec_written(),
            final(self).spec_fd() == old(self).spec_fd(),
            final(self).spec_log_name() == old(self).spec_log_name(),
            final(self).spec_log_dir() == old(self).spec_log_dir(),
    {
        self.max_size = max_size;
        self.max_files = max_files;
    }

    /// Bookkeeping for a service's log under `log_dir`, with the default
    /// caps.
    pub fn new(log_dir: &str, log_name: &str) -> (r: LogFile)
        ensures
            r.spec_log_dir() == log_dir@,
            r.spec_log_name() == log_name@,
            r.spec_max_size() == LOGFILE_MAX_SIZE_DEFAULT,
            r.spec_max_files() == LOGFILE_MAX_FILES_DEFAULT,
            r.spec_written() == 0,
            r.spec_fd() is None,
    {
        LogFile::new_with_limits(log_dir, log_name, LOGFILE_MAX_SIZE_DEFAULT,
            LOGFILE_MAX_FILES_DEFAULT)
    }

    /// Bookkeeping for a service's log with explicit caps.
    pub fn new_with_limits(log_dir: &str, log_name: &str, max_size: u64, max_files: usize) -> (r:
        LogFile)
        ensures
            r.spec_log_dir() == log_dir@,
            r.spec_log_name() == log_name@,
            r.spec_max_size() == max_size,
            r.spec_max_files() == max_files,
            r.spec_written() == 0,
            r.spec_fd() is None,
    {
        LogFile {
            written: 0,
            max_size,
            max_files,
            log_dir: log_dir.to_owned(),
            log_name: log_name.to_owned(),
            fd: None,
        }
    }

    /// The descriptor of the open file, when one is open.
    pub fn as_raw_fd(&self) -> (r: Option<i32>)
        ensures
            r == self.spec_fd(),
    {
        self.fd
    }

    /// Decide whether `filename` names one of this service's log files.
    pub fn is_match(&self, filename: &str) -> (r: bool)
        ensures
            r == spec_is_logfile_name(self.spec_log_name(), filename@),
    {
        let name_len = self.log_name.as_str().unicode_len();
        let total = filename.unicode_len();
        if name_len > usize::MAX - LOGFILE_SUFFIX_LEN || total != name_len + LOGFILE_SUFFIX_LEN {
            return false;
        }
        // the prefix must be the service name
        let mut i: usize = 0;
        while i < name_len
            invariant
                i <= name_len,
                name_len == self.spec_log_name().len(),
                total == filename@.len(),
                total == name_len + LOGFILE_SUFFIX_LEN,
                forall|j: int| 0 <= j < i ==> filename@[j] == self.spec_log_name()[j],
            decreases name_len - i,
        {
            if filename.get_char(i) != self.log_name.as_str().get_char(i) {
                return false;
            }
            i += 1;
        }
        proof {
            assert(filename@.take(name_len as int) =~= self.spec_log_name());
        }
        let s = name_len;
        let ghost suffix = filename@.skip(name_len as int);
        proof {
            assert(suffix.len() == LOGFILE_SUFFIX_LEN);
            assert(forall|j: int| 0 <= j < LOGFILE_SUFFIX_LEN ==> suffix[j] == filename@[s + j]);
        }
        let sign = filename.get_char(s + 20);
        let r = filename.get_char(s) == '-' && is_digit(filename.get_char(s + 1)) && is_digit(
            filename.get_char(s + 2),
        ) && is_digit(filename.get_char(s + 3)) && is_digit(filename.get_char(s + 4))
            && filename.get_char(s + 5) == '-' && is_digit(filename.get_char(s + 6)) && is_digit(
            filename.get_char(s + 7),
        ) && filename.get_char(s + 8) == '-' && is_digit(filename.get_char(s + 9)) && is_digit(
            filename.get_char(s + 10),
        ) && filename.get_char(s + 11) == 'T' && is_digit(filename.get_char(s + 12)) && is_digit(
            filename.get_char(s + 13),
        ) && filename.get_char(s + 14) == ':' && is_digit(filename.get_char(s + 15)) && is_digit(
            filename.get_char(s + 16),
        ) && filename.get_char(s + 17) == ':' && is_digit(filename.get_char(s + 18)) && is_digit(
            filename.get_char(s + 19),
        ) && (sign == '+' || sign == '-') && is_digit(filename.get_char(s + 21)) && is_digit(
            filename.get_char(s + 22),
        ) && filename.get_char(s + 23) == ':' && is_digit(filename.get_char(s + 24)) && is_digit(
            filename.get_char(s + 25),
        ) && filename.get_char(s + 26) == '.' && filename.get_char(s + 27) == 'l'
            && filename.get_char(s + 28) == 'o' && filename.get_char(s + 29) == 'g';
        proof {
            if r {
                assert(spec_is_rfc3339_stamp(suffix.subrange(1, 26))) by {
                    assert(forall|j: int|
                        0 <= j < 25 ==> #[trigger] suffix.subrange(1, 26)[j] == filename@[s + 1
                            + j]);
                }
            }
        }
        r
    }

    /// The file name for a log opened at the time `stamp` describes.
    pub fn filename_for(&self, stamp: &str) -> (r: String)
        ensures
            r@ == self.spec_log_name() + "-"@ + stamp@ + ".log"@,
    {
        let mut s = String::from_str(self.log_name.as_str());
        s.append("-");
        s.append(stamp);
        s.append(".log");
        proof {
            assert(s@ =~= self.spec_log_name() + "-"@ + stamp@ + ".log"@);
        }
        s
    }

    /// The file name for a log opened now: the service name, a dash, the
    /// current wall-time stamp and the extension. Within the four-digit
    /// calendar era the stamp has the RFC3339 shape, so the created name is
    /// found again by `is_match`.
    pub fn make_filename(&self) -> (r: String)
        ensures
            exists|stamp: Seq<char>|
                {
                    &&& r@ == self.spec_log_name() + "-"@ + #[trigger] seq_id(stamp) + ".log"@
                    &&& (stamp.len() == 25 ==> spec_is_rfc3339_stamp(stamp))
                },
    {
        let stamp = local_now_stamp();
        let r = self.filename_for(stamp.as_str());
        proof {
            assert(seq_id(stamp@) == stamp@);
        }
        r
    }

    /// Decide what rotation does next, given how many log files exist and
    /// the size of the newest one (when it could be read): keep the open
    /// file while it has room; else append to the newest file while it has
    /// room; else prune everything beyond `max_files - 1` files and create
    /// a fresh one.
    pub fn rotate_plan(&self, n_files: usize, last_size: Option<u64>) -> (r: RotatePlan)
        requires
            self.spec_max_files() >= 1,
        ensures
            r == (if self.spec_fd() is Some && self.spec_written() < self.spec_max_size() {
                RotatePlan::Keep
            } else {
                match last_size {
                    Some(size) => if size < self.spec_max_size() {
                        RotatePlan::Reopen { size }
                    } else {
                        RotatePlan::Create {
                            remove_count: spec_prune_count(
                                n_files as nat,
                                self.spec_max_files() as nat,
                            ) as usize,
                        }
                    },
                    None => RotatePlan::Create {
                        remove_count: spec_prune_count(
                            n_files as nat,
                            self.spec_max_files() as nat,
                        ) as usize,
                    },
                }
            }),
    {
        if self.fd.is_some() && self.written < self.max_size {
            return RotatePlan::Keep;
        }
        if let Some(size) = last_size {
            if size < self.max_size {
                return RotatePlan::Reopen { size };
            }
        }
        let keep = self.max_files - 1;
        let remove_count = if n_files > keep {
            n_files - keep
        } else {
            0
        };
        RotatePlan::Create { remove_count }
    }

    /// Record that the newest existing file, holding `size` bytes, was
    /// reopened for appending as descriptor `fd`.
    pub fn record_reopen(&mut self, size: u64, fd: i32)
        ensures
            final(self).spec_written() == size,
            final(self).spec_fd() == Some(fd),
            final(self).spec_max_size() == old(self).spec_max_size(),
            final(self).spec_max_files() == old(self).spec_max_files(),
            final(self).spec_log_name() == old(self).spec_log_name(),
            final(self).spec_log_dir() == old(self).spec_log_dir(),
    {
        self.written = size;
        self.fd = Some(fd);
    }

    /// Record that a fresh file was created as descriptor `fd`.
    pub fn record_create(&mut self, fd: i32)
        ensures
            final(self).spec_written() == 0,
            final(self).spec_fd() == Some(fd),
            final(self).spec_max_size() == old(self).spec_max_size(),
            final(self).spec_max_files() == old(self).spec_max_files(),
            final(self).spec_log_name() == old(self).spec_log_name(),
            final(self).spec_log_dir() == old(self).spec_log_dir(),
    {
        self.written = 0;
        self.fd = Some(fd);
    }

    /// Record that opening a file failed: no file is open.
    pub fn record_failure(&mut self)
        ensures
            final(self).spec_fd() is None,
            final(self).spec_written() == old(self).spec_written(),
            final(self).spec_max_size() == old(self).spec_max_size(),
            final(self).spec_max_files() == old(self).spec_max_files(),
            final(self).spec_log_name() == old(self).spec_log_name(),
            final(self).spec_log_dir() == old(self).spec_log_dir(),
    {
        self.fd = None;
    }

    /// Record that `n` bytes reached the open file.
    pub fn record_write(&mut self, n: u64)
        ensures
            final(self).spec_written() == if old(self).spec_written() + n <= u64::MAX {
                old(self).spec_written() + n
            } else {
                u64::MAX as int
            },
            final(self).spec_fd() == old(self).spec_fd(),
            final(self).spec_max_size() == old(self).spec_max_size(),
            final(self).spec_max_files() == old(self).spec_max_files(),
            final(self).spec_log_name() == old(self).spec_log_name(),
            final(self).spec_log_dir() == old(self).spec_log_dir(),
    {
        if self.written > u64::MAX - n {
            self.written = u64::MAX;
        } else {
            self.written = self.written + n;
        }
    }

    /// Keep exactly the names that belong to this service's log, in order.
    pub fn filter_log_files(&self, names: &Vec<String>) -> (r: Vec<String>)
        ensures
            r@.map_values(|s: String| s@) == names@.map_values(|s: String| s@).filter(
                spec_matches_log(self.spec_log_name()),
            ),
    {
        let ghost target = names@.map_values(|s: String| s@);
        let mut out: Vec<String> = Vec::new();
        let mut i: usize = 0;
        while i < names.len()
            invariant
                i <= names@.len(),
                target == names@.map_values(|s: String| s@),
                out@.map_values(|s: String| s@) == target.take(i as int).filter(
                    spec_matches_log(self.spec_log_name()),
                ),
            decreases names.len() - i,
        {
            proof {
                reveal_with_fuel(Seq::filter, 2);
                assert(target.take(i + 1).drop_last() =~= target.take(i as int));
                assert(target.take(i + 1).last() == target[i as int]);
            }
            let name = &names[i];
            if self.is_match(name.as_str()) {
                out.push(String::from_str(name.as_str()));
                proof {
                    assert(out@.map_values(|s: String| s@) =~= target.take(i + 1).filter(
                        spec_matches_log(self.spec_log_name()),
                    ));
                }
            } else {
                proof {
                    assert(out@.map_values(|s: String| s@) =~= target.take(i + 1).filter(
                        spec_matches_log(self.spec_log_name()),
                    ));
                }
            }
            i += 1;
        }
        proof {
            assert(target.take(target.len() as int) =~= target);
        }
        out
    }
}

/// The logger block of the configuration: where the log files live and
/// the rotation caps.
#[derive(Debug)]
pub struct LoggerOptions {
    /// directory the log files live in
    pub path: String,
    /// cap on the number of files kept per service
    pub max_files: usize,
    /// cap on one file's size, in bytes
    pub max_file_size: u64,
}

impl LoggerOptions {
    /// Options writing under `path` with the default caps.
    pub fn new(path: &str) -> (r: LoggerOptions)
        ensures
            r.path@ == path@,
            r.max_files == LOGFILE_MAX_FILES_DEFAULT,
            r.max_file_size == LOGFILE_MAX_SIZE_DEFAULT,
    {
        LoggerOptions {
            path: path.to_owned(),
            max_files: LOGFILE_MAX_FILES_DEFAULT,
            max_file_size: LOGFILE_MAX_SIZE_DEFAULT,
        }
    }
}

impl Default for LoggerOptions {
    /// The default logging setup: the system log directory and the default
    /// caps.
    fn default() -> (r: LoggerOptions)
        ensures
            r.path@ == "/var/log/"@,
            r.max_files == LOGFILE_MAX_FILES_DEFAULT,
            r.max_file_size == LOGFILE_MAX_SIZE_DEFAULT,
    {
        LoggerOptions::new("/var/log/")
    }
}

/// A name built from the service name and a well-shaped stamp is found
/// again by the log-file filter: creating a file under `filename_for` and
/// listing the directory round-trips.
pub proof fn lemma_stamp_round_trip(log_name: Seq<char>, stamp: Seq<char>)
    requires
        spec_is_rfc3339_stamp(stamp),
    ensures
        spec_is_logfile_name(log_name, log_name + "-"@ + stamp + ".log"@),
{
    reveal_strlit("-");
    reveal_strlit(".log");
    let filename = log_name + "-"@ + stamp + ".log"@;
    assert(filename.len() == log_name.len() + LOGFILE_SUFFIX_LEN);
    assert(filename.take(log_name.len() as int) =~= log_name);
    let suffix = filename.skip(log_name.len() as int);
    assert(suffix.len() == LOGFILE_SUFFIX_LEN);
    assert(suffix[0] == '-');
    assert(suffix.subrange(1, 26) =~= stamp);
    assert(suffix[26] == '.' && suffix[27] == 'l' && suffix[28] == 'o' && suffix[29] == 'g');
}

/// The identity on character sequences; a handle for quantifiers.
pub open spec fn seq_id(s: Seq<char>) -> Seq<char> {
    s
}

/// The names that belong to the log of the service called `log_name`.
pub open spec fn spec_matches_log(log_name: Seq<char>) -> spec_fn(Seq<char>) -> bool {
    |s: Seq<char>| spec_is_logfile_name(log_name, s)
}

/// How many of `n_files` existing files to prune before creating a new
/// one, so that at most `max_files` remain afterwards.
pub open spec fn spec_prune_count(n_files: nat, max_files: nat) -> nat
    recommends
        max_files >= 1,
{
    if n_files + 1 > max_files {
        (n_files - (max_files - 1)) as nat
    } else {
        0
    }
}

/// Whether `c` is a decimal digit.
fn is_digit(c: char) -> (r: bool)
    ensures
        r == spec_is_digit(c),
{
    let n = c as u32;
    48 <= n && n <= 57
}

/// Relies on chrono's `Local::now` and `to_rfc3339_opts`: the current
/// local time at seconds precision with its UTC offset. The value depends
/// on the clock and the environment; what holds of every outcome is the
/// rendering's shape: within the four-digit calendar era the text is the
/// 25-character RFC3339 form, and outside it (expanded or negative years)
/// it is longer, so a 25-character result always has that form.
#[verifier::external_body]
fn local_now_stamp() -> (r: String)
    ensures
        r@.len() == 25 ==> spec_is_rfc3339_stamp(r@),
{
    chrono::Local::now().to_rfc3339_opts(chrono::SecondsFormat::Secs, false)
}

} // verus!
