//! Safe writes: status and error types, the names of the temporary and
//! backup files, the UTC timestamp used in backup names, the retry policy
//! of the atomic commit, and the order of a write's steps.
//!
//! The file operations themselves (copy, flush, rename) are done by the
//! caller, which follows the decisions made here.

use vstd::prelude::*;

use crate::text::{decimal, push_padded_decimal, push_str, string_from_chars, zero_pad};

verus! {

/// Status updates during a write.
#[derive(Debug, Clone)]
pub enum WriteStatus {
    /// A retry is about to happen.
    Retry { attempt: u8, max_attempts: u8, error_code: Option<u32> },
    /// The write succeeded.
    Success,
    /// The write failed.
    Error { message: String, error_code: Option<u32> },
}

/// Options for a safe write.
#[derive(Debug, Clone)]
pub struct SafeWriteOptions {
    /// Whether to create a timestamped backup before replacing the original.
    pub create_backup: bool,
}

impl Default for SafeWriteOptions {
    fn default() -> (o: Self)
        ensures
            o.create_backup,
    {
        SafeWriteOptions { create_backup: true }
    }
}

/// Errors of a safe write.
#[derive(Debug)]
pub enum SafeWriteError {
    Io(std::io::Error),
    WriteFailed(String),
    LockTimeout { attempts: u8, last_error_code: u32 },
    DstMissing { backup_restored: bool },
    Other(String),
}

/// `Display` of an I/O error (its OS-dependent message).
#[verifier::external_body]
fn io_error_text(e: &std::io::Error) -> String {
    format!("{}", e)
}

impl SafeWriteError {
    /// The user-facing message of the error.
    pub fn message(&self) -> (m: String)
        ensures
            match self {
                SafeWriteError::Io(_) => m@.take(10) == "IO error: "@,
                SafeWriteError::WriteFailed(s) => m@ == "Write operation failed: "@ + s@,
                SafeWriteError::LockTimeout { attempts, last_error_code } => m@
                    == "File lock timeout after "@ + decimal(*attempts as nat) + " attempts (error code: "@
                    + decimal(*last_error_code as nat) + ")"@,
                SafeWriteError::DstMissing { backup_restored } => m@
                    == "Destination file missing after commit (backup restored: "@ + (if *backup_restored {
                    "true"@
                } else {
                    "false"@
                }) + ")"@,
                SafeWriteError::Other(s) => m@ == s@,
            },
    {
        proof {
            reveal_strlit("IO error: ");
        }
        let mut out: Vec<char> = Vec::new();
        match self {
            SafeWriteError::Io(e) => {
                push_str(&mut out, "IO error: ");
                let text = io_error_text(e);
                push_str(&mut out, text.as_str());
                assert(out@.take(10) =~= "IO error: "@);
            },
            SafeWriteError::WriteFailed(s) => {
                push_str(&mut out, "Write operation failed: ");
                push_str(&mut out, s.as_str());
            },
            SafeWriteError::LockTimeout { attempts, last_error_code } => {
                push_str(&mut out, "File lock timeout after ");
                push_padded_decimal(&mut out, *attempts as u64, 0);
                push_str(&mut out, " attempts (error code: ");
                push_padded_decimal(&mut out, *last_error_code as u64, 0);
                push_str(&mut out, ")");
            },
            SafeWriteError::DstMissing { backup_restored } => {
                push_str(&mut out, "Destination file missing after commit (backup restored: ");
                if *backup_restored {
                    push_str(&mut out, "true");
                } else {
                    push_str(&mut out, "false");
                }
                push_str(&mut out, ")");
            },
            SafeWriteError::Other(s) => {
                push_str(&mut out, s.as_str());
            },
        }
        string_from_chars(out.as_slice())
    }
}

/// Attempts of the atomic commit before giving up.
pub const MAX_ATTEMPTS: u8 = 3;

/// Name of the temporary file for `file_name`: `<file_name>.sermon-tmp`.
pub fn temp_file_name(file_name: &str) -> (r: String)
    ensures
        r@ == file_name@ + ".sermon-tmp"@,
{
    let mut out: Vec<char> = Vec::new();
    push_str(&mut out, file_name);
    push_str(&mut out, ".sermon-tmp");
    string_from_chars(out.as_slice())
}

/// Name of the backup of `file_name` made at `timestamp`; collisions get a
/// numeric suffix: `<name>.bak.<ts>` then `<name>.bak.<ts>.<n>`.
pub fn backup_file_name(file_name: &str, timestamp: &str, suffix: u32) -> (r: String)
    ensures
        r@ == spec_backup_name(file_name@, timestamp@, suffix as nat),
{
    let mut out: Vec<char> = Vec::new();
    push_str(&mut out, file_name);
    push_str(&mut out, ".bak.");
    push_str(&mut out, timestamp);
    if suffix > 0 {
        push_str(&mut out, ".");
        push_padded_decimal(&mut out, suffix as u64, 0);
    }
    string_from_chars(out.as_slice())
}

/// The name `backup_file_name` gives.
pub open spec fn spec_backup_name(file_name: Seq<char>, timestamp: Seq<char>, suffix: nat) -> Seq<
    char,
> {
    if suffix == 0 {
        file_name + ".bak."@ + timestamp
    } else {
        file_name + ".bak."@ + timestamp + "."@ + decimal(suffix)
    }
}

/// Backups of one file at one timestamp with different suffixes have
/// different names, so trying the next suffix never reuses (and never
/// overwrites) an earlier backup.
pub proof fn lemma_backup_names_distinct(
    file_name: Seq<char>,
    timestamp: Seq<char>,
    a: nat,
    b: nat,
)
    requires
        a != b,
    ensures
        spec_backup_name(file_name, timestamp, a) != spec_backup_name(file_name, timestamp, b),
{
    let base = file_name + ".bak."@ + timestamp;
    if a > 0 && b > 0 {
        if spec_backup_name(file_name, timestamp, a) == spec_backup_name(file_name, timestamp, b) {
            let dot = "."@;
            assert(spec_backup_name(file_name, timestamp, a) =~= (base + dot) + decimal(a));
            assert(spec_backup_name(file_name, timestamp, b) =~= (base + dot) + decimal(b));
            let k = (base + dot).len() as int;
            assert(decimal(a) =~= spec_backup_name(file_name, timestamp, a).skip(k));
            assert(decimal(b) =~= spec_backup_name(file_name, timestamp, b).skip(k));
            crate::text::lemma_decimal_injective(a, b);
        }
    } else {
        assert(spec_backup_name(file_name, timestamp, a).len() != spec_backup_name(
            file_name,
            timestamp,
            b,
        ).len()) by {
            reveal_strlit(".");
        }
    }
}

/// Highest numeric suffix tried for a backup name before giving up.
pub const MAX_BACKUP_SUFFIX: u32 = 999;

/// What the search for a free backup name does next.
#[derive(Debug, Clone, Copy, PartialEq, Eq, Structural)]
pub enum BackupStep {
    /// Back up under the name with this suffix.
    Use(u32),
    /// Look whether the name with this suffix is taken.
    Probe(u32),
    /// Every suffix up to the limit is taken.
    TooMany,
}

/// The step after finding whether the backup name with `suffix` is
/// `taken`: a free name is used; else the next suffix is looked at, unless
/// it passes the limit.
pub open spec fn spec_after_backup_probe(suffix: u32, taken: bool) -> BackupStep {
    if !taken {
        BackupStep::Use(suffix)
    } else if suffix + 1 > MAX_BACKUP_SUFFIX {
        BackupStep::TooMany
    } else {
        BackupStep::Probe((suffix + 1) as u32)
    }
}

/// Decide the next step of the search for a free backup name; the search
/// starts by looking at suffix 0.
pub fn after_backup_probe(suffix: u32, taken: bool) -> (s: BackupStep)
    requires
        suffix <= MAX_BACKUP_SUFFIX,
    ensures
        s == spec_after_backup_probe(suffix, taken),
        s matches BackupStep::Use(n) ==> n <= MAX_BACKUP_SUFFIX,
        s matches BackupStep::Probe(n) ==> n == suffix + 1 && n <= MAX_BACKUP_SUFFIX,
{
    if !taken {
        BackupStep::Use(suffix)
    } else if suffix + 1 > MAX_BACKUP_SUFFIX {
        BackupStep::TooMany
    } else {
        BackupStep::Probe(suffix + 1)
    }
}

/// The error when every backup name of one timestamp is taken.
pub fn too_many_backups() -> (e: SafeWriteError)
    ensures
        e matches SafeWriteError::Other(m) && m@ == "Too many backup files with same timestamp"@,
{
    let mut out: Vec<char> = Vec::new();
    push_str(&mut out, "Too many backup files with same timestamp");
    SafeWriteError::Other(string_from_chars(out.as_slice()))
}

/// Whether the Gregorian `year` is a leap year.
pub open spec fn spec_is_leap_year(year: int) -> bool {
    (year % 4 == 0 && year % 100 != 0) || year % 400 == 0
}

/// Days in a Gregorian year.
pub open spec fn days_in_year(year: int) -> int {
    if spec_is_leap_year(year) {
        366
    } else {
        365
    }
}

/// Days from 1970-01-01 to January 1st of `year` (`year >= 1970`).
pub open spec fn days_before_year(year: int) -> int
    decreases year - 1970,
{
    if year <= 1970 {
        0
    } else {
        days_before_year(year - 1) + days_in_year(year - 1)
    }
}

/// Days in `month` (1-based) of `year`.
pub open spec fn days_in_month(year: int, month: int) -> int {
    if month == 2 {
        if spec_is_leap_year(year) {
            29
        } else {
            28
        }
    } else if month == 4 || month == 6 || month == 9 || month == 11 {
        30
    } else {
        31
    }
}

/// Days of `year` before the first of `month` (1-based).
pub open spec fn days_before_month(year: int, month: int) -> int
    decreases month,
{
    if month <= 1 {
        0
    } else {
        days_before_month(year, month - 1) + days_in_month(year, month - 1)
    }
}

/// `(year, month, day)` is the calendar date `days` days after 1970-01-01.
pub open spec fn is_date_of(days: int, year: int, month: int, day: int) -> bool {
    &&& year >= 1970
    &&& 1 <= month <= 12
    &&& 1 <= day <= days_in_month(year, month)
    &&& days == days_before_year(year) + days_before_month(year, month) + day - 1
}

proof fn lemma_divides_negation(x: int, d: int)
    requires
        d > 0,
    ensures
        (x % d == 0) == ((-x) % d == 0),
{
    if x % d == 0 {
        assert(-x == (-(x / d)) * d) by (nonlinear_arith)
            requires
                x % d == 0,
                d > 0,
        ;
        vstd::arithmetic::div_mod::lemma_mod_multiples_basic(-(x / d), d);
    }
    if (-x) % d == 0 {
        assert(x == (-((-x) / d)) * d) by (nonlinear_arith)
            requires
                (-x) % d == 0,
                d > 0,
        ;
        vstd::arithmetic::div_mod::lemma_mod_multiples_basic(-((-x) / d), d);
    }
}

/// Whether `year` is a Gregorian leap year.
pub fn is_leap_year(year: i32) -> (b: bool)
    ensures
        b == spec_is_leap_year(year as int),
{
    let m: u64 = if year < 0 {
        (-(year as i64)) as u64
    } else {
        year as u64
    };
    proof {
        assert(m as int == year as int || m as int == -(year as int));
        lemma_divides_negation(year as int, 4);
        lemma_divides_negation(year as int, 100);
        lemma_divides_negation(year as int, 400);
    }
    (m % 4 == 0 && m % 100 != 0) || m % 400 == 0
}

proof fn lemma_days_before_year_monotone(a: int, b: int)
    requires
        1970 <= a <= b,
    ensures
        days_before_year(a) + 365 * (b - a) <= days_before_year(b),
    decreases b - a,
{
    if a < b {
        lemma_days_before_year_monotone(a, b - 1);
    }
}

proof fn lemma_days_before_month_total(year: int)
    ensures
        days_before_month(year, 13) == days_in_year(year),
        forall|m: int| 1 <= m <= 12 ==> #[trigger] days_before_month(year, m + 1) == days_before_month(year, m) + days_in_month(year, m),
{
    reveal_with_fuel(days_before_month, 13);
}

/// Leap years among the years `1 ..= y - 1`.
pub open spec fn leaps_before(y: int) -> int {
    (y - 1) / 4 - (y - 1) / 100 + (y - 1) / 400
}

proof fn lemma_div_step(x: int, d: int)
    requires
        x >= 1,
        d > 0,
    ensures
        x / d - (x - 1) / d == if x % d == 0 {
            1int
        } else {
            0int
        },
{
    vstd::arithmetic::div_mod::lemma_fundamental_div_mod(x, d);
    vstd::arithmetic::div_mod::lemma_fundamental_div_mod(x - 1, d);
    vstd::arithmetic::div_mod::lemma_mod_bound(x, d);
    vstd::arithmetic::div_mod::lemma_mod_bound(x - 1, d);
    let q1 = x / d;
    let q0 = (x - 1) / d;
    assert(q1 == q0 || q1 == q0 + 1) by (nonlinear_arith)
        requires
            x == d * q1 + x % d,
            x - 1 == d * q0 + (x - 1) % d,
            0 <= x % d < d,
            0 <= (x - 1) % d < d,
            d > 0,
    ;
    if q1 == q0 {
        assert(x % d == (x - 1) % d + 1) by (nonlinear_arith)
            requires
                x == d * q1 + x % d,
                x - 1 == d * q0 + (x - 1) % d,
                q1 == q0,
        ;
    } else {
        assert(x % d == 0) by (nonlinear_arith)
            requires
                x == d * q1 + x % d,
                x - 1 == d * q0 + (x - 1) % d,
                q1 == q0 + 1,
                0 <= x % d < d,
                0 <= (x - 1) % d < d,
        ;
    }
}

/// Days before a year in closed form: 365 a year plus one per leap year.
proof fn lemma_days_before_year_closed(y: int)
    requires
        y >= 1970,
    ensures
        days_before_year(y) == 365 * (y - 1970) + leaps_before(y) - leaps_before(1970),
    decreases y - 1970,
{
    if y > 1970 {
        lemma_days_before_year_closed(y - 1);
        lemma_div_step(y - 1, 4);
        lemma_div_step(y - 1, 100);
        lemma_div_step(y - 1, 400);
    }
}

/// Largest day count whose date has a year within `i32`: the day before
/// January 1st of year 2^31.
pub const MAX_DAYS: u64 = 784_351_576_776;

proof fn lemma_max_days()
    ensures
        MAX_DAYS + 1 == days_before_year(0x8000_0000),
{
    lemma_days_before_year_closed(0x8000_0000);
    assert(leaps_before(0x8000_0000) == 520_764_784);
    assert(leaps_before(1970) == 477);
}

/// Convert days since 1970-01-01 to a Gregorian `(year, month, day)`.
pub fn days_to_ymd(days: u64) -> (r: (u32, u32, u32))
    requires
        days <= MAX_DAYS,
    ensures
        is_date_of(days as int, r.0 as int, r.1 as int, r.2 as int),
{
    proof {
        lemma_max_days();
    }
    let mut remaining_days: i64 = days as i64;
    let mut year: i32 = 1970;
    loop
        invariant
            1970 <= year,
            0 <= remaining_days,
            days as int == days_before_year(year as int) + remaining_days,
            remaining_days + 365 * (year - 1970) <= days,
            days <= MAX_DAYS,
            MAX_DAYS + 1 == days_before_year(0x8000_0000),
        ensures
            remaining_days < days_in_year(year as int),
        decreases remaining_days,
    {
        let year_len: i64 = if is_leap_year(year) {
            366
        } else {
            365
        };
        if remaining_days < year_len {
            break;
        }
        proof {
            if year == i32::MAX {
                assert(days_before_year(year + 1) == days_before_year(year as int) + days_in_year(
                    year as int,
                ));
                assert(false);
            }
        }
        remaining_days = remaining_days - year_len;
        year = year + 1;
    }
    let leap = is_leap_year(year);
    proof {
        lemma_days_before_month_total(year as int);
    }
    let mut month: u32 = 1;
    loop
        invariant
            1 <= month <= 12,
            0 <= remaining_days,
            leap == spec_is_leap_year(year as int),
            days_before_month(year as int, month as int) + remaining_days < days_in_year(year as int),
            days as int == days_before_year(year as int) + days_before_month(year as int, month as int)
                + remaining_days,
            forall|m: int|
                1 <= m <= 12 ==> #[trigger] days_before_month(year as int, m + 1)
                    == days_before_month(year as int, m) + days_in_month(year as int, m),
            days_before_month(year as int, 13) == days_in_year(year as int),
        ensures
            remaining_days < days_in_month(year as int, month as int),
        decreases 12 - month,
    {
        let dim: i64 = if month == 2 {
            if leap {
                29
            } else {
                28
            }
        } else if month == 4 || month == 6 || month == 9 || month == 11 {
            30
        } else {
            31
        };
        if remaining_days < dim {
            break;
        }
        proof {
            if month == 12 {
                assert(days_before_month(year as int, 13) == days_before_month(year as int, 12)
                    + days_in_month(year as int, 12));
                assert(false);
            }
        }
        remaining_days = remaining_days - dim;
        month = month + 1;
    }
    let day = remaining_days as u32 + 1;
    (year as u32, month, day)
}

/// The calendar date of a day count is unique: the date determines the day count
/// and no other date names the same day.
pub proof fn lemma_date_unique(days: int, y1: int, m1: int, d1: int, y2: int, m2: int, d2: int)
    requires
        is_date_of(days, y1, m1, d1),
        is_date_of(days, y2, m2, d2),
    ensures
        y1 == y2 && m1 == m2 && d1 == d2,
{
    lemma_days_before_month_total(y1);
    lemma_days_before_month_total(y2);
    lemma_days_before_month_bounds(y1, m1);
    lemma_days_before_month_bounds(y2, m2);
    if y1 < y2 {
        lemma_year_step(y1, y2);
    } else if y2 < y1 {
        lemma_year_step(y2, y1);
    }
    assert(y1 == y2);
    if m1 < m2 {
        lemma_month_step(y1, m1, m2);
    } else if m2 < m1 {
        lemma_month_step(y1, m2, m1);
    }
}

proof fn lemma_year_step(a: int, b: int)
    requires
        1970 <= a < b,
    ensures
        days_before_year(a) + days_in_year(a) <= days_before_year(b),
    decreases b - a,
{
    if a + 1 < b {
        lemma_year_step(a, b - 1);
    }
}

proof fn lemma_days_before_month_bounds(year: int, month: int)
    requires
        1 <= month <= 12,
    ensures
        0 <= days_before_month(year, month),
        days_before_month(year, month) + days_in_month(year, month) <= days_in_year(year),
{
    reveal_with_fuel(days_before_month, 13);
}

proof fn lemma_month_step(year: int, a: int, b: int)
    requires
        1 <= a < b <= 12,
    ensures
        days_before_month(year, a) + days_in_month(year, a) <= days_before_month(year, b),
    decreases b - a,
{
    if a + 1 < b {
        lemma_month_step(year, a, b - 1);
    }
}

/// `YYYYMMDD-HHMMSSZ` for a UTC time given in seconds since the Unix epoch.
pub open spec fn spec_timestamp(secs: int) -> Seq<char> {
    let days = secs / 86400;
    let rem = secs % 86400;
    let date = choose|ymd: (int, int, int)| is_date_of(days, ymd.0, ymd.1, ymd.2);
    zero_pad(decimal(date.0 as nat), 4) + zero_pad(decimal(date.1 as nat), 2) + zero_pad(
        decimal(date.2 as nat),
        2,
    ) + seq!['-'] + zero_pad(decimal((rem / 3600) as nat), 2) + zero_pad(
        decimal(((rem % 3600) / 60) as nat),
        2,
    ) + zero_pad(decimal((rem % 60) as nat), 2) + seq!['Z']
}

proof fn lemma_pad_len(n: nat, w: nat, bound: nat)
    requires
        w >= 1,
        bound == vstd::arithmetic::power::pow(10, w),
        n < bound,
    ensures
        zero_pad(decimal(n), w).len() == w,
{
    crate::text::lemma_decimal_len_bound(n, w, bound);
}

/// For every instant before the year 10000 the timestamp has the fixed
/// shape `YYYYMMDD-HHMMSSZ`: sixteen characters, a dash after the date and
/// a `Z` at the end.
pub proof fn lemma_timestamp_shape(secs: int, year: int, month: int, day: int)
    requires
        secs >= 0,
        is_date_of(secs / 86400, year, month, day),
        year < 10000,
    ensures
        spec_timestamp(secs).len() == 16,
        spec_timestamp(secs)[8] == '-',
        spec_timestamp(secs)[15] == 'Z',
{
    let days = secs / 86400;
    let rem = secs % 86400;
    let w = (year, month, day);
    assert(is_date_of(days, w.0, w.1, w.2));
    let date = choose|ymd: (int, int, int)| is_date_of(days, ymd.0, ymd.1, ymd.2);
    lemma_date_unique(days, date.0, date.1, date.2, year, month, day);
    vstd::arithmetic::power::lemma_pow1(10);
    assert(vstd::arithmetic::power::pow(10, 2) == 100) by {
        reveal_with_fuel(vstd::arithmetic::power::pow, 3);
    }
    assert(vstd::arithmetic::power::pow(10, 4) == 10000) by {
        reveal_with_fuel(vstd::arithmetic::power::pow, 5);
    }
    lemma_pad_len(year as nat, 4, 10000);
    lemma_pad_len(month as nat, 2, 100);
    lemma_pad_len(day as nat, 2, 100);
    lemma_pad_len((rem / 3600) as nat, 2, 100);
    lemma_pad_len(((rem % 3600) / 60) as nat, 2, 100);
    lemma_pad_len((rem % 60) as nat, 2, 100);
}

/// Format a UTC time (seconds since the Unix epoch) as `YYYYMMDD-HHMMSSZ`.
pub fn format_timestamp(secs: u64) -> (r: String)
    requires
        secs / 86400 <= MAX_DAYS,
    ensures
        r@ == spec_timestamp(secs as int),
{
    let days = secs / 86400;
    let remaining = secs % 86400;
    let hours = remaining / 3600;
    let minutes = (remaining % 3600) / 60;
    let seconds = remaining % 60;
    let (year, month, day) = days_to_ymd(days);
    proof {
        let date = choose|ymd: (int, int, int)| is_date_of(days as int, ymd.0, ymd.1, ymd.2);
        assert(is_date_of(days as int, year as int, month as int, day as int));
        lemma_date_unique(days as int, date.0, date.1, date.2, year as int, month as int, day as int);
    }
    let mut out: Vec<char> = Vec::new();
    push_padded_decimal(&mut out, year as u64, 4);
    push_padded_decimal(&mut out, month as u64, 2);
    push_padded_decimal(&mut out, day as u64, 2);
    out.push('-');
    push_padded_decimal(&mut out, hours, 2);
    push_padded_decimal(&mut out, minutes, 2);
    push_padded_decimal(&mut out, seconds, 2);
    out.push('Z');
    string_from_chars(out.as_slice())
}

/// Seconds since the Unix epoch from `SystemTime::now` (zero before the
/// epoch). The value depends on the clock; nothing is claimed of it.
#[verifier::external_body]
fn unix_time_secs() -> u64 {
    std::time::SystemTime::now().duration_since(std::time::UNIX_EPOCH).unwrap_or_default().as_secs()
}

/// The current UTC time as `YYYYMMDD-HHMMSSZ`, for backup names. A clock
/// past the last day whose year fits an `i32` reads as that day.
pub fn chrono_timestamp() -> (r: String)
    ensures
        exists|secs: u64| secs / 86400 <= MAX_DAYS && r@ == spec_timestamp(secs as int),
{
    let secs = unix_time_secs();
    let secs = if secs / 86400 <= MAX_DAYS {
        secs
    } else {
        MAX_DAYS * 86400
    };
    format_timestamp(secs)
}

/// The status reported when the commit gives up after the driver code
/// `error_code`.
pub fn commit_failed_status(error_code: u32) -> (st: WriteStatus)
    ensures
        st matches WriteStatus::Error { message, error_code: code } && code == Some(error_code)
            && message@ == "Atomic commit failed (error code: "@ + decimal(error_code as nat)
            + ")"@,
{
    let mut out: Vec<char> = Vec::new();
    push_str(&mut out, "Atomic commit failed (error code: ");
    push_padded_decimal(&mut out, error_code as u64, 0);
    proof {
        assert(zero_pad(decimal(error_code as nat), 0) =~= decimal(error_code as nat));
    }
    push_str(&mut out, ")");
    WriteStatus::Error { message: string_from_chars(out.as_slice()), error_code: Some(error_code) }
}

/// What to do after a failed commit attempt.
#[derive(Debug, Clone, Copy, PartialEq, Eq, Structural)]
pub enum CommitStep {
    /// Report a retry and try again after sleeping this long (if any).
    Retry { attempt: u8, backoff_ms: Option<u64> },
    /// Give up with a lock timeout.
    GiveUp { attempts: u8, last_error_code: u32 },
}

/// Retry policy of the atomic commit: only retryable (sharing-violation)
/// failures are retried, at most `MAX_ATTEMPTS` attempts in all, sleeping
/// 75 ms after the first and 200 ms after the second.
pub fn after_failed_commit(attempt: u8, retryable: bool, error_code: u32) -> (s: CommitStep)
    requires
        attempt >= 1,
    ensures
        (!retryable || attempt >= MAX_ATTEMPTS) ==> s == (CommitStep::GiveUp {
            attempts: attempt,
            last_error_code: error_code,
        }),
        (retryable && attempt < MAX_ATTEMPTS) ==> s == (CommitStep::Retry {
            attempt,
            backoff_ms: if attempt == 1 {
                Some(75u64)
            } else if attempt == 2 {
                Some(200u64)
            } else {
                None
            },
        }),
{
    if !retryable || attempt >= MAX_ATTEMPTS {
        return CommitStep::GiveUp { attempts: attempt, last_error_code: error_code };
    }
    let backoff_ms = if attempt == 1 {
        Some(75u64)
    } else if attempt == 2 {
        Some(200u64)
    } else {
        None
    };
    CommitStep::Retry { attempt, backoff_ms }
}

/// The content of a safe-write error.
pub enum ErrorView {
    Io(std::io::Error),
    WriteFailed(Seq<char>),
    LockTimeout { attempts: u8, last_error_code: u32 },
    DstMissing { backup_restored: bool },
    Other(Seq<char>),
}

impl View for SafeWriteError {
    type V = ErrorView;

    open spec fn view(&self) -> ErrorView {
        match self {
            SafeWriteError::Io(e) => ErrorView::Io(*e),
            SafeWriteError::WriteFailed(m) => ErrorView::WriteFailed(m@),
            SafeWriteError::LockTimeout { attempts, last_error_code } => ErrorView::LockTimeout {
                attempts: *attempts,
                last_error_code: *last_error_code,
            },
            SafeWriteError::DstMissing { backup_restored } => ErrorView::DstMissing {
                backup_restored: *backup_restored,
            },
            SafeWriteError::Other(m) => ErrorView::Other(m@),
        }
    }
}

/// Where a safe write stands. The write goes: name the temporary file,
/// copy the destination to it, let the caller's edit run on it, flush it,
/// back the destination up if asked, commit the temporary file over the
/// destination, and check that the destination is there.
#[derive(Debug, Clone, Copy, PartialEq, Eq, Structural)]
pub enum SafeWritePhase {
    Start,
    TempPath,
    CopyToTemp,
    Edit,
    Flush,
    Backup,
    Commit,
    CheckDst,
    Restore,
    Finished,
}

/// A safe write in progress.
#[derive(Debug, Clone, Copy, PartialEq, Eq, Structural)]
pub struct SafeWriteState {
    pub phase: SafeWritePhase,
    /// Whether a backup is to be made.
    pub create_backup: bool,
    /// Whether a backup was made.
    pub backup_made: bool,
}

/// What the file work of the last step gave.
pub enum SafeWriteEvent {
    /// The write starts.
    Begin,
    /// The temporary file's name was found (or the destination has none).
    TempPathMade(Result<(), SafeWriteError>),
    /// The copy to the temporary file finished; on failure, how the
    /// destination is shown and the copy's error text.
    Copied(Result<(), (String, String)>),
    /// The caller's edit finished; on failure, its error text.
    Edited(Result<(), String>),
    /// The temporary file was flushed to disk.
    Flushed(Result<(), std::io::Error>),
    /// The backup was made.
    BackedUp(Result<(), SafeWriteError>),
    /// The commit (with its retries) finished.
    Committed(Result<(), SafeWriteError>),
    /// Whether the destination exists after the commit.
    DstChecked(bool),
    /// Restoring the destination from the backup: `None` when the backup is
    /// not there, else whether the copy back succeeded.
    RestoreTried(Option<bool>),
}

/// The content of a safe-write event.
pub enum EventView {
    Begin,
    TempPathMade(Result<(), ErrorView>),
    Copied(Result<(), (Seq<char>, Seq<char>)>),
    Edited(Result<(), Seq<char>>),
    Flushed(Result<(), std::io::Error>),
    BackedUp(Result<(), ErrorView>),
    Committed(Result<(), ErrorView>),
    DstChecked(bool),
    RestoreTried(Option<bool>),
}

impl View for SafeWriteEvent {
    type V = EventView;

    open spec fn view(&self) -> EventView {
        match self {
            SafeWriteEvent::Begin => EventView::Begin,
            SafeWriteEvent::TempPathMade(r) => EventView::TempPathMade(
                match r {
                    Ok(()) => Ok(()),
                    Err(e) => Err(e@),
                },
            ),
            SafeWriteEvent::Copied(r) => EventView::Copied(
                match r {
                    Ok(()) => Ok(()),
                    Err((d, c)) => Err((d@, c@)),
                },
            ),
            SafeWriteEvent::Edited(r) => EventView::Edited(
                match r {
                    Ok(()) => Ok(()),
                    Err(m) => Err(m@),
                },
            ),
            SafeWriteEvent::Flushed(r) => EventView::Flushed(*r),
            SafeWriteEvent::BackedUp(r) => EventView::BackedUp(
                match r {
                    Ok(()) => Ok(()),
                    Err(e) => Err(e@),
                },
            ),
            SafeWriteEvent::Committed(r) => EventView::Committed(
                match r {
                    Ok(()) => Ok(()),
                    Err(e) => Err(e@),
                },
            ),
            SafeWriteEvent::DstChecked(b) => EventView::DstChecked(*b),
            SafeWriteEvent::RestoreTried(r) => EventView::RestoreTried(*r),
        }
    }
}

/// File work a safe write asks for.
#[derive(Debug, Clone, Copy, PartialEq, Eq, Structural)]
pub enum SafeWriteWork {
    MakeTempPath,
    CopyToTemp,
    RunEdit,
    FlushTemp,
    MakeBackup,
    Commit,
    CheckDst,
    RestoreFromBackup,
}

/// What the caller does next: file work, or finish (removing the
/// temporary file first when asked, and reporting success when asked).
pub enum SafeWriteAction {
    Do(SafeWriteWork),
    Finish { remove_temp: bool, report_success: bool, result: Result<(), SafeWriteError> },
}

/// The content of a safe-write action.
pub enum ActionView {
    Do(SafeWriteWork),
    Finish { remove_temp: bool, report_success: bool, result: Result<(), ErrorView> },
}

impl View for SafeWriteAction {
    type V = ActionView;

    open spec fn view(&self) -> ActionView {
        match self {
            SafeWriteAction::Do(w) => ActionView::Do(*w),
            SafeWriteAction::Finish { remove_temp, report_success, result } => ActionView::Finish {
                remove_temp: *remove_temp,
                report_success: *report_success,
                result: match result {
                    Ok(()) => Ok(()),
                    Err(e) => Err(e@),
                },
            },
        }
    }
}

/// Whether event `e` is what the work asked for in phase `p` reports.
pub open spec fn event_fits(p: SafeWritePhase, e: EventView) -> bool {
    match (p, e) {
        (SafeWritePhase::Start, EventView::Begin) => true,
        (SafeWritePhase::TempPath, EventView::TempPathMade(_)) => true,
        (SafeWritePhase::CopyToTemp, EventView::Copied(_)) => true,
        (SafeWritePhase::Edit, EventView::Edited(_)) => true,
        (SafeWritePhase::Flush, EventView::Flushed(_)) => true,
        (SafeWritePhase::Backup, EventView::BackedUp(_)) => true,
        (SafeWritePhase::Commit, EventView::Committed(_)) => true,
        (SafeWritePhase::CheckDst, EventView::DstChecked(_)) => true,
        (SafeWritePhase::Restore, EventView::RestoreTried(_)) => true,
        _ => false,
    }
}

/// A finished write.
pub open spec fn finish(s: SafeWriteState, remove_temp: bool, report_success: bool, result: Result<(), ErrorView>) -> (SafeWriteState, ActionView) {
    (
        SafeWriteState { phase: SafeWritePhase::Finished, ..s },
        ActionView::Finish { remove_temp, report_success, result },
    )
}

/// A write moving on to phase `p` with work `w`.
pub open spec fn go(s: SafeWriteState, p: SafeWritePhase, w: SafeWriteWork) -> (SafeWriteState, ActionView) {
    (SafeWriteState { phase: p, ..s }, ActionView::Do(w))
}

/// One step of a safe write. A failed copy, flush, backup or temporary
/// name ends the write with that error and leaves any temporary file; a
/// failed edit or commit ends it after removing the temporary file. The
/// backup is made only when asked for, after the flush and before the
/// commit. After a commit the destination must exist: then the temporary
/// file is removed and success reported; else the write fails as
/// `DstMissing`, restored from the backup when one was made, is there and
/// copies back.
pub open spec fn spec_safe_write_step(s: SafeWriteState, e: EventView) -> (SafeWriteState, ActionView) {
    match e {
        EventView::Begin => go(s, SafeWritePhase::TempPath, SafeWriteWork::MakeTempPath),
        EventView::TempPathMade(Ok(())) => go(s, SafeWritePhase::CopyToTemp, SafeWriteWork::CopyToTemp),
        EventView::TempPathMade(Err(err)) => finish(s, false, false, Err(err)),
        EventView::Copied(Ok(())) => go(s, SafeWritePhase::Edit, SafeWriteWork::RunEdit),
        EventView::Copied(Err((dst, cause))) => finish(
            s,
            false,
            false,
            Err(ErrorView::Other("Failed to copy "@ + dst + " to temp: "@ + cause)),
        ),
        EventView::Edited(Ok(())) => go(s, SafeWritePhase::Flush, SafeWriteWork::FlushTemp),
        EventView::Edited(Err(m)) => finish(s, true, false, Err(ErrorView::WriteFailed(m))),
        EventView::Flushed(Ok(())) => if s.create_backup {
            go(s, SafeWritePhase::Backup, SafeWriteWork::MakeBackup)
        } else {
            go(s, SafeWritePhase::Commit, SafeWriteWork::Commit)
        },
        EventView::Flushed(Err(io)) => finish(s, false, false, Err(ErrorView::Io(io))),
        EventView::BackedUp(Ok(())) => (
            SafeWriteState { phase: SafeWritePhase::Commit, backup_made: true, ..s },
            ActionView::Do(SafeWriteWork::Commit),
        ),
        EventView::BackedUp(Err(err)) => finish(s, false, false, Err(err)),
        EventView::Committed(Ok(())) => go(s, SafeWritePhase::CheckDst, SafeWriteWork::CheckDst),
        EventView::Committed(Err(err)) => finish(s, true, false, Err(err)),
        EventView::DstChecked(true) => finish(s, true, true, Ok(())),
        EventView::DstChecked(false) => if s.backup_made {
            go(s, SafeWritePhase::Restore, SafeWriteWork::RestoreFromBackup)
        } else {
            finish(s, false, false, Err(ErrorView::DstMissing { backup_restored: false }))
        },
        EventView::RestoreTried(r) => finish(
            s,
            false,
            false,
            Err(ErrorView::DstMissing { backup_restored: r == Some(true) }),
        ),
    }
}

impl SafeWriteState {
    /// A write about to start, backing up when `options` ask for it.
    pub fn new(options: &SafeWriteOptions) -> (s: Self)
        ensures
            s == (SafeWriteState {
                phase: SafeWritePhase::Start,
                create_backup: options.create_backup,
                backup_made: false,
            }),
    {
        SafeWriteState { phase: SafeWritePhase::Start, create_backup: options.create_backup, backup_made: false }
    }
}

/// Decide the next step of a safe write after event `e` in state `s`; the
/// event is the one the work last asked for reports.
pub fn safe_write_step(s: SafeWriteState, e: SafeWriteEvent) -> (r: (SafeWriteState, SafeWriteAction))
    requires
        event_fits(s.phase, e@),
    ensures
        r.0 == spec_safe_write_step(s, e@).0,
        r.1@ == spec_safe_write_step(s, e@).1,
{
    let ghost ev = e@;
    match e {
        SafeWriteEvent::Begin => (
            SafeWriteState { phase: SafeWritePhase::TempPath, ..s },
            SafeWriteAction::Do(SafeWriteWork::MakeTempPath),
        ),
        SafeWriteEvent::TempPathMade(Ok(())) => (
            SafeWriteState { phase: SafeWritePhase::CopyToTemp, ..s },
            SafeWriteAction::Do(SafeWriteWork::CopyToTemp),
        ),
        SafeWriteEvent::TempPathMade(Err(err)) => (
            SafeWriteState { phase: SafeWritePhase::Finished, ..s },
            SafeWriteAction::Finish { remove_temp: false, report_success: false, result: Err(err) },
        ),
        SafeWriteEvent::Copied(Ok(())) => (
            SafeWriteState { phase: SafeWritePhase::Edit, ..s },
            SafeWriteAction::Do(SafeWriteWork::RunEdit),
        ),
        SafeWriteEvent::Copied(Err((dst, cause))) => {
            let mut out: Vec<char> = Vec::new();
            push_str(&mut out, "Failed to copy ");
            push_str(&mut out, dst.as_str());
            push_str(&mut out, " to temp: ");
            push_str(&mut out, cause.as_str());
            let m = string_from_chars(out.as_slice());
            (
                SafeWriteState { phase: SafeWritePhase::Finished, ..s },
                SafeWriteAction::Finish {
                    remove_temp: false,
                    report_success: false,
                    result: Err(SafeWriteError::Other(m)),
                },
            )
        },
        SafeWriteEvent::Edited(Ok(())) => (
            SafeWriteState { phase: SafeWritePhase::Flush, ..s },
            SafeWriteAction::Do(SafeWriteWork::FlushTemp),
        ),
        SafeWriteEvent::Edited(Err(m)) => (
            SafeWriteState { phase: SafeWritePhase::Finished, ..s },
            SafeWriteAction::Finish {
                remove_temp: true,
                report_success: false,
                result: Err(SafeWriteError::WriteFailed(m)),
            },
        ),
        SafeWriteEvent::Flushed(Ok(())) => {
            if s.create_backup {
                (
                    SafeWriteState { phase: SafeWritePhase::Backup, ..s },
                    SafeWriteAction::Do(SafeWriteWork::MakeBackup),
                )
            } else {
                (
                    SafeWriteState { phase: SafeWritePhase::Commit, ..s },
                    SafeWriteAction::Do(SafeWriteWork::Commit),
                )
            }
        },
        SafeWriteEvent::Flushed(Err(io)) => (
            SafeWriteState { phase: SafeWritePhase::Finished, ..s },
            SafeWriteAction::Finish {
                remove_temp: false,
                report_success: false,
                result: Err(SafeWriteError::Io(io)),
            },
        ),
        SafeWriteEvent::BackedUp(Ok(())) => (
            SafeWriteState { phase: SafeWritePhase::Commit, backup_made: true, ..s },
            SafeWriteAction::Do(SafeWriteWork::Commit),
        ),
        SafeWriteEvent::BackedUp(Err(err)) => (
            SafeWriteState { phase: SafeWritePhase::Finished, ..s },
            SafeWriteAction::Finish { remove_temp: false, report_success: false, result: Err(err) },
        ),
        SafeWriteEvent::Committed(Ok(())) => (
            SafeWriteState { phase: SafeWritePhase::CheckDst, ..s },
            SafeWriteAction::Do(SafeWriteWork::CheckDst),
        ),
        SafeWriteEvent::Committed(Err(err)) => (
            SafeWriteState { phase: SafeWritePhase::Finished, ..s },
            SafeWriteAction::Finish { remove_temp: true, report_success: false, result: Err(err) },
        ),
        SafeWriteEvent::DstChecked(exists) => {
            if exists {
                (
                    SafeWriteState { phase: SafeWritePhase::Finished, ..s },
                    SafeWriteAction::Finish { remove_temp: true, report_success: true, result: Ok(()) },
                )
            } else if s.backup_made {
                (
                    SafeWriteState { phase: SafeWritePhase::Restore, ..s },
                    SafeWriteAction::Do(SafeWriteWork::RestoreFromBackup),
                )
            } else {
                (
                    SafeWriteState { phase: SafeWritePhase::Finished, ..s },
                    SafeWriteAction::Finish {
                        remove_temp: false,
                        report_success: false,
                        result: Err(SafeWriteError::DstMissing { backup_restored: false }),
                    },
                )
            }
        },
        SafeWriteEvent::RestoreTried(r) => {
            let restored = match r {
                Some(ok) => ok,
                None => false,
            };
            (
                SafeWriteState { phase: SafeWritePhase::Finished, ..s },
                SafeWriteAction::Finish {
                    remove_temp: false,
                    report_success: false,
                    result: Err(SafeWriteError::DstMissing { backup_restored: restored }),
                },
            )
        },
    }
}

/// The commit only comes after the flush, and after the backup whenever a
/// backup was asked for: the destination is never replaced before its
/// backup exists.
pub proof fn lemma_commit_follows_backup(s: SafeWriteState, e: EventView)
    requires
        event_fits(s.phase, e),
    ensures
        spec_safe_write_step(s, e).1 == ActionView::Do(SafeWriteWork::Commit) ==> (
        s.phase == SafeWritePhase::Flush && !s.create_backup) || (s.phase == SafeWritePhase::Backup
            && spec_safe_write_step(s, e).0.backup_made),
{
}

/// Success is reported only once the commit is done and the destination
/// is found in place, and then the temporary file is removed.
pub proof fn lemma_success_only_with_destination(s: SafeWriteState, e: EventView)
    requires
        event_fits(s.phase, e),
    ensures
        spec_safe_write_step(s, e).1 matches ActionView::Finish { report_success, remove_temp, result }
            ==> (report_success <==> (s.phase == SafeWritePhase::CheckDst && e == EventView::DstChecked(
            true,
        ))) && (report_success ==> remove_temp && result is Ok),
        spec_safe_write_step(s, e).1 matches ActionView::Finish { result, .. } ==> (result is Ok
            <==> e == EventView::DstChecked(true)),
{
}

} // verus!
