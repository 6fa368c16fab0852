//! Rename decisions: from a creation stamp and a file name to the new name.
use vstd::prelude::*;

use crate::prelude::{DATE_TIME_SEP, EPOCH_STAMP};
use crate::separators::{Separators, SeparatorsView};
use crate::stamp_converter::{flip_date_format, spec_flip, StampError};
use crate::text::{pad_right, push_padded, starts_with};

verus! {

/// What to do with one file.
#[derive(Debug, Clone, PartialEq, Eq)]
pub enum ConvertOutcome {
    /// Filename already starts with the computed date prefix; leave it alone.
    AlreadyPrefixed,
    Renamed(String),
}

/// A rename decision by its characters.
pub enum ConvertOutcomeView {
    AlreadyPrefixed,
    Renamed(Seq<char>),
}

impl View for ConvertOutcome {
    type V = ConvertOutcomeView;

    open spec fn view(&self) -> ConvertOutcomeView {
        match self {
            ConvertOutcome::AlreadyPrefixed => ConvertOutcomeView::AlreadyPrefixed,
            ConvertOutcome::Renamed(n) => ConvertOutcomeView::Renamed(n@),
        }
    }
}

/// The rename decision for `old_name` under the stamp `stamp`: the flipped
/// stamp and a space make the prefix; a name that already starts with the
/// prefix is left alone, any other gets the prefix in front.
pub open spec fn spec_rename(old_name: Seq<char>, stamp: Seq<char>, seps: SeparatorsView) -> Result<
    ConvertOutcomeView,
    StampError,
> {
    match spec_flip(stamp, seps) {
        Err(e) => Err(e),
        Ok(date) => {
            let prefix = date + seq![' '];
            if prefix.is_prefix_of(old_name) {
                Ok(ConvertOutcomeView::AlreadyPrefixed)
            } else {
                Ok(ConvertOutcomeView::Renamed(prefix + old_name))
            }
        },
    }
}

/// Pure rename decision from a raw stamp string (no I/O).
///
/// `stamp_raw` is the dual-time form produced by `format_dual`, e.g.
/// `"26/05/2022 14:40 02:40 PM"`.
pub fn rename_from_stamp(old_name: &str, stamp_raw: &str, seps: &Separators<'_>) -> (r: Result<
    ConvertOutcome,
    StampError,
>)
    ensures
        match spec_rename(old_name@, stamp_raw@, seps@) {
            Ok(o) => r matches Ok(out) && out@ == o,
            Err(e) => r matches Err(e2) && e2 == e,
        },
{
    let new_date = flip_date_format(stamp_raw, seps)?;
    let mut prefix_with_sep = new_date;
    proof {
        crate::prelude::lemma_separator_constants();
    }
    prefix_with_sep.append(DATE_TIME_SEP);
    if starts_with(old_name, prefix_with_sep.as_str()) {
        return Ok(ConvertOutcome::AlreadyPrefixed);
    }
    prefix_with_sep.append(old_name);
    Ok(ConvertOutcome::Renamed(prefix_with_sep))
}

/// Renaming is idempotent: a name produced by a rename under a stamp is left
/// alone when the same stamp is applied to it again.
pub proof fn lemma_rename_idempotent(old_name: Seq<char>, stamp: Seq<char>, seps: SeparatorsView)
    requires
        spec_rename(old_name, stamp, seps) is Ok,
    ensures
        match spec_rename(old_name, stamp, seps) {
            Ok(ConvertOutcomeView::Renamed(new_name)) => spec_rename(new_name, stamp, seps) == Ok::<
                ConvertOutcomeView,
                StampError,
            >(ConvertOutcomeView::AlreadyPrefixed),
            _ => true,
        },
{
    match spec_flip(stamp, seps) {
        Ok(date) => {
            let prefix = date + seq![' '];
            let new_name = prefix + old_name;
            assert(prefix =~= new_name.subrange(0, prefix.len() as int));
        },
        Err(_) => {},
    }
}

/// A renamed file keeps its whole original name after the prefix, and the
/// prefix is the flipped stamp followed by a space.
pub proof fn lemma_rename_keeps_name(old_name: Seq<char>, stamp: Seq<char>, seps: SeparatorsView)
    ensures
        spec_rename(old_name, stamp, seps) matches Ok(ConvertOutcomeView::Renamed(new_name)) ==> {
            &&& spec_flip(stamp, seps) matches Ok(date)
            &&& new_name == date + seq![' '] + old_name
            &&& new_name.subrange(new_name.len() - old_name.len(), new_name.len() as int)
                == old_name
        },
{
    match spec_flip(stamp, seps) {
        Ok(date) => {
            let new_name = date + seq![' '] + old_name;
            assert(new_name.subrange(new_name.len() - old_name.len(), new_name.len() as int)
                =~= old_name);
        },
        Err(_) => {},
    }
}

/// Tag in front of a report line of a dry run.
pub const DRY_RUN_TAG: &'static str = "[DRY RUN] | ";

/// Arrow between the old and the new name in a report line.
pub const REPORT_ARROW: &'static str = " -> ";

/// Line feed ending a report line.
pub const LINE_END: &'static str = "\n";

/// One report line: the dry-run tag when it applies, both names padded to 20
/// characters around an arrow, and a line feed.
pub open spec fn spec_report_line(old: Seq<char>, new: Seq<char>, dry_run: bool) -> Seq<char> {
    (if dry_run {
        DRY_RUN_TAG@
    } else {
        Seq::<char>::empty()
    }) + pad_right(old, 20) + REPORT_ARROW@ + pad_right(new, 20) + LINE_END@
}

/// Appends the report line for a rename of `old` into `new` to `handle`.
pub fn write_handle(handle: &mut String, old_name: &str, new_name: &str, dry_run: bool)
    ensures
        final(handle)@ == old(handle)@ + spec_report_line(old_name@, new_name@, dry_run),
{
    if dry_run {
        handle.append(DRY_RUN_TAG);
    }
    push_padded(handle, old_name, 20);
    handle.append(REPORT_ARROW);
    push_padded(handle, new_name, 20);
    handle.append(LINE_END);
    assert(handle@ =~= old(handle)@ + spec_report_line(old_name@, new_name@, dry_run));
}

/// Tag in front of the report line of a file that is left alone.
pub const SKIP_TAG: &'static str = "[skip] already prefixed: ";

/// What to do with one file of a folder.
pub enum FileAction {
    /// The name already carries the prefix: print `line`, touch nothing.
    Skip { line: String },
    /// Print `line`; rename the file to `new_name` when `rename` holds.
    Report { line: String, new_name: String, rename: bool },
    /// The stamp of the file was refused.
    Fail(StampError),
}

/// The plan for one file, by what it prints and whether it renames.
pub enum FileActionView {
    Skip { line: Seq<char> },
    Report { line: Seq<char>, new_name: Seq<char>, rename: bool },
    Fail(StampError),
}

impl View for FileAction {
    type V = FileActionView;

    open spec fn view(&self) -> FileActionView {
        match self {
            FileAction::Skip { line } => FileActionView::Skip { line: line@ },
            FileAction::Report { line, new_name, rename } => FileActionView::Report {
                line: line@,
                new_name: new_name@,
                rename: *rename,
            },
            FileAction::Fail(e) => FileActionView::Fail(*e),
        }
    }
}

/// The plan for a file named `old_name` whose stamp is `stamp`: a prefixed
/// name is skipped, a refused stamp fails, any other file is reported and,
/// unless this is a dry run, renamed.
pub open spec fn spec_plan_file(
    old_name: Seq<char>,
    stamp: Seq<char>,
    seps: SeparatorsView,
    dry_run: bool,
) -> FileActionView {
    match spec_rename(old_name, stamp, seps) {
        Err(e) => FileActionView::Fail(e),
        Ok(ConvertOutcomeView::AlreadyPrefixed) => FileActionView::Skip {
            line: SKIP_TAG@ + old_name + LINE_END@,
        },
        Ok(ConvertOutcomeView::Renamed(new_name)) => FileActionView::Report {
            line: spec_report_line(old_name, new_name, dry_run),
            new_name,
            rename: !dry_run,
        },
    }
}

/// Plans what to do with one file (see `spec_plan_file`). A dry run never
/// renames.
pub fn plan_file(old_name: &str, stamp: &str, seps: &Separators<'_>, dry_run: bool) -> (r:
    FileAction)
    ensures
        r@ == spec_plan_file(old_name@, stamp@, seps@, dry_run),
        dry_run ==> !(r@ matches FileActionView::Report { rename, .. } && rename),
{
    match rename_from_stamp(old_name, stamp, seps) {
        Err(e) => FileAction::Fail(e),
        Ok(ConvertOutcome::AlreadyPrefixed) => {
            let mut line = String::new();
            line.append(SKIP_TAG);
            line.append(old_name);
            line.append(LINE_END);
            FileAction::Skip { line }
        },
        Ok(ConvertOutcome::Renamed(new_name)) => {
            let mut line = String::new();
            write_handle(&mut line, old_name, new_name.as_str(), dry_run);
            assert(line@ =~= spec_report_line(old_name@, new_name@, dry_run));
            FileAction::Report { line, new_name, rename: !dry_run }
        },
    }
}

/// A local wall-clock date and time, to the minute.
#[derive(Clone, Copy, Debug, PartialEq, Eq, Structural)]
pub struct LocalDateTime {
    pub year: i32,
    pub month: u32,
    pub day: u32,
    pub hour: u32,
    pub minute: u32,
}

/// A leap year of the proleptic Gregorian calendar.
pub open spec fn is_leap_year(y: int) -> bool {
    (y % 4 == 0 && y % 100 != 0) || y % 400 == 0
}

/// The number of days in a month of the proleptic Gregorian calendar.
pub open spec fn days_in_month(y: int, m: int) -> int {
    if m == 2 {
        if is_leap_year(y) {
            29
        } else {
            28
        }
    } else if m == 4 || m == 6 || m == 9 || m == 11 {
        30
    } else {
        31
    }
}

impl LocalDateTime {
    /// A calendar date and time of day that `chrono` can represent.
    pub open spec fn wf(self) -> bool {
        &&& -262143 <= self.year <= 262142
        &&& 1 <= self.month <= 12
        &&& 1 <= self.day <= days_in_month(self.year as int, self.month as int)
        &&& self.hour < 24
        &&& self.minute < 60
    }

    /// Whether this is a date and time that `chrono` can represent.
    pub fn is_valid(&self) -> (r: bool)
        ensures
            r == self.wf(),
    {
        if self.year < -262143 || self.year > 262142 || self.month < 1 || self.month > 12
            || self.day < 1 || self.hour >= 24 || self.minute >= 60 {
            return false;
        }
        let y = self.year;
        let leap = (y % 4 == 0 && y % 100 != 0) || y % 400 == 0;
        let days: u32 = if self.month == 2 {
            if leap {
                29
            } else {
                28
            }
        } else if self.month == 4 || self.month == 6 || self.month == 9 || self.month == 11 {
            30
        } else {
            31
        };
        self.day <= days
    }

    /// A year written with exactly four digits.
    pub open spec fn has_four_digit_year(self) -> bool {
        0 <= self.year <= 9999
    }
}

/// The decimal digit of `n` (0 to 9).
pub open spec fn digit(n: int) -> char {
    if n == 0 {
        '0'
    } else if n == 1 {
        '1'
    } else if n == 2 {
        '2'
    } else if n == 3 {
        '3'
    } else if n == 4 {
        '4'
    } else if n == 5 {
        '5'
    } else if n == 6 {
        '6'
    } else if n == 7 {
        '7'
    } else if n == 8 {
        '8'
    } else {
        '9'
    }
}

/// `n` (0 to 99) in two digits, zero-padded.
pub open spec fn two_digits(n: int) -> Seq<char> {
    seq![digit(n / 10), digit(n % 10)]
}

/// `n` (0 to 9999) in four digits, zero-padded.
pub open spec fn four_digits(n: int) -> Seq<char> {
    seq![digit(n / 1000), digit((n / 100) % 10), digit((n / 10) % 10), digit(n % 10)]
}

/// The hour on a 12-hour clock (1 to 12).
pub open spec fn hour12(h: int) -> int {
    if h % 12 == 0 {
        12
    } else {
        h % 12
    }
}

/// `AM` before noon, `PM` from noon on.
pub open spec fn meridiem(h: int) -> Seq<char> {
    if h < 12 {
        seq!['A', 'M']
    } else {
        seq!['P', 'M']
    }
}

/// The decimal digits of `n`, without leading zeros.
pub open spec fn decimal(n: nat) -> Seq<char>
    decreases n,
{
    if n < 10 {
        seq![digit(n as int)]
    } else {
        decimal(n / 10).push(digit((n % 10) as int))
    }
}

/// The decimal digits of `n`, zero-padded on the left to `width` digits.
pub open spec fn zero_padded(n: nat, width: nat) -> Seq<char> {
    let d = decimal(n);
    if d.len() >= width {
        d
    } else {
        Seq::new((width - d.len()) as nat, |i: int| '0') + d
    }
}

/// A year as `%Y` writes it: four zero-padded digits from 0 to 9999, and
/// otherwise a sign followed by at least four zero-padded digits.
pub open spec fn year_text(y: int) -> Seq<char> {
    if 0 <= y <= 9999 {
        four_digits(y)
    } else if y < 0 {
        seq!['-'] + zero_padded((-y) as nat, 4)
    } else {
        seq!['+'] + zero_padded(y as nat, 4)
    }
}

/// The dual stamp `DD/MM/YYYY HH:MM II:MM AM|PM` of a date and time.
pub open spec fn dual_stamp(t: LocalDateTime) -> Seq<char> {
    two_digits(t.day as int) + seq!['/'] + two_digits(t.month as int) + seq!['/'] + year_text(
        t.year as int,
    ) + seq![' '] + two_digits(t.hour as int) + seq![':'] + two_digits(t.minute as int) + seq![' ']
        + two_digits(hour12(t.hour as int)) + seq![':'] + two_digits(t.minute as int) + seq![' ']
        + meridiem(t.hour as int)
}

/// `chrono::NaiveDateTime::format` with the pattern `%d/%m/%Y %H:%M %I:%M %p`,
/// rendered to a `String`. chrono writes day, month, 24h hour and minute,
/// 12h hour and minute zero-padded to two digits, `AM`/`PM` for `%p`, and
/// the year as `year_text` gives it (four digits from 0 to 9999, otherwise a
/// sign and at least four zero-padded digits): `dual_stamp`.
#[verifier::external_body]
fn chrono_format_dual(year: i32, month: u32, day: u32, hour: u32, minute: u32) -> (r: String)
    requires
        (LocalDateTime { year, month, day, hour, minute }).wf(),
    ensures
        r@ == dual_stamp(LocalDateTime { year, month, day, hour, minute }),
{
    let date = chrono::NaiveDate::from_ymd_opt(year, month, day).unwrap();
    let date_time = date.and_hms_opt(hour, minute, 0).unwrap();
    date_time.format("%d/%m/%Y %H:%M %I:%M %p").to_string()
}

/// Dual time stamp string: 24h for sort, 12h+AM/PM for reading.
pub fn format_dual(dt: LocalDateTime) -> (r: String)
    requires
        dt.wf(),
    ensures
        r@ == dual_stamp(dt),
{
    chrono_format_dual(dt.year, dt.month, dt.day, dt.hour, dt.minute)
}

/// The first of three dates that is present.
pub open spec fn first_present<T>(a: Option<T>, b: Option<T>, c: Option<T>) -> Option<T> {
    if a is Some {
        a
    } else if b is Some {
        b
    } else {
        c
    }
}

/// The date of an image: its original date, else its creation date, else
/// its modification date.
pub fn pick_image_date<T>(original: Option<T>, created: Option<T>, modified: Option<T>) -> (r:
    Option<T>)
    ensures
        r == first_present(original, created, modified),
{
    if original.is_some() {
        original
    } else if created.is_some() {
        created
    } else {
        modified
    }
}

/// The filesystem time of a file: the earlier of its creation and
/// modification times when both are known, else the one that is known.
pub fn earliest_fs_time(created: Option<i128>, modified: Option<i128>) -> (r: Option<i128>)
    ensures
        r == (match (created, modified) {
            (Some(c), Some(m)) => Some(if c <= m {
                c
            } else {
                m
            }),
            (Some(c), None) => Some(c),
            (None, Some(m)) => Some(m),
            (None, None) => None,
        }),
{
    match (created, modified) {
        (Some(c), Some(m)) => Some(if c <= m {
            c
        } else {
            m
        }),
        (Some(c), None) => Some(c),
        (None, Some(m)) => Some(m),
        (None, None) => None,
    }
}

/// The stamp of a file: from its media date, else from its filesystem
/// date, else the epoch stamp.
pub open spec fn spec_creation_stamp(media: Option<LocalDateTime>, fs: Option<LocalDateTime>) -> Seq<
    char,
> {
    match media {
        Some(t) => dual_stamp(t),
        None => match fs {
            Some(t) => dual_stamp(t),
            None => EPOCH_STAMP@,
        },
    }
}

/// Resolves the stamp of a file from what was found of its dates, in order:
/// media metadata, filesystem time, the epoch fallback.
pub fn creation_stamp(media: Option<LocalDateTime>, fs: Option<LocalDateTime>) -> (r: String)
    requires
        media matches Some(t) ==> t.wf(),
        fs matches Some(t) ==> t.wf(),
    ensures
        r@ == spec_creation_stamp(media, fs),
{
    match media {
        Some(t) => format_dual(t),
        None => match fs {
            Some(t) => format_dual(t),
            None => EPOCH_STAMP.to_string(),
        },
    }
}

/// A planned rename moves the file to exactly the name that the rename
/// decision gives, in a real run and in a dry run alike: the flipped stamp,
/// a space and the old name, never the old name itself. Only a real run
/// renames.
pub proof fn lemma_plan_renames_to_decided_name(
    old_name: Seq<char>,
    stamp: Seq<char>,
    seps: SeparatorsView,
    dry_run: bool,
)
    ensures
        spec_rename(old_name, stamp, seps) matches Ok(ConvertOutcomeView::Renamed(n)) ==> {
            &&& spec_plan_file(old_name, stamp, seps, dry_run) matches FileActionView::Report {
                new_name,
                rename,
                ..
            }
            &&& new_name == n
            &&& rename == !dry_run
            &&& spec_flip(stamp, seps) matches Ok(date)
            &&& new_name == date + seq![' '] + old_name
            &&& new_name != old_name
        },
        spec_rename(old_name, stamp, seps) == Ok::<ConvertOutcomeView, StampError>(
            ConvertOutcomeView::AlreadyPrefixed,
        ) ==> spec_plan_file(old_name, stamp, seps, dry_run) is Skip,
        spec_rename(old_name, stamp, seps) matches Err(e) ==> spec_plan_file(
            old_name,
            stamp,
            seps,
            dry_run,
        ) == FileActionView::Fail(e),
{
    lemma_rename_keeps_name(old_name, stamp, seps);
    if let Ok(ConvertOutcomeView::Renamed(n)) = spec_rename(old_name, stamp, seps) {
        assert(n.len() > old_name.len());
    }
}

/// The stamp of a file with a media date is the dual stamp of that date,
/// whatever its filesystem date; a file without one gets the dual stamp of
/// its filesystem date; a file with neither gets the epoch stamp.
pub proof fn lemma_creation_stamp_prefers_media(
    media: Option<LocalDateTime>,
    fs: Option<LocalDateTime>,
    other_fs: Option<LocalDateTime>,
)
    ensures
        media matches Some(t) ==> spec_creation_stamp(media, fs) == dual_stamp(t),
        media is Some ==> spec_creation_stamp(media, fs) == spec_creation_stamp(media, other_fs),
        (media is None && fs is Some) ==> spec_creation_stamp(media, fs) == dual_stamp(fs.unwrap()),
        (media is None && fs is None) ==> spec_creation_stamp(media, fs) == EPOCH_STAMP@,
{
}

/// The proleptic Gregorian year: the month lengths add up to 365 days, 366
/// in a leap year; January, March, May, July, August, October and December
/// have 31 days, April, June, September and November 30, and February 29
/// exactly in leap years.
pub proof fn lemma_calendar_months(y: int)
    ensures
        days_in_month(y, 1) + days_in_month(y, 2) + days_in_month(y, 3) + days_in_month(y, 4)
            + days_in_month(y, 5) + days_in_month(y, 6) + days_in_month(y, 7) + days_in_month(y, 8)
            + days_in_month(y, 9) + days_in_month(y, 10) + days_in_month(y, 11) + days_in_month(
            y,
            12,
        ) == if is_leap_year(y) {
            366int
        } else {
            365int
        },
        forall|m: int|
            m == 1 || m == 3 || m == 5 || m == 7 || m == 8 || m == 10 || m == 12 ==> #[trigger] days_in_month(y, m) == 31,
        forall|m: int| m == 4 || m == 6 || m == 9 || m == 11 ==> #[trigger] days_in_month(y, m) == 30,
        days_in_month(y, 2) == 29 <==> (y % 4 == 0 && (y % 100 != 0 || y % 400 == 0)),
{
}

/// Every day of a month is a valid date, at any time of day, for the years
/// chrono represents: in particular the 31st of January, March, May, July,
/// August, October and December, the 30th of April, June, September and
/// November, and the 29th of February of a leap year.
pub proof fn lemma_valid_dates(t: LocalDateTime)
    requires
        -262143 <= t.year <= 262142,
        1 <= t.month <= 12,
        t.hour < 24,
        t.minute < 60,
    ensures
        1 <= t.day <= 28 ==> t.wf(),
        t.day <= 31 && (t.month == 1 || t.month == 3 || t.month == 5 || t.month == 7 || t.month
            == 8 || t.month == 10 || t.month == 12) ==> (t.day >= 1 <==> t.wf()),
        t.day <= 30 && (t.month == 4 || t.month == 6 || t.month == 9 || t.month == 11) ==> (t.day
            >= 1 <==> t.wf()),
        t.month == 2 && t.day == 29 ==> (t.wf() <==> is_leap_year(t.year as int)),
        t.day > 31 ==> !t.wf(),
{
}

/// A dry run plans what a real run does, without renaming: the same
/// outcome, the same target name, and the same report line with the dry-run
/// tag in front. The real run's line starts with the old name and ends with a
/// line feed, and holds the target name after the arrow.
pub proof fn lemma_dry_run_mirrors_real_run(old_name: Seq<char>, stamp: Seq<char>, seps: SeparatorsView)
    ensures
        spec_plan_file(old_name, stamp, seps, false) matches FileActionView::Report {
            line,
            new_name,
            rename,
        } ==> {
            &&& rename
            &&& spec_plan_file(old_name, stamp, seps, true) == (FileActionView::Report {
                line: DRY_RUN_TAG@ + line,
                new_name,
                rename: false,
            })
            &&& line.subrange(0, old_name.len() as int) == old_name
            &&& line.last() == '\n'
            &&& {
                let at: int = (pad_right(old_name, 20).len() + REPORT_ARROW@.len()) as int;
                &&& line.subrange(at - REPORT_ARROW@.len(), at) == REPORT_ARROW@
                &&& line.subrange(at, at + new_name.len()) == new_name
            }
        },
        spec_plan_file(old_name, stamp, seps, false) is Skip <==> spec_plan_file(
            old_name,
            stamp,
            seps,
            true,
        ) is Skip,
        spec_plan_file(old_name, stamp, seps, false) is Skip ==> spec_plan_file(
            old_name,
            stamp,
            seps,
            false,
        ) == spec_plan_file(old_name, stamp, seps, true),
        spec_plan_file(old_name, stamp, seps, false) is Fail ==> spec_plan_file(
            old_name,
            stamp,
            seps,
            false,
        ) == spec_plan_file(old_name, stamp, seps, true),
{
    if let Ok(ConvertOutcomeView::Renamed(n)) = spec_rename(old_name, stamp, seps) {
        let a = pad_right(old_name, 20);
        let b = pad_right(n, 20);
        let line = spec_report_line(old_name, n, false);
        assert(line =~= Seq::<char>::empty() + a + REPORT_ARROW@ + b + LINE_END@);
        assert(spec_report_line(old_name, n, true) =~= DRY_RUN_TAG@ + line);
        assert(line.subrange(0, old_name.len() as int) =~= old_name);
        let at: int = (a.len() + REPORT_ARROW@.len()) as int;
        assert(line.subrange(at - REPORT_ARROW@.len(), at) =~= REPORT_ARROW@);
        assert(line.subrange(at, at + n.len()) =~= n);
        reveal_strlit("\n");
        assert(line.last() == '\n');
        assert(spec_plan_file(old_name, stamp, seps, true) == (FileActionView::Report {
            line: DRY_RUN_TAG@ + line,
            new_name: n,
            rename: false,
        }));
    }
}

/// A date and time outside the calendar or the clock is refused: a month
/// other than 1 to 12, day 0 or a day past the month's last, an hour past 23,
/// a minute past 59, or a year outside the range chrono represents
/// (-262143 to 262142).
pub proof fn lemma_invalid_dates(t: LocalDateTime)
    ensures
        (t.month < 1 || t.month > 12) ==> !t.wf(),
        t.day < 1 ==> !t.wf(),
        t.day > 31 ==> !t.wf(),
        (t.month == 4 || t.month == 6 || t.month == 9 || t.month == 11) && t.day > 30 ==> !t.wf(),
        t.month == 2 && t.day > 29 ==> !t.wf(),
        t.month == 2 && t.day == 29 && !(t.year % 4 == 0 && (t.year % 100 != 0 || t.year % 400
            == 0)) ==> !t.wf(),
        t.hour >= 24 ==> !t.wf(),
        t.minute >= 60 ==> !t.wf(),
        (t.year < -262143 || t.year > 262142) ==> !t.wf(),
{
}

} // verus!
