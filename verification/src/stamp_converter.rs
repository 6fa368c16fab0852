//! Parsing `DD/MM/YYYY [time]` stamps and flipping them into the sortable
//! `YYYY_MM_DD [time]` layout.
use vstd::prelude::*;

use crate::separators::{Separators, SeparatorsView};
use crate::text::{
    contains_char, replace_char, replace_char_with, same_text, split_on, split_on_char,
    to_uppercase, uppercase_of, views, all_ascii, ascii_upper, whitespace_tokens, ws_tokens, is_ascii_digit,
};

verus! {

/// Why a stamp was refused.
#[derive(Clone, Copy, Debug, PartialEq, Eq, Structural)]
pub enum StampError {
    /// The stamp holds no token at all.
    MissingDate,
    /// The date token holds none of `-`, `/`, `.`.
    NoDateSeparator,
    /// The date token does not split into three components; the count is given.
    WrongComponentCount(usize),
    /// The date component at this index is empty or not all ASCII digits.
    NonNumericComponent(usize),
    /// The stamp has exactly one token after the date.
    InvalidTimePortion,
    /// The `AM`/`PM` token is neither, in any letter case.
    InvalidAmPm,
}

/// Whether a time of day is before or after noon.
#[derive(Clone, Copy, Debug, PartialEq, Eq, Structural)]
pub enum AmOrPm {
    Am,
    Pm,
}

/// The text `AM` or `PM`.
pub open spec fn am_pm_text(a: AmOrPm) -> Seq<char> {
    match a {
        AmOrPm::Am => seq!['A', 'M'],
        AmOrPm::Pm => seq!['P', 'M'],
    }
}

/// The upper-cased form of a token: ASCII upper-casing on ASCII text, and
/// the result of `str::to_uppercase` (named `uppercase_of`) on other text.
pub open spec fn upper_text(s: Seq<char>) -> Seq<char> {
    if all_ascii(s) {
        s.map_values(|c: char| ascii_upper(c))
    } else {
        uppercase_of(s)
    }
}

/// `AM` or `PM` from a token, in any letter case: the token's upper-cased
/// form must be exactly `AM` or `PM`.
pub open spec fn spec_parse_am_pm(s: Seq<char>) -> Result<AmOrPm, StampError> {
    let u = upper_text(s);
    if u == seq!['A', 'M'] {
        Ok(AmOrPm::Am)
    } else if u == seq!['P', 'M'] {
        Ok(AmOrPm::Pm)
    } else {
        Err(StampError::InvalidAmPm)
    }
}

impl AmOrPm {
    /// Parses `AM` / `PM` in any letter case.
    pub fn parse(s: &str) -> (r: Result<AmOrPm, StampError>)
        ensures
            r == spec_parse_am_pm(s@),
    {
        let u = to_uppercase(s);
        proof {
            reveal_strlit("AM");
            reveal_strlit("PM");
            assert("AM"@ =~= seq!['A', 'M']);
            assert("PM"@ =~= seq!['P', 'M']);
        }
        if same_text(u.as_str(), "AM") {
            Ok(AmOrPm::Am)
        } else if same_text(u.as_str(), "PM") {
            Ok(AmOrPm::Pm)
        } else {
            Err(StampError::InvalidAmPm)
        }
    }

    /// The text `AM` or `PM`.
    pub fn as_str(&self) -> (r: &'static str)
        ensures
            r@ == am_pm_text(*self),
    {
        proof {
            reveal_strlit("AM");
            reveal_strlit("PM");
        }
        match self {
            AmOrPm::Am => {
                assert("AM"@ =~= seq!['A', 'M']);
                "AM"
            },
            AmOrPm::Pm => {
                assert("PM"@ =~= seq!['P', 'M']);
                "PM"
            },
        }
    }
}

/// A date by its three components, as written.
pub struct DatePartsView {
    pub day: Seq<char>,
    pub month: Seq<char>,
    pub year: Seq<char>,
}

/// The three components of a `DD?MM?YYYY` date.
pub struct DateParts {
    pub day: String,
    pub month: String,
    pub year: String,
}

impl View for DateParts {
    type V = DatePartsView;

    open spec fn view(&self) -> DatePartsView {
        DatePartsView { day: self.day@, month: self.month@, year: self.year@ }
    }
}

/// The separator of a date token: the first of `-`, `/`, `.` that occurs in it.
pub open spec fn spec_date_sep(s: Seq<char>) -> Option<char> {
    if s.contains('-') {
        Some('-')
    } else if s.contains('/') {
        Some('/')
    } else if s.contains('.') {
        Some('.')
    } else {
        None
    }
}

/// A non-empty run of ASCII digits.
pub open spec fn is_digits(s: Seq<char>) -> bool {
    s.len() > 0 && forall|i: int| 0 <= i < s.len() ==> is_ascii_digit(#[trigger] s[i])
}

/// A date token split at its separator into day, month and year, each a
/// non-empty run of ASCII digits.
pub open spec fn spec_parse_date(s: Seq<char>) -> Result<DatePartsView, StampError> {
    match spec_date_sep(s) {
        None => Err(StampError::NoDateSeparator),
        Some(c) => {
            let p = split_on(s, c);
            if p.len() != 3 {
                Err(StampError::WrongComponentCount(p.len() as usize))
            } else if !is_digits(p[0]) {
                Err(StampError::NonNumericComponent(0))
            } else if !is_digits(p[1]) {
                Err(StampError::NonNumericComponent(1))
            } else if !is_digits(p[2]) {
                Err(StampError::NonNumericComponent(2))
            } else {
                Ok(DatePartsView { day: p[0], month: p[1], year: p[2] })
            }
        },
    }
}

/// `YYYY<sep>MM<sep>DD`.
pub open spec fn spec_format_date(d: DatePartsView, sep: Seq<char>) -> Seq<char> {
    d.year + sep + d.month + sep + d.day
}

fn all_digits(s: &String) -> (b: bool)
    ensures
        b == is_digits(s@),
{
    let t = s.as_str();
    let n = t.unicode_len();
    if n == 0 {
        return false;
    }
    let mut i: usize = 0;
    while i < n
        invariant
            n == t@.len(),
            t@ == s@,
            i <= n,
            forall|k: int| 0 <= k < i ==> is_ascii_digit(#[trigger] t@[k]),
        decreases n - i,
    {
        let c = t.get_char(i);
        if !(c >= '0' && c <= '9') {
            return false;
        }
        i = i + 1;
    }
    true
}

impl DateParts {
    /// Parses a `DD?MM?YYYY` token whose separator is `-`, `/` or `.`.
    pub fn parse(s: &str) -> (r: Result<DateParts, StampError>)
        ensures
            match r {
                Ok(d) => spec_parse_date(s@) == Ok::<DatePartsView, StampError>(d@),
                Err(e) => spec_parse_date(s@) == Err::<DatePartsView, StampError>(e),
            },
    {
        let sep = if contains_char(s, '-') {
            '-'
        } else if contains_char(s, '/') {
            '/'
        } else if contains_char(s, '.') {
            '.'
        } else {
            return Err(StampError::NoDateSeparator);
        };
        let mut parts = split_on_char(s, sep);
        let ghost p = views(parts@);
        assert(p.len() == parts@.len());
        if parts.len() != 3 {
            return Err(StampError::WrongComponentCount(parts.len()));
        }
        assert(p[0] == parts@[0]@);
        assert(p[1] == parts@[1]@);
        assert(p[2] == parts@[2]@);
        if !all_digits(&parts[0]) {
            return Err(StampError::NonNumericComponent(0));
        }
        if !all_digits(&parts[1]) {
            return Err(StampError::NonNumericComponent(1));
        }
        if !all_digits(&parts[2]) {
            return Err(StampError::NonNumericComponent(2));
        }
        let year = parts.pop().unwrap();
        let month = parts.pop().unwrap();
        let day = parts.pop().unwrap();
        Ok(DateParts { day, month, year })
    }

    /// `YYYY<date_sep>MM<date_sep>DD`.
    pub fn formatted(&self, date_sep: &str) -> (r: String)
        ensures
            r@ == spec_format_date(self@, date_sep@),
    {
        let mut buf = String::new();
        buf.append(self.year.as_str());
        buf.append(date_sep);
        buf.append(self.month.as_str());
        buf.append(date_sep);
        buf.append(self.day.as_str());
        buf
    }
}

/// A wall time as written, with its half of the day.
pub struct TimeView {
    pub time: Seq<char>,
    pub am_or_pm: AmOrPm,
}

/// Both military (24h) and 12h wall time, or a single legacy time.
pub struct TimeStampParts {
    /// e.g. `14:40 02:40`, or `12:40` for a single-time input.
    pub time: String,
    pub am_or_pm: AmOrPm,
}

impl View for TimeStampParts {
    type V = TimeView;

    open spec fn view(&self) -> TimeView {
        TimeView { time: self.time@, am_or_pm: self.am_or_pm }
    }
}

/// `<time with ':' replaced by time_sep><am_pm_sep><AM|PM>`.
pub open spec fn spec_format_time(t: TimeView, seps: SeparatorsView) -> Seq<char> {
    replace_char(t.time, ':', seps.time_sep) + seps.am_pm_sep + am_pm_text(t.am_or_pm)
}

impl TimeStampParts {
    /// The dual layout `HH:MM II:MM AM|PM`: the two times joined by a space.
    pub fn from_parts(military_str: &str, time_part: &str, am_pm_str: &str) -> (r: Result<
        Self,
        StampError,
    >)
        ensures
            match spec_parse_am_pm(am_pm_str@) {
                Ok(a) => r matches Ok(t) && t@ == TimeView {
                    time: military_str@ + seq![' '] + time_part@,
                    am_or_pm: a,
                },
                Err(e) => r matches Err(e2) && e2 == e,
            },
    {
        let am_or_pm = AmOrPm::parse(am_pm_str)?;
        let mut time = String::new();
        time.append(military_str);
        proof {
            reveal_strlit(" ");
            assert(" "@ =~= seq![' ']);
        }
        time.append(" ");
        time.append(time_part);
        assert(time@ =~= military_str@ + seq![' '] + time_part@);
        Ok(TimeStampParts { time, am_or_pm })
    }

    /// The legacy single layout `HH:MM AM|PM`.
    pub fn from_single(time_str: &str, am_pm_str: &str) -> (r: Result<Self, StampError>)
        ensures
            match spec_parse_am_pm(am_pm_str@) {
                Ok(a) => r matches Ok(t) && t@ == TimeView { time: time_str@, am_or_pm: a },
                Err(e) => r matches Err(e2) && e2 == e,
            },
    {
        let am_or_pm = AmOrPm::parse(am_pm_str)?;
        let mut time = String::new();
        time.append(time_str);
        Ok(TimeStampParts { time, am_or_pm })
    }

    pub fn formatted(&self, seps: &Separators<'_>) -> (r: String)
        ensures
            r@ == spec_format_time(self@, seps@),
    {
        let mut out = replace_char_with(self.time.as_str(), ':', seps.time_sep);
        out.append(seps.am_pm_sep);
        out.append(self.am_or_pm.as_str());
        out
    }
}

/// A parsed stamp: a date and an optional time.
pub struct StampView {
    pub date: DatePartsView,
    pub time: Option<TimeView>,
}

/// A parsed creation stamp.
pub struct Stamp {
    pub date: DateParts,
    pub time: Option<TimeStampParts>,
}

impl View for Stamp {
    type V = StampView;

    open spec fn view(&self) -> StampView {
        StampView {
            date: self.date@,
            time: match self.time {
                Some(t) => Some(t@),
                None => None,
            },
        }
    }
}

/// A stamp by its whitespace tokens: a date token, then either nothing, a
/// time and `AM`/`PM` (legacy single form), or a 24h time, a 12h time and
/// `AM`/`PM` (dual form). Tokens after the fourth are not read; exactly one
/// token after the date is refused.
pub open spec fn spec_parse_stamp(s: Seq<char>) -> Result<StampView, StampError> {
    let t = ws_tokens(s);
    if t.len() == 0 {
        Err(StampError::MissingDate)
    } else {
        match spec_parse_date(t[0]) {
            Err(e) => Err(e),
            Ok(d) => if t.len() == 1 {
                Ok(StampView { date: d, time: None })
            } else if t.len() == 2 {
                Err(StampError::InvalidTimePortion)
            } else if t.len() == 3 {
                match spec_parse_am_pm(t[2]) {
                    Ok(a) => Ok(StampView { date: d, time: Some(TimeView { time: t[1], am_or_pm: a }) }),
                    Err(e) => Err(e),
                }
            } else {
                match spec_parse_am_pm(t[3]) {
                    Ok(a) => Ok(
                        StampView {
                            date: d,
                            time: Some(TimeView { time: t[1] + seq![' '] + t[2], am_or_pm: a }),
                        },
                    ),
                    Err(e) => Err(e),
                }
            },
        }
    }
}

/// `YYYY_MM_DD`, then the time after `date_time_sep` when there is one.
pub open spec fn spec_format_stamp(st: StampView, seps: SeparatorsView) -> Seq<char> {
    let date = spec_format_date(st.date, seps.date_sep);
    match st.time {
        Some(t) => date + seps.date_time_sep + spec_format_time(t, seps),
        None => date,
    }
}

/// What flipping a stamp gives: the flipped text, or why it was refused.
pub open spec fn spec_flip(s: Seq<char>, seps: SeparatorsView) -> Result<Seq<char>, StampError> {
    match spec_parse_stamp(s) {
        Ok(st) => Ok(spec_format_stamp(st, seps)),
        Err(e) => Err(e),
    }
}

impl Stamp {
    /// Parses a creation stamp (see `spec_parse_stamp`).
    pub fn parse(s: &str) -> (r: Result<Stamp, StampError>)
        ensures
            match r {
                Ok(st) => spec_parse_stamp(s@) == Ok::<StampView, StampError>(st@),
                Err(e) => spec_parse_stamp(s@) == Err::<StampView, StampError>(e),
            },
    {
        let toks = whitespace_tokens(s);
        let ghost t = views(toks@);
        assert(t.len() == toks@.len());
        if toks.len() == 0 {
            return Err(StampError::MissingDate);
        }
        assert(t[0] == toks@[0]@);
        let date = DateParts::parse(toks[0].as_str())?;
        let n = toks.len();
        if n == 1 {
            return Ok(Stamp { date, time: None });
        }
        if n == 2 {
            return Err(StampError::InvalidTimePortion);
        }
        assert(t[1] == toks@[1]@);
        assert(t[2] == toks@[2]@);
        if n == 3 {
            let time = TimeStampParts::from_single(toks[1].as_str(), toks[2].as_str())?;
            return Ok(Stamp { date, time: Some(time) });
        }
        assert(t[3] == toks@[3]@);
        let time = TimeStampParts::from_parts(
            toks[1].as_str(),
            toks[2].as_str(),
            toks[3].as_str(),
        )?;
        Ok(Stamp { date, time: Some(time) })
    }

    /// The flipped layout (see `spec_format_stamp`).
    pub fn formatted(&self, seps: &Separators<'_>) -> (r: String)
        ensures
            r@ == spec_format_stamp(self@, seps@),
    {
        let mut out = self.date.formatted(seps.date_sep);
        match &self.time {
            Some(t) => {
                out.append(seps.date_time_sep);
                let tf = t.formatted(seps);
                out.append(tf.as_str());
            },
            None => {},
        }
        out
    }
}

/// Flips `DD/MM/YYYY ...` (and an optional dual 24h + 12h time) into the
/// sort-friendly `YYYY_MM_DD 24h 12hAM` form using the given separators.
pub fn flip_date_format(to_section: &str, seps: &Separators<'_>) -> (r: Result<String, StampError>)
    ensures
        match spec_flip(to_section@, seps@) {
            Ok(text) => r matches Ok(out) && out@ == text,
            Err(e) => r matches Err(e2) && e2 == e,
        },
{
    let st = Stamp::parse(to_section)?;
    Ok(st.formatted(seps))
}

impl core::str::FromStr for AmOrPm {
    type Err = StampError;

    fn from_str(s: &str) -> (r: Result<Self, StampError>)
        ensures
            r == spec_parse_am_pm(s@),
    {
        AmOrPm::parse(s)
    }
}

impl core::str::FromStr for DateParts {
    type Err = StampError;

    fn from_str(s: &str) -> (r: Result<Self, StampError>)
        ensures
            match r {
                Ok(d) => spec_parse_date(s@) == Ok::<DatePartsView, StampError>(d@),
                Err(e) => spec_parse_date(s@) == Err::<DatePartsView, StampError>(e),
            },
    {
        DateParts::parse(s)
    }
}

impl core::str::FromStr for Stamp {
    type Err = StampError;

    fn from_str(s: &str) -> (r: Result<Self, StampError>)
        ensures
            match r {
                Ok(st) => spec_parse_stamp(s@) == Ok::<StampView, StampError>(st@),
                Err(e) => spec_parse_stamp(s@) == Err::<StampView, StampError>(e),
            },
    {
        Stamp::parse(s)
    }
}

} // verus!
