//! Laws of the dual stamp layout `DD/MM/YYYY HH:MM II:MM AM|PM`: any stamp
//! of that layout whose fields are zero-padded digits parses and flips,
//! flipped stamps sort in chronological order, what `format_dual` writes is
//! such a stamp, and so is the epoch fallback.
use vstd::prelude::*;

use crate::prelude::EPOCH_STAMP;
use crate::processing::{
    decimal, digit, dual_stamp, four_digits, year_text, zero_padded, hour12, meridiem, spec_creation_stamp, spec_rename,
    two_digits, LocalDateTime,
};
use crate::separators::{default_separators, SeparatorsView};
use crate::stamp_converter::{
    am_pm_text, is_digits, spec_date_sep, spec_flip, spec_format_stamp, spec_parse_am_pm,
    spec_parse_date, spec_parse_stamp, AmOrPm, DatePartsView, StampError, StampView, TimeView,
};
use crate::text::{
    all_ascii, ascii_upper, is_ascii_digit, is_white_space, lemma_replace_char_absent,
    lemma_replace_char_concat, lemma_replace_char_single, lemma_split_on_append,
    lemma_split_on_push_sep, lemma_ws_tokens_append_word, lemma_ws_tokens_push_space,
    replace_char, split_on, ws_tokens,
};

verus! {

/// A stamp of the dual layout `DD/MM/YYYY HH:MM II:MM AM|PM`, by its fields
/// as written: day, month, year, 24h hour and minute, 12h hour and minute,
/// and the half of the day.
pub struct DigitStamp {
    pub day: Seq<char>,
    pub month: Seq<char>,
    pub year: Seq<char>,
    pub hour: Seq<char>,
    pub minute: Seq<char>,
    pub hour12: Seq<char>,
    pub minute12: Seq<char>,
    pub meridiem: AmOrPm,
}

/// `s` is exactly `width` ASCII digits.
pub open spec fn is_digit_field(s: Seq<char>, width: nat) -> bool {
    s.len() == width && forall|i: int| 0 <= i < s.len() ==> is_ascii_digit(#[trigger] s[i])
}

/// No character of `s` is whitespace.
pub open spec fn no_white_space(s: Seq<char>) -> bool {
    forall|i: int| 0 <= i < s.len() ==> !is_white_space(#[trigger] s[i])
}

impl DigitStamp {
    /// Every field is zero-padded digits: widths 2, 2, 4, 2, 2, 2, 2.
    pub open spec fn wf(self) -> bool {
        &&& is_digit_field(self.day, 2)
        &&& is_digit_field(self.month, 2)
        &&& is_digit_field(self.year, 4)
        &&& is_digit_field(self.hour, 2)
        &&& is_digit_field(self.minute, 2)
        &&& is_digit_field(self.hour12, 2)
        &&& is_digit_field(self.minute12, 2)
    }

    /// The date token `DD/MM/YYYY`.
    pub open spec fn date_word(self) -> Seq<char> {
        self.day + seq!['/'] + self.month + seq!['/'] + self.year
    }

    /// The 24h time token `HH:MM`.
    pub open spec fn clock24_word(self) -> Seq<char> {
        self.hour + seq![':'] + self.minute
    }

    /// The 12h time token `II:MM`.
    pub open spec fn clock12_word(self) -> Seq<char> {
        self.hour12 + seq![':'] + self.minute12
    }

    /// The stamp's text.
    pub open spec fn text(self) -> Seq<char> {
        self.date_word() + seq![' '] + self.clock24_word() + seq![' '] + self.clock12_word()
            + seq![' '] + am_pm_text(self.meridiem)
    }

    /// What the stamp parses to.
    pub open spec fn parsed(self) -> StampView {
        StampView {
            date: DatePartsView { day: self.day, month: self.month, year: self.year },
            time: Some(
                TimeView {
                    time: self.clock24_word() + seq![' '] + self.clock12_word(),
                    am_or_pm: self.meridiem,
                },
            ),
        }
    }

    /// The flipped form under the separators `seps`:
    /// `YYYY<d>MM<d>DD<dt>HH<t>MM II<t>MM<ap>AM|PM`.
    pub open spec fn flipped(self, seps: SeparatorsView) -> Seq<char> {
        self.year + seps.date_sep + self.month + seps.date_sep + self.day + seps.date_time_sep
            + self.hour + seps.time_sep + self.minute + seq![' '] + self.hour12 + seps.time_sep
            + self.minute12 + seps.am_pm_sep + am_pm_text(self.meridiem)
    }

    /// The stamp's year, month, day, 24h hour and minute come strictly before
    /// those of `other`, compared field by field.
    pub open spec fn earlier_than(self, other: DigitStamp) -> bool {
        ||| smaller_at_first_difference(self.year, other.year)
        ||| self.year == other.year && smaller_at_first_difference(self.month, other.month)
        ||| self.year == other.year && self.month == other.month && smaller_at_first_difference(
            self.day,
            other.day,
        )
        ||| self.year == other.year && self.month == other.month && self.day == other.day
            && smaller_at_first_difference(self.hour, other.hour)
        ||| self.year == other.year && self.month == other.month && self.day == other.day
            && self.hour == other.hour && smaller_at_first_difference(self.minute, other.minute)
    }
}

proof fn lemma_digit_char(c: char)
    requires
        is_ascii_digit(c),
    ensures
        !is_white_space(c),
        c != '/',
        c != '-',
        c != ':',
{
}

proof fn lemma_digit_field(s: Seq<char>, w: nat)
    requires
        is_digit_field(s, w),
    ensures
        no_white_space(s),
        !s.contains('/'),
        !s.contains('-'),
        !s.contains(':'),
{
    assert forall|i: int| 0 <= i < s.len() implies !is_white_space(#[trigger] s[i]) by {
        lemma_digit_char(s[i]);
    }
    assert forall|c: char| c == '/' || c == '-' || c == ':' implies !s.contains(c) by {
        if s.contains(c) {
            let k = choose|k: int| 0 <= k < s.len() && s[k] == c;
            lemma_digit_char(s[k]);
        }
    }
}

proof fn lemma_no_white_space_concat(a: Seq<char>, b: Seq<char>)
    requires
        no_white_space(a),
        no_white_space(b),
    ensures
        no_white_space(a + b),
{
    assert forall|i: int| 0 <= i < (a + b).len() implies !is_white_space(#[trigger] (a + b)[i]) by {
        if i < a.len() {
            assert((a + b)[i] == a[i]);
        } else {
            assert((a + b)[i] == b[i - a.len()]);
        }
    }
}

proof fn lemma_lacks_concat(a: Seq<char>, b: Seq<char>, c: char)
    requires
        !a.contains(c),
        !b.contains(c),
    ensures
        !(a + b).contains(c),
{
    if (a + b).contains(c) {
        let k = choose|k: int| 0 <= k < (a + b).len() && (a + b)[k] == c;
        if k < a.len() {
            assert(a[k] == (a + b)[k]);
        } else {
            assert(b[k - a.len()] == (a + b)[k]);
        }
    }
}

proof fn lemma_single_lacks(x: char, c: char)
    requires
        x != c,
    ensures
        !seq![x].contains(c),
{
    if seq![x].contains(c) {
        let k = choose|k: int| 0 <= k < 1 && seq![x][k] == c;
    }
}

/// The four words of a well-formed stamp hold no whitespace.
proof fn lemma_words_no_white_space(d: DigitStamp)
    requires
        d.wf(),
    ensures
        no_white_space(d.date_word()),
        no_white_space(d.clock24_word()),
        no_white_space(d.clock12_word()),
        no_white_space(am_pm_text(d.meridiem)),
{
    lemma_digit_field(d.day, 2);
    lemma_digit_field(d.month, 2);
    lemma_digit_field(d.year, 4);
    lemma_digit_field(d.hour, 2);
    lemma_digit_field(d.minute, 2);
    lemma_digit_field(d.hour12, 2);
    lemma_digit_field(d.minute12, 2);
    let sl = seq!['/'];
    let co = seq![':'];
    assert(no_white_space(sl));
    assert(no_white_space(co));
    lemma_no_white_space_concat(d.day, sl);
    lemma_no_white_space_concat(d.day + sl, d.month);
    lemma_no_white_space_concat(d.day + sl + d.month, sl);
    lemma_no_white_space_concat(d.day + sl + d.month + sl, d.year);
    lemma_no_white_space_concat(d.hour, co);
    lemma_no_white_space_concat(d.hour + co, d.minute);
    lemma_no_white_space_concat(d.hour12, co);
    lemma_no_white_space_concat(d.hour12 + co, d.minute12);
    assert(no_white_space(am_pm_text(d.meridiem)));
}

/// Four non-empty words without whitespace, joined by single spaces, are
/// the tokens of the text.
proof fn lemma_four_words_tokens(w1: Seq<char>, w2: Seq<char>, w3: Seq<char>, w4: Seq<char>)
    requires
        w1.len() > 0 && w2.len() > 0 && w3.len() > 0 && w4.len() > 0,
        no_white_space(w1),
        no_white_space(w2),
        no_white_space(w3),
        no_white_space(w4),
    ensures
        ws_tokens(w1 + seq![' '] + w2 + seq![' '] + w3 + seq![' '] + w4) == seq![w1, w2, w3, w4],
{
    let sp = seq![' '];
    assert(is_white_space(' '));
    lemma_ws_tokens_append_word(Seq::<char>::empty(), w1);
    assert(Seq::<char>::empty() + w1 =~= w1);
    assert(ws_tokens(Seq::<char>::empty()) =~= Seq::<Seq<char>>::empty());
    lemma_ws_tokens_push_space(w1, ' ');
    assert(w1.push(' ') =~= w1 + sp);
    lemma_ws_tokens_append_word(w1 + sp, w2);
    lemma_ws_tokens_push_space(w1 + sp + w2, ' ');
    assert((w1 + sp + w2).push(' ') =~= w1 + sp + w2 + sp);
    lemma_ws_tokens_append_word(w1 + sp + w2 + sp, w3);
    lemma_ws_tokens_push_space(w1 + sp + w2 + sp + w3, ' ');
    assert((w1 + sp + w2 + sp + w3).push(' ') =~= w1 + sp + w2 + sp + w3 + sp);
    lemma_ws_tokens_append_word(w1 + sp + w2 + sp + w3 + sp, w4);
    assert(ws_tokens(w1 + sp + w2 + sp + w3 + sp + w4) =~= seq![w1, w2, w3, w4]);
}

/// The tokens of a well-formed stamp are its date, its two times and
/// `AM`/`PM`.
proof fn lemma_digit_stamp_tokens(d: DigitStamp)
    requires
        d.wf(),
    ensures
        ws_tokens(d.text()) == seq![
            d.date_word(),
            d.clock24_word(),
            d.clock12_word(),
            am_pm_text(d.meridiem),
        ],
{
    lemma_words_no_white_space(d);
    lemma_four_words_tokens(d.date_word(), d.clock24_word(), d.clock12_word(), am_pm_text(d.meridiem));
    assert(d.text() =~= d.date_word() + seq![' '] + d.clock24_word() + seq![' '] + d.clock12_word()
        + seq![' '] + am_pm_text(d.meridiem));
}

/// The date token of a well-formed stamp parses to its day, month and year.
proof fn lemma_digit_date_word_parses(d: DigitStamp)
    requires
        d.wf(),
    ensures
        spec_parse_date(d.date_word()) == Ok::<DatePartsView, StampError>(d.parsed().date),
{
    lemma_digit_field(d.day, 2);
    lemma_digit_field(d.month, 2);
    lemma_digit_field(d.year, 4);
    let dd = d.day;
    let m = d.month;
    let y = d.year;
    let sl = seq!['/'];
    let w = d.date_word();
    lemma_single_lacks('/', '-');
    lemma_lacks_concat(dd, sl, '-');
    lemma_lacks_concat(dd + sl, m, '-');
    lemma_lacks_concat(dd + sl + m, sl, '-');
    lemma_lacks_concat(dd + sl + m + sl, y, '-');
    assert(w[2] == '/');
    assert(w.contains('/'));
    assert(spec_date_sep(w) == Some('/'));
    let e = Seq::<char>::empty();
    assert(split_on(e, '/') =~= seq![e]);
    lemma_split_on_append(e, dd, '/');
    assert(e + dd =~= dd);
    assert(split_on(dd, '/') =~= seq![dd]);
    lemma_split_on_push_sep(dd, '/');
    assert(dd.push('/') =~= dd + sl);
    lemma_split_on_append(dd + sl, m, '/');
    assert(split_on(dd + sl + m, '/') =~= seq![dd, m]);
    lemma_split_on_push_sep(dd + sl + m, '/');
    assert((dd + sl + m).push('/') =~= dd + sl + m + sl);
    lemma_split_on_append(dd + sl + m + sl, y, '/');
    assert(split_on(w, '/') =~= seq![dd, m, y]);
    assert(is_digits(dd));
    assert(is_digits(m));
    assert(is_digits(y));
}

/// `AM` and `PM` parse to themselves.
proof fn lemma_am_pm_text_parses(a: AmOrPm)
    ensures
        spec_parse_am_pm(am_pm_text(a)) == Ok::<AmOrPm, StampError>(a),
{
    let w = am_pm_text(a);
    assert(all_ascii(w));
    assert(w.map_values(|c: char| ascii_upper(c)) =~= w);
}

/// A stamp of the dual layout whose fields are zero-padded digits parses
/// back to its date, its two times and `AM`/`PM`.
pub proof fn lemma_digit_stamp_parses(d: DigitStamp)
    requires
        d.wf(),
    ensures
        spec_parse_stamp(d.text()) == Ok::<StampView, StampError>(d.parsed()),
{
    lemma_digit_stamp_tokens(d);
    lemma_digit_date_word_parses(d);
    lemma_am_pm_text_parses(d.meridiem);
}

/// A stamp of the dual layout whose fields are zero-padded digits always
/// flips, into `YYYY<d>MM<d>DD<dt>HH<t>MM II<t>MM<ap>AM|PM` for the
/// separators `<d>`, `<dt>`, `<t>`, `<ap>`.
pub proof fn lemma_digit_stamp_flips(d: DigitStamp, seps: SeparatorsView)
    requires
        d.wf(),
    ensures
        spec_flip(d.text(), seps) == Ok::<Seq<char>, StampError>(d.flipped(seps)),
{
    lemma_digit_stamp_parses(d);
    lemma_digit_field(d.hour, 2);
    lemma_digit_field(d.minute, 2);
    lemma_digit_field(d.hour12, 2);
    lemma_digit_field(d.minute12, 2);
    let h = d.hour;
    let mi = d.minute;
    let i = d.hour12;
    let j = d.minute12;
    let ts = seps.time_sep;
    lemma_replace_char_absent(h, ':', ts);
    lemma_replace_char_absent(mi, ':', ts);
    lemma_replace_char_absent(i, ':', ts);
    lemma_replace_char_absent(j, ':', ts);
    lemma_replace_char_single(':', ts);
    lemma_single_lacks(' ', ':');
    lemma_replace_char_absent(seq![' '], ':', ts);
    lemma_replace_char_concat(h, seq![':'], ':', ts);
    lemma_replace_char_concat(h + seq![':'], mi, ':', ts);
    lemma_replace_char_concat(h + seq![':'] + mi, seq![' '], ':', ts);
    lemma_replace_char_concat(h + seq![':'] + mi + seq![' '], i, ':', ts);
    lemma_replace_char_concat(h + seq![':'] + mi + seq![' '] + i, seq![':'], ':', ts);
    lemma_replace_char_concat(h + seq![':'] + mi + seq![' '] + i + seq![':'], j, ':', ts);
    assert(d.clock24_word() + seq![' '] + d.clock12_word() =~= h + seq![':'] + mi + seq![' ']
        + i + seq![':'] + j);
    assert(replace_char(d.clock24_word() + seq![' '] + d.clock12_word(), ':', ts) =~= h + ts
        + mi + seq![' '] + i + ts + j);
    assert(spec_format_stamp(d.parsed(), seps) =~= d.flipped(seps));
}

/// `a` sorts strictly before `b`, character by character, as text is sorted.
pub open spec fn lex_less(a: Seq<char>, b: Seq<char>) -> bool {
    exists|k: int|
        0 <= k <= a.len() && k <= b.len() && #[trigger] a.take(k) == b.take(k) && ((k < a.len()
            && k < b.len() && (a[k] as u32) < (b[k] as u32)) || (k == a.len() && k < b.len()))
}

/// `a` and `b` have the same length and `a` is smaller at their first
/// difference.
pub open spec fn smaller_at_first_difference(a: Seq<char>, b: Seq<char>) -> bool {
    a.len() == b.len() && exists|k: int|
        0 <= k < a.len() && #[trigger] a.take(k) == b.take(k) && (a[k] as u32) < (b[k] as u32)
}

/// `a` is strictly earlier than `b`, to the minute.
pub open spec fn earlier(a: LocalDateTime, b: LocalDateTime) -> bool {
    ||| a.year < b.year
    ||| a.year == b.year && a.month < b.month
    ||| a.year == b.year && a.month == b.month && a.day < b.day
    ||| a.year == b.year && a.month == b.month && a.day == b.day && a.hour < b.hour
    ||| a.year == b.year && a.month == b.month && a.day == b.day && a.hour == b.hour && a.minute
        < b.minute
}

proof fn lemma_digit_value(n: int)
    requires
        0 <= n <= 9,
    ensures
        digit(n) as u32 == 48 + n,
{
}

proof fn lemma_two_digits_ordered(u: int, v: int)
    requires
        0 <= u < v < 100,
    ensures
        smaller_at_first_difference(two_digits(u), two_digits(v)),
{
    let a = two_digits(u);
    let b = two_digits(v);
    lemma_digit_value(u / 10);
    lemma_digit_value(v / 10);
    lemma_digit_value(u % 10);
    lemma_digit_value(v % 10);
    if u / 10 < v / 10 {
        assert(a.take(0) =~= b.take(0));
    } else {
        assert(u / 10 == v / 10);
        assert(u % 10 < v % 10);
        assert(a.take(1) =~= b.take(1));
    }
}

proof fn lemma_four_digit_decomposition(u: int)
    requires
        0 <= u <= 9999,
    ensures
        u == 1000 * (u / 1000) + 100 * ((u / 100) % 10) + 10 * ((u / 10) % 10) + u % 10,
        0 <= u / 1000 <= 9,
        0 <= (u / 100) % 10 <= 9,
        0 <= (u / 10) % 10 <= 9,
        0 <= u % 10 <= 9,
{
    assert(u == 10 * (u / 10) + u % 10);
    assert(u / 10 == 10 * (u / 100) + (u / 10) % 10) by {
        assert(u / 100 == (u / 10) / 10);
    }
    assert(u / 100 == 10 * (u / 1000) + (u / 100) % 10) by {
        assert(u / 1000 == (u / 100) / 10);
    }
}

proof fn lemma_four_digits_ordered(u: int, v: int)
    requires
        0 <= u < v <= 9999,
    ensures
        smaller_at_first_difference(four_digits(u), four_digits(v)),
{
    let a = four_digits(u);
    let b = four_digits(v);
    lemma_four_digit_decomposition(u);
    lemma_four_digit_decomposition(v);
    let (u3, u2, u1, u0) = (u / 1000, (u / 100) % 10, (u / 10) % 10, u % 10);
    let (v3, v2, v1, v0) = (v / 1000, (v / 100) % 10, (v / 10) % 10, v % 10);
    lemma_digit_value(u3);
    lemma_digit_value(v3);
    lemma_digit_value(u2);
    lemma_digit_value(v2);
    lemma_digit_value(u1);
    lemma_digit_value(v1);
    lemma_digit_value(u0);
    lemma_digit_value(v0);
    assert(a =~= seq![digit(u3), digit(u2), digit(u1), digit(u0)]);
    assert(b =~= seq![digit(v3), digit(v2), digit(v1), digit(v0)]);
    if u3 != v3 {
        assert(u3 < v3);
        assert(a.take(0) =~= b.take(0));
    } else if u2 != v2 {
        assert(u2 < v2);
        assert(a.take(1) =~= b.take(1));
    } else if u1 != v1 {
        assert(u1 < v1);
        assert(a.take(2) =~= b.take(2));
    } else {
        assert(u0 < v0);
        assert(a.take(3) =~= b.take(3));
    }
}

proof fn lemma_lex_less_at_block(p: Seq<char>, q: Seq<char>, x: Seq<char>, y: Seq<char>)
    requires
        smaller_at_first_difference(p, q),
    ensures
        lex_less(p + x, q + y),
{
    let k = choose|k: int|
        0 <= k < p.len() && #[trigger] p.take(k) == q.take(k) && (p[k] as u32) < (q[k] as u32);
    assert((p + x).take(k) =~= p.take(k));
    assert((q + y).take(k) =~= q.take(k));
    assert((p + x)[k] == p[k]);
    assert((q + y)[k] == q[k]);
}

proof fn lemma_lex_less_common_prefix(p: Seq<char>, x: Seq<char>, y: Seq<char>)
    requires
        lex_less(x, y),
    ensures
        lex_less(p + x, p + y),
{
    let k = choose|k: int|
        0 <= k <= x.len() && k <= y.len() && #[trigger] x.take(k) == y.take(k) && ((k < x.len()
            && k < y.len() && (x[k] as u32) < (y[k] as u32)) || (k == x.len() && k < y.len()));
    let j = p.len() + k;
    assert((p + x).take(j) =~= p + x.take(k));
    assert((p + y).take(j) =~= p + y.take(k));
    if k < x.len() && k < y.len() {
        assert((p + x)[j] == x[k]);
        assert((p + y)[j] == y[k]);
    } else {
        assert((p + y)[j] == y[k]);
    }
}

/// What follows the year in a flipped stamp, then `x`.
spec fn after_year(d: DigitStamp, seps: SeparatorsView, x: Seq<char>) -> Seq<char> {
    seps.date_sep + (d.month + after_month(d, seps, x))
}

/// What follows the month, then `x`.
spec fn after_month(d: DigitStamp, seps: SeparatorsView, x: Seq<char>) -> Seq<char> {
    seps.date_sep + (d.day + after_day(d, seps, x))
}

/// What follows the day, then `x`.
spec fn after_day(d: DigitStamp, seps: SeparatorsView, x: Seq<char>) -> Seq<char> {
    seps.date_time_sep + (d.hour + after_hour(d, seps, x))
}

/// What follows the 24h hour, then `x`.
spec fn after_hour(d: DigitStamp, seps: SeparatorsView, x: Seq<char>) -> Seq<char> {
    seps.time_sep + (d.minute + after_minute(d, seps, x))
}

/// What follows the minute, then `x`.
spec fn after_minute(d: DigitStamp, seps: SeparatorsView, x: Seq<char>) -> Seq<char> {
    seq![' '] + d.hour12 + seps.time_sep + d.minute12 + seps.am_pm_sep + am_pm_text(d.meridiem)
        + x
}

proof fn lemma_flipped_layout(d: DigitStamp, seps: SeparatorsView, x: Seq<char>)
    ensures
        d.flipped(seps) + x == d.year + after_year(d, seps, x),
{
    assert(d.flipped(seps) + x =~= d.year + after_year(d, seps, x));
}

/// Two texts that agree on `p` and then differ first in a field of equal
/// width sort by that field.
proof fn lemma_sorts_by_field(
    p: Seq<char>,
    fa: Seq<char>,
    fb: Seq<char>,
    ra: Seq<char>,
    rb: Seq<char>,
)
    requires
        smaller_at_first_difference(fa, fb),
    ensures
        lex_less(p + (fa + ra), p + (fb + rb)),
{
    lemma_lex_less_at_block(fa, fb, ra, rb);
    lemma_lex_less_common_prefix(p, fa + ra, fb + rb);
}

/// Flipped stamps sort chronologically: of two stamps of the dual layout
/// whose fields are zero-padded digits, the one whose year, month, day, 24h
/// hour and minute come first flips, under any separators shared by both,
/// into text that sorts before the other's, whatever follows each (such as
/// the file names).
pub proof fn lemma_flipped_stamps_sort(
    a: DigitStamp,
    b: DigitStamp,
    seps: SeparatorsView,
    x: Seq<char>,
    y: Seq<char>,
)
    requires
        a.wf(),
        b.wf(),
        a.earlier_than(b),
    ensures
        spec_flip(a.text(), seps) == Ok::<Seq<char>, StampError>(a.flipped(seps)),
        spec_flip(b.text(), seps) == Ok::<Seq<char>, StampError>(b.flipped(seps)),
        lex_less(a.flipped(seps) + x, b.flipped(seps) + y),
{
    lemma_digit_stamp_flips(a, seps);
    lemma_digit_stamp_flips(b, seps);
    lemma_flipped_layout(a, seps, x);
    lemma_flipped_layout(b, seps, y);
    let e = Seq::<char>::empty();
    if smaller_at_first_difference(a.year, b.year) {
        lemma_sorts_by_field(e, a.year, b.year, after_year(a, seps, x), after_year(b, seps, y));
        assert(e + (a.year + after_year(a, seps, x)) =~= a.year + after_year(a, seps, x));
        assert(e + (b.year + after_year(b, seps, y)) =~= b.year + after_year(b, seps, y));
    } else {
        let p = a.year + seps.date_sep;
        assert(a.year + after_year(a, seps, x) =~= p + (a.month + after_month(a, seps, x)));
        assert(b.year + after_year(b, seps, y) =~= p + (b.month + after_month(b, seps, y)));
        if smaller_at_first_difference(a.month, b.month) {
            lemma_sorts_by_field(p, a.month, b.month, after_month(a, seps, x), after_month(b, seps, y));
        } else {
            let q = p + a.month;
            lemma_sorts_after_month(a, b, seps, x, y, q);
            assert(p + (a.month + after_month(a, seps, x)) =~= q + after_month(a, seps, x));
            assert(p + (b.month + after_month(b, seps, y)) =~= q + after_month(b, seps, y));
        }
    }
}

proof fn lemma_sorts_after_month(
    a: DigitStamp,
    b: DigitStamp,
    seps: SeparatorsView,
    x: Seq<char>,
    y: Seq<char>,
    q: Seq<char>,
)
    requires
        smaller_at_first_difference(a.day, b.day) || (a.day == b.day && (
        smaller_at_first_difference(a.hour, b.hour) || (a.hour == b.hour
            && smaller_at_first_difference(a.minute, b.minute)))),
    ensures
        lex_less(q + after_month(a, seps, x), q + after_month(b, seps, y)),
{
    let p = q + seps.date_sep;
    assert(q + after_month(a, seps, x) =~= p + (a.day + after_day(a, seps, x)));
    assert(q + after_month(b, seps, y) =~= p + (b.day + after_day(b, seps, y)));
    if smaller_at_first_difference(a.day, b.day) {
        lemma_sorts_by_field(p, a.day, b.day, after_day(a, seps, x), after_day(b, seps, y));
    } else {
        let q2 = p + a.day;
        lemma_sorts_after_day(a, b, seps, x, y, q2);
        assert(p + (a.day + after_day(a, seps, x)) =~= q2 + after_day(a, seps, x));
        assert(p + (b.day + after_day(b, seps, y)) =~= q2 + after_day(b, seps, y));
    }
}

proof fn lemma_sorts_after_day(
    a: DigitStamp,
    b: DigitStamp,
    seps: SeparatorsView,
    x: Seq<char>,
    y: Seq<char>,
    q: Seq<char>,
)
    requires
        smaller_at_first_difference(a.hour, b.hour) || (a.hour == b.hour
            && smaller_at_first_difference(a.minute, b.minute)),
    ensures
        lex_less(q + after_day(a, seps, x), q + after_day(b, seps, y)),
{
    let p = q + seps.date_time_sep;
    assert(q + after_day(a, seps, x) =~= p + (a.hour + after_hour(a, seps, x)));
    assert(q + after_day(b, seps, y) =~= p + (b.hour + after_hour(b, seps, y)));
    if smaller_at_first_difference(a.hour, b.hour) {
        lemma_sorts_by_field(p, a.hour, b.hour, after_hour(a, seps, x), after_hour(b, seps, y));
    } else {
        let q2 = p + a.hour + seps.time_sep;
        assert(p + (a.hour + after_hour(a, seps, x)) =~= q2 + (a.minute + after_minute(a, seps, x)));
        assert(p + (b.hour + after_hour(b, seps, y)) =~= q2 + (b.minute + after_minute(b, seps, y)));
        lemma_sorts_by_field(q2, a.minute, b.minute, after_minute(a, seps, x), after_minute(b, seps, y));
    }
}

/// Every digit is an ASCII digit, and none is whitespace or a separator.
pub proof fn lemma_digit(n: int)
    ensures
        is_ascii_digit(digit(n)),
        !is_white_space(digit(n)),
        digit(n) != '/',
        digit(n) != '-',
        digit(n) != '.',
        digit(n) != ':',
{
}

/// The fields of the dual stamp that `format_dual` writes for `t`.
pub open spec fn digit_stamp_of(t: LocalDateTime) -> DigitStamp {
    DigitStamp {
        day: two_digits(t.day as int),
        month: two_digits(t.month as int),
        year: four_digits(t.year as int),
        hour: two_digits(t.hour as int),
        minute: two_digits(t.minute as int),
        hour12: two_digits(hour12(t.hour as int)),
        minute12: two_digits(t.minute as int),
        meridiem: if t.hour < 12 {
            AmOrPm::Am
        } else {
            AmOrPm::Pm
        },
    }
}

/// What a dual stamp parses to.
pub open spec fn dual_stamp_view(t: LocalDateTime) -> StampView {
    digit_stamp_of(t).parsed()
}

/// The flipped form of a dual stamp under any separators.
pub open spec fn flipped_dual(t: LocalDateTime, seps: SeparatorsView) -> Seq<char> {
    digit_stamp_of(t).flipped(seps)
}

proof fn lemma_two_digits_field(n: int)
    ensures
        is_digit_field(two_digits(n), 2),
{
    lemma_digit(n / 10);
    lemma_digit(n % 10);
}

/// The dual stamp of a date and time whose year has four digits is a stamp
/// of the dual layout whose fields are zero-padded digits.
pub proof fn lemma_dual_stamp_is_digit_stamp(t: LocalDateTime)
    requires
        t.has_four_digit_year(),
    ensures
        digit_stamp_of(t).wf(),
        digit_stamp_of(t).text() == dual_stamp(t),
{
    let d = digit_stamp_of(t);
    lemma_two_digits_field(t.day as int);
    lemma_two_digits_field(t.month as int);
    lemma_two_digits_field(t.hour as int);
    lemma_two_digits_field(t.minute as int);
    lemma_two_digits_field(hour12(t.hour as int));
    lemma_digit(t.year as int / 1000);
    lemma_digit((t.year as int / 100) % 10);
    lemma_digit((t.year as int / 10) % 10);
    lemma_digit(t.year as int % 10);
    assert(is_digit_field(d.year, 4));
    assert(am_pm_text(d.meridiem) == meridiem(t.hour as int));
    assert(d.text() =~= dual_stamp(t));
}

/// A dual stamp of a four-digit year parses back to its date, its two times
/// and `AM`/`PM`.
pub proof fn lemma_dual_stamp_parses(t: LocalDateTime)
    requires
        t.has_four_digit_year(),
    ensures
        spec_parse_stamp(dual_stamp(t)) == Ok::<StampView, StampError>(dual_stamp_view(t)),
{
    lemma_dual_stamp_is_digit_stamp(t);
    lemma_digit_stamp_parses(digit_stamp_of(t));
}

/// A dual stamp of a four-digit year always flips: into `YYYY<d>MM<d>DD<dt>HH<t>MM II<t>MM<ap>AM|PM`
/// for the separators `<d>`, `<dt>`, `<t>`, `<ap>`.
pub proof fn lemma_dual_stamp_flips(t: LocalDateTime, seps: SeparatorsView)
    requires
        t.has_four_digit_year(),
    ensures
        spec_flip(dual_stamp(t), seps) == Ok::<Seq<char>, StampError>(flipped_dual(t, seps)),
{
    lemma_dual_stamp_is_digit_stamp(t);
    lemma_digit_stamp_flips(digit_stamp_of(t), seps);
}

/// With the default separators a dual stamp of a four-digit year flips into
/// `YYYY_MM_DD HH.MM II.MMAM|PM`.
pub proof fn lemma_dual_stamp_flips_default(t: LocalDateTime)
    requires
        t.has_four_digit_year(),
    ensures
        spec_flip(dual_stamp(t), default_separators()) == Ok::<Seq<char>, StampError>(
            flipped_default(t),
        ),
{
    lemma_dual_stamp_flips(t, default_separators());
    assert(am_pm_text(digit_stamp_of(t).meridiem) == meridiem(t.hour as int));
    assert(flipped_dual(t, default_separators()) =~= flipped_default(t));
}

/// The flipped form of a dual stamp under the default separators:
/// `YYYY_MM_DD HH.MM II.MMAM|PM`.
pub open spec fn flipped_default(t: LocalDateTime) -> Seq<char> {
    four_digits(t.year as int) + seq!['_'] + two_digits(t.month as int) + seq!['_'] + two_digits(
        t.day as int,
    ) + seq![' '] + two_digits(t.hour as int) + seq!['.'] + two_digits(t.minute as int)
        + clock12_tail(t)
}

/// The 12h part of a flipped stamp: ` II.MMAM|PM`.
pub open spec fn clock12_tail(t: LocalDateTime) -> Seq<char> {
    seq![' '] + two_digits(hour12(t.hour as int)) + seq!['.'] + two_digits(t.minute as int)
        + meridiem(t.hour as int)
}

/// The date and time that the epoch stamp stands for: 1970-01-01 00:00.
pub open spec fn epoch_date_time() -> LocalDateTime {
    LocalDateTime { year: 1970, month: 1, day: 1, hour: 0, minute: 0 }
}

/// The epoch fallback stamp is the dual stamp of 1970-01-01 00:00, so it
/// stays parseable: it flips like any dual stamp.
pub proof fn lemma_epoch_stamp_parses(seps: SeparatorsView)
    ensures
        EPOCH_STAMP@ == dual_stamp(epoch_date_time()),
        spec_parse_stamp(EPOCH_STAMP@) == Ok::<StampView, StampError>(
            dual_stamp_view(epoch_date_time()),
        ),
        spec_flip(EPOCH_STAMP@, seps) == Ok::<Seq<char>, StampError>(
            flipped_dual(epoch_date_time(), seps),
        ),
{
    reveal_strlit("01/01/1970 00:00 12:00 AM");
    assert(EPOCH_STAMP@ =~= dual_stamp(epoch_date_time()));
    lemma_dual_stamp_parses(epoch_date_time());
    lemma_dual_stamp_flips(epoch_date_time(), seps);
}

/// The stamp resolved for a file always flips, whichever source it came
/// from, when the dates found have four-digit years; so the rename decision
/// for any file name under it never fails.
pub proof fn lemma_creation_stamp_flips(
    media: Option<LocalDateTime>,
    fs: Option<LocalDateTime>,
    seps: SeparatorsView,
    old_name: Seq<char>,
)
    requires
        media matches Some(t) ==> t.has_four_digit_year(),
        fs matches Some(t) ==> t.has_four_digit_year(),
    ensures
        spec_flip(spec_creation_stamp(media, fs), seps) is Ok,
        spec_rename(old_name, spec_creation_stamp(media, fs), seps) is Ok,
{
    match media {
        Some(t) => lemma_dual_stamp_flips(t, seps),
        None => match fs {
            Some(t) => lemma_dual_stamp_flips(t, seps),
            None => lemma_epoch_stamp_parses(seps),
        },
    }
}

/// Dual stamps written for an earlier date and time (to the minute) flip,
/// under any separators shared by both, into text that sorts before the
/// flipped stamp of a later one, whatever follows each.
pub proof fn lemma_flipped_sorts_chronologically(
    a: LocalDateTime,
    b: LocalDateTime,
    seps: SeparatorsView,
    x: Seq<char>,
    y: Seq<char>,
)
    requires
        a.has_four_digit_year(),
        b.has_four_digit_year(),
        a.month < 100 && a.day < 100 && a.hour < 100 && a.minute < 100,
        b.month < 100 && b.day < 100 && b.hour < 100 && b.minute < 100,
        earlier(a, b),
    ensures
        spec_flip(dual_stamp(a), seps) == Ok::<Seq<char>, StampError>(flipped_dual(a, seps)),
        spec_flip(dual_stamp(b), seps) == Ok::<Seq<char>, StampError>(flipped_dual(b, seps)),
        lex_less(flipped_dual(a, seps) + x, flipped_dual(b, seps) + y),
{
    lemma_dual_stamp_is_digit_stamp(a);
    lemma_dual_stamp_is_digit_stamp(b);
    let da = digit_stamp_of(a);
    let db = digit_stamp_of(b);
    if a.year < b.year {
        lemma_four_digits_ordered(a.year as int, b.year as int);
    } else if a.month < b.month {
        lemma_two_digits_ordered(a.month as int, b.month as int);
    } else if a.day < b.day {
        lemma_two_digits_ordered(a.day as int, b.day as int);
    } else if a.hour < b.hour {
        lemma_two_digits_ordered(a.hour as int, b.hour as int);
    } else {
        lemma_two_digits_ordered(a.minute as int, b.minute as int);
    }
    assert(da.earlier_than(db));
    lemma_flipped_stamps_sort(da, db, seps, x, y);
}

proof fn lemma_decimal_digits(n: nat)
    ensures
        decimal(n).len() > 0,
        is_digit_field(decimal(n), decimal(n).len()),
    decreases n,
{
    lemma_digit(n as int);
    if n >= 10 {
        lemma_decimal_digits(n / 10);
        lemma_digit((n % 10) as int);
        let p = decimal(n / 10);
        assert forall|i: int| 0 <= i < decimal(n).len() implies is_ascii_digit(#[trigger] decimal(n)[i]) by {
            if i < p.len() {
                assert(decimal(n)[i] == p[i]);
            }
        }
    }
}

proof fn lemma_zero_padded_digits(n: nat, w: nat)
    ensures
        zero_padded(n, w).len() > 0,
        is_digit_field(zero_padded(n, w), zero_padded(n, w).len()),
{
    lemma_decimal_digits(n);
    let d = decimal(n);
    if d.len() < w {
        let z = Seq::new((w - d.len()) as nat, |i: int| '0');
        assert forall|i: int| 0 <= i < zero_padded(n, w).len() implies is_ascii_digit(
            #[trigger] zero_padded(n, w)[i],
        ) by {
            if i < z.len() {
                assert(zero_padded(n, w)[i] == '0');
            } else {
                assert(zero_padded(n, w)[i] == d[i - z.len()]);
            }
        }
    }
}

/// A dual stamp whose year has no four-digit form is refused: a negative
/// year puts a `-` into the date, which is then split at `-` into two
/// components; a year above 9999 starts with `+`, which is no digit.
pub proof fn lemma_dual_stamp_refused_outside_four_digit_years(
    t: LocalDateTime,
    seps: SeparatorsView,
)
    requires
        !t.has_four_digit_year(),
    ensures
        spec_flip(dual_stamp(t), seps) == Err::<Seq<char>, StampError>(
            if t.year < 0 {
                StampError::WrongComponentCount(2)
            } else {
                StampError::NonNumericComponent(2)
            },
        ),
{
    let y = t.year as int;
    let z = if y < 0 {
        zero_padded((-y) as nat, 4)
    } else {
        zero_padded(y as nat, 4)
    };
    let sign = if y < 0 {
        '-'
    } else {
        '+'
    };
    lemma_zero_padded_digits(if y < 0 { (-y) as nat } else { y as nat }, 4);
    lemma_digit_field(z, z.len());
    let dd = two_digits(t.day as int);
    let mm = two_digits(t.month as int);
    lemma_two_digits_field(t.day as int);
    lemma_two_digits_field(t.month as int);
    lemma_two_digits_field(t.hour as int);
    lemma_two_digits_field(t.minute as int);
    lemma_two_digits_field(hour12(t.hour as int));
    lemma_digit_field(dd, 2);
    lemma_digit_field(mm, 2);
    let sl = seq!['/'];
    let yt = seq![sign] + z;
    assert(year_text(y) == yt);
    let w1 = dd + sl + mm + sl + yt;
    let c = DigitStamp {
        day: dd,
        month: mm,
        year: seq!['0', '0', '0', '0'],
        hour: two_digits(t.hour as int),
        minute: two_digits(t.minute as int),
        hour12: two_digits(hour12(t.hour as int)),
        minute12: two_digits(t.minute as int),
        meridiem: if t.hour < 12 {
            AmOrPm::Am
        } else {
            AmOrPm::Pm
        },
    };
    assert(is_digit_field(c.year, 4));
    lemma_words_no_white_space(c);
    assert(no_white_space(seq![sign]));
    lemma_no_white_space_concat(seq![sign], z);
    lemma_no_white_space_concat(dd, sl);
    lemma_no_white_space_concat(dd + sl, mm);
    lemma_no_white_space_concat(dd + sl + mm, sl);
    lemma_no_white_space_concat(dd + sl + mm + sl, yt);
    lemma_four_words_tokens(w1, c.clock24_word(), c.clock12_word(), am_pm_text(c.meridiem));
    assert(am_pm_text(c.meridiem) == meridiem(t.hour as int));
    assert(dual_stamp(t) =~= w1 + seq![' '] + c.clock24_word() + seq![' '] + c.clock12_word()
        + seq![' '] + am_pm_text(c.meridiem));
    let e = Seq::<char>::empty();
    if y < 0 {
        let head = dd + sl + mm + sl;
        assert(w1 =~= head + seq!['-'] + z);
        assert(w1[head.len() as int] == '-');
        assert(w1.contains('-'));
        assert(spec_date_sep(w1) == Some('-'));
        lemma_single_lacks('/', '-');
        lemma_lacks_concat(dd, sl, '-');
        lemma_lacks_concat(dd + sl, mm, '-');
        lemma_lacks_concat(dd + sl + mm, sl, '-');
        assert(split_on(e, '-') =~= seq![e]);
        lemma_split_on_append(e, head, '-');
        assert(e + head =~= head);
        lemma_split_on_push_sep(head, '-');
        assert(head.push('-') =~= head + seq!['-']);
        lemma_split_on_append(head + seq!['-'], z, '-');
        assert(split_on(w1, '-').len() == 2);
    } else {
        lemma_single_lacks('/', '-');
        lemma_single_lacks('+', '-');
        lemma_lacks_concat(seq!['+'], z, '-');
        lemma_lacks_concat(dd, sl, '-');
        lemma_lacks_concat(dd + sl, mm, '-');
        lemma_lacks_concat(dd + sl + mm, sl, '-');
        lemma_lacks_concat(dd + sl + mm + sl, yt, '-');
        assert(w1[2] == '/');
        assert(w1.contains('/'));
        assert(spec_date_sep(w1) == Some('/'));
        lemma_single_lacks('+', '/');
        lemma_lacks_concat(seq!['+'], z, '/');
        assert(split_on(e, '/') =~= seq![e]);
        lemma_split_on_append(e, dd, '/');
        assert(e + dd =~= dd);
        lemma_split_on_push_sep(dd, '/');
        assert(dd.push('/') =~= dd + sl);
        lemma_split_on_append(dd + sl, mm, '/');
        lemma_split_on_push_sep(dd + sl + mm, '/');
        assert((dd + sl + mm).push('/') =~= dd + sl + mm + sl);
        lemma_split_on_append(dd + sl + mm + sl, yt, '/');
        assert(split_on(w1, '/') =~= seq![dd, mm, yt]);
        assert(is_digits(dd));
        assert(is_digits(mm));
        assert(!is_ascii_digit(yt[0]));
        assert(!is_digits(yt));
    }
}

} // verus!
