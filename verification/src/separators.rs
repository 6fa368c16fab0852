//! The separators that lay out a flipped date stamp.
use vstd::prelude::*;

use crate::prelude::{lemma_separator_constants, AM_PM_SEP, DATE_SEP, DATE_TIME_SEP, TIME_SEP};

verus! {

/// The separators, by their characters.
pub struct SeparatorsView {
    pub date_sep: Seq<char>,
    pub date_time_sep: Seq<char>,
    pub time_sep: Seq<char>,
    pub am_pm_sep: Seq<char>,
}

/// The default layout `YYYY_MM_DD HH.MM HH.MMAM`.
pub open spec fn default_separators() -> SeparatorsView {
    SeparatorsView {
        date_sep: seq!['_'],
        date_time_sep: seq![' '],
        time_sep: seq!['.'],
        am_pm_sep: seq![],
    }
}

#[derive(Clone, Debug)]
pub struct Separators<'a> {
    pub date_sep: &'a str,
    pub date_time_sep: &'a str,
    pub time_sep: &'a str,
    pub am_pm_sep: &'a str,
}

impl<'a> View for Separators<'a> {
    type V = SeparatorsView;

    open spec fn view(&self) -> SeparatorsView {
        SeparatorsView {
            date_sep: self.date_sep@,
            date_time_sep: self.date_time_sep@,
            time_sep: self.time_sep@,
            am_pm_sep: self.am_pm_sep@,
        }
    }
}

impl Separators<'_> {
    pub fn new<'a>(
        date_sep: &'a str,
        date_time_sep: &'a str,
        time_sep: &'a str,
        am_pm_sep: &'a str,
    ) -> (s: Separators<'a>)
        ensures
            s.date_sep == date_sep,
            s.date_time_sep == date_time_sep,
            s.time_sep == time_sep,
            s.am_pm_sep == am_pm_sep,
    {
        Separators { date_sep, date_time_sep, time_sep, am_pm_sep }
    }
}

impl Default for Separators<'_> {
    fn default() -> (s: Self)
        ensures
            s@ == default_separators(),
            s.date_sep == DATE_SEP,
            s.date_time_sep == DATE_TIME_SEP,
            s.time_sep == TIME_SEP,
            s.am_pm_sep == AM_PM_SEP,
    {
        proof {
            lemma_separator_constants();
        }
        Separators {
            date_sep: DATE_SEP,
            date_time_sep: DATE_TIME_SEP,
            time_sep: TIME_SEP,
            am_pm_sep: AM_PM_SEP,
        }
    }
}

} // verus!
