//! The separators (former spelling) that lay out a flipped date stamp.
use vstd::prelude::*;

use crate::separators::{default_separators, SeparatorsView};
use crate::prelude::{lemma_separator_constants, AM_PM_SEP, DATE_SEP, DATE_TIME_SEP, TIME_SEP};

verus! {

#[derive(Clone, Debug)]
pub struct Seperators<'a> {
    pub date_sep: &'a str,
    pub date_time_sep: &'a str,
    pub time_sep: &'a str,
    pub am_pm_sep: &'a str,
}

impl<'a> View for Seperators<'a> {
    type V = SeparatorsView;

    open spec fn view(&self) -> SeparatorsView {
        SeparatorsView {
            date_sep: self.date_sep@,
            date_time_sep: self.date_time_sep@,
            time_sep: self.time_sep@,
            am_pm_sep: self.am_pm_sep@,
        }
    }
}

impl Seperators<'_> {
    pub fn new<'a>(
        date_sep: &'a str,
        date_time_sep: &'a str,
        time_sep: &'a str,
        am_pm_sep: &'a str,
    ) -> (s: Seperators<'a>)
        ensures
            s.date_sep == date_sep,
            s.date_time_sep == date_time_sep,
            s.time_sep == time_sep,
            s.am_pm_sep == am_pm_sep,
    {
        Seperators { date_sep, date_time_sep, time_sep, am_pm_sep }
    }
}

impl Default for Seperators<'_> {
    fn default() -> (s: Self)
        ensures
            s@ == default_separators(),
            s.date_sep == DATE_SEP,
            s.date_time_sep == DATE_TIME_SEP,
            s.time_sep == TIME_SEP,
            s.am_pm_sep == AM_PM_SEP,
    {
        proof {
            lemma_separator_constants();
        }
        Seperators {
            date_sep: DATE_SEP,
            date_time_sep: DATE_TIME_SEP,
            time_sep: TIME_SEP,
            am_pm_sep: AM_PM_SEP,
        }
    }
}

} // verus!
