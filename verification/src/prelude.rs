//! Constants of the name layout shared by the crate.
use vstd::prelude::*;

verus! {

/// Separator between the year, month and day of the date prefix.
pub const DATE_SEP: &'static str = "_";

/// Separator between the date and the time, and between the prefix and the
/// original name.
pub const DATE_TIME_SEP: &'static str = " ";

/// Separator that replaces `:` inside the time.
pub const TIME_SEP: &'static str = ".";

/// Separator between the 12h time and `AM`/`PM`.
pub const AM_PM_SEP: &'static str = "";

/// Fallback stamp when media metadata has no creation date.
/// It stays parseable by `Stamp` (see `lemma_epoch_stamp_parses`).
pub const EPOCH_STAMP: &'static str = "01/01/1970 00:00 12:00 AM";

/// Wrapper struct.
pub struct W<T>(pub T);

/// The characters of `DATE_SEP`.
pub proof fn lemma_separator_constants()
    ensures
        DATE_SEP@ == seq!['_'],
        DATE_TIME_SEP@ == seq![' '],
        TIME_SEP@ == seq!['.'],
        AM_PM_SEP@ == Seq::<char>::empty(),
{
    reveal_strlit("_");
    reveal_strlit(" ");
    reveal_strlit(".");
    reveal_strlit("");
    assert(DATE_SEP@ =~= seq!['_']);
    assert(DATE_TIME_SEP@ =~= seq![' ']);
    assert(TIME_SEP@ =~= seq!['.']);
    assert(AM_PM_SEP@ =~= Seq::<char>::empty());
}

} // verus!
