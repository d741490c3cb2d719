//! Label text for the grid.
//!
//! Clock labels have an exactly specified `HH:MM` shape; date header
//! labels are the Gregorian `dd.mm.yyyy` rendering of a day number, a
//! civil-calendar computation delegated to the `chrono` crate and named
//! by [`date_label_of`].

use vstd::prelude::*;

use crate::time::MAX_DAY;

verus! {

/// The decimal digit character for `d` in `[0, 9]`.
pub open spec fn digit_char(d: int) -> char {
    if d == 0 {
        '0'
    } else if d == 1 {
        '1'
    } else if d == 2 {
        '2'
    } else if d == 3 {
        '3'
    } else if d == 4 {
        '4'
    } else if d == 5 {
        '5'
    } else if d == 6 {
        '6'
    } else if d == 7 {
        '7'
    } else if d == 8 {
        '8'
    } else {
        '9'
    }
}

/// The five characters of a zero-padded `HH:MM` clock label.
pub open spec fn hhmm_chars(hour: int, minute: int) -> Seq<char> {
    seq![
        digit_char(hour / 10),
        digit_char(hour % 10),
        ':',
        digit_char(minute / 10),
        digit_char(minute % 10),
    ]
}

/// The text of the date header label for the given day number, in
/// `dd.mm.yyyy` form.  Which digits a day number yields is the Gregorian
/// civil-calendar computation, performed by the `chrono` crate; the
/// engine relies only on the label being a function of the day number
/// alone, with the fixed ten-character shape stated below.
pub uninterp spec fn date_label_of(day: int) -> Seq<char>;

/// Formats a clock label.  Relies on `chrono::NaiveTime`'s `%H:%M`
/// formatting: a zero-padded two-digit hour and a zero-padded two-digit
/// minute separated by a colon.
#[verifier::external_body]
pub(crate) fn format_hhmm(hour: u32, minute: u32) -> (r: String)
    requires
        hour < 24,
        minute < 60,
    ensures
        r@ == hhmm_chars(hour as int, minute as int),
{
    let t = chrono::NaiveTime::from_hms_opt(hour, minute, 0).unwrap();
    t.format("%H:%M").to_string()
}

/// Formats a date header label.  Relies on
/// `chrono::NaiveDate::from_num_days_from_ce_opt`, which is defined for
/// every day number up to [`MAX_DAY`], and on its `%d.%m.%Y` formatting:
/// a zero-padded two-digit day and month and a zero-padded four-digit
/// year (every supported day number falls in a four-digit year), so the
/// label always has exactly ten characters.
#[verifier::external_body]
pub(crate) fn format_date_label(day: i32) -> (r: String)
    requires
        1 <= day <= MAX_DAY,
    ensures
        r@ == date_label_of(day as int),
        r@.len() == 10,
{
    let date = chrono::NaiveDate::from_num_days_from_ce_opt(day).unwrap();
    date.format("%d.%m.%Y").to_string()
}

} // verus!
