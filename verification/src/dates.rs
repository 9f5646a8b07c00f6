//! Calendar arithmetic for the Period date field.
//!
//! A Period carries a date-only value, `YYYY-MM-DD` followed by the literal
//! suffix `Z` meaning midnight UTC. The observation time of a reading is
//! that midnight, in epoch seconds, plus the reading's minute offset. The
//! arithmetic is the proleptic Gregorian calendar, all in UTC: no time
//! zones, no daylight saving.

use vstd::prelude::*;

use crate::num::{digit_val, is_digit_char};

verus! {

pub open spec fn is_leap_year(y: int) -> bool {
    y % 4 == 0 && (y % 100 != 0 || y % 400 == 0)
}

pub open spec fn days_in_month(y: int, m: int) -> int {
    if m == 2 {
        if is_leap_year(y) {
            29
        } else {
            28
        }
    } else if m == 4 || m == 6 || m == 9 || m == 11 {
        30
    } else {
        31
    }
}

/// Days in the calendar years `0, 1, ..., y - 1` together: 365 per year,
/// plus one per leap year among them.
pub open spec fn days_before_year(y: int) -> int {
    365 * y + (y + 3) / 4 - (y + 99) / 100 + (y + 399) / 400
}

/// Days in year `y` before month `m` begins.
pub open spec fn days_before_month(y: int, m: int) -> int {
    (if m == 1 {
        0int
    } else if m == 2 {
        31
    } else if m == 3 {
        59
    } else if m == 4 {
        90
    } else if m == 5 {
        120
    } else if m == 6 {
        151
    } else if m == 7 {
        181
    } else if m == 8 {
        212
    } else if m == 9 {
        243
    } else if m == 10 {
        273
    } else if m == 11 {
        304
    } else {
        334
    }) + (if m > 2 && is_leap_year(y) {
        1int
    } else {
        0
    })
}

/// Days from 0000-01-01 to the given date.
pub open spec fn day_number(y: int, m: int, d: int) -> int {
    days_before_year(y) + days_before_month(y, m) + (d - 1)
}

pub open spec fn valid_date(y: int, m: int, d: int) -> bool {
    &&& 0 <= y <= 9999
    &&& 1 <= m <= 12
    &&& 1 <= d <= days_in_month(y, m)
}

/// Midnight UTC of the given date, in epoch seconds. Day 719528 is
/// 1970-01-01, the epoch.
pub open spec fn epoch_of_date(y: int, m: int, d: int) -> int {
    (day_number(y, m, d) - 719528) * 86400
}

/// The smallest epoch value of any valid date (0000-01-01).
pub open spec fn min_date_epoch() -> int {
    -62167219200
}

/// The largest epoch value of any valid date (9999-12-31).
pub open spec fn max_date_epoch() -> int {
    253402214400
}

pub open spec fn date_year(s: Seq<char>) -> int {
    digit_val(s[0]) * 1000 + digit_val(s[1]) * 100 + digit_val(s[2]) * 10 + digit_val(s[3])
}

pub open spec fn date_month(s: Seq<char>) -> int {
    digit_val(s[5]) * 10 + digit_val(s[6])
}

pub open spec fn date_day(s: Seq<char>) -> int {
    digit_val(s[8]) * 10 + digit_val(s[9])
}

/// The accepted shape of a Period date value: `YYYY-MM-DDZ`, naming a
/// valid calendar date.
pub open spec fn date_format_ok(s: Seq<char>) -> bool {
    &&& s.len() == 11
    &&& is_digit_char(s[0])
    &&& is_digit_char(s[1])
    &&& is_digit_char(s[2])
    &&& is_digit_char(s[3])
    &&& s[4] == '-'
    &&& is_digit_char(s[5])
    &&& is_digit_char(s[6])
    &&& s[7] == '-'
    &&& is_digit_char(s[8])
    &&& is_digit_char(s[9])
    &&& s[10] == 'Z'
    &&& valid_date(date_year(s), date_month(s), date_day(s))
}

/// What parsing a Period date value yields: midnight UTC of the named
/// date, in epoch seconds, exactly when the value has the accepted shape.
pub open spec fn parse_date_spec(s: Seq<char>) -> Option<int> {
    if date_format_ok(s) {
        Some(epoch_of_date(date_year(s), date_month(s), date_day(s)))
    } else {
        None
    }
}

/// Midnight UTC of a valid date, in epoch seconds.
pub fn date_epoch(y: i64, m: i64, d: i64) -> (r: i64)
    requires
        valid_date(y as int, m as int, d as int),
    ensures
        r as int == epoch_of_date(y as int, m as int, d as int),
        min_date_epoch() <= r as int <= max_date_epoch(),
{
    let dby = 365 * y + (y + 3) / 4 - (y + 99) / 100 + (y + 399) / 400;
    assert(dby == days_before_year(y as int));
    assert(0 <= dby <= 3652060);
    let dbm = if m == 1 {
        0
    } else if m == 2 {
        31
    } else if m == 3 {
        59
    } else if m == 4 {
        90
    } else if m == 5 {
        120
    } else if m == 6 {
        151
    } else if m == 7 {
        181
    } else if m == 8 {
        212
    } else if m == 9 {
        243
    } else if m == 10 {
        273
    } else if m == 11 {
        304
    } else {
        334
    };
    let leap: i64 = if m > 2 && (y % 4 == 0 && (y % 100 != 0 || y % 400 == 0)) {
        1
    } else {
        0
    };
    let dn = dby + dbm + leap + (d - 1);
    assert(dn == day_number(y as int, m as int, d as int));
    (dn - 719528) * 86400
}

/// Parse a Period date value. Exactly the strings accepted by
/// `parse_date_spec` yield a value.
pub fn parse_date(s: &str) -> (r: Option<i64>)
    ensures
        match r {
            Some(e) => parse_date_spec(s@) == Some(e as int) && min_date_epoch() <= e as int
                <= max_date_epoch(),
            None => parse_date_spec(s@) is None,
        },
{
    if !s.is_ascii() {
        proof {
            let j = choose|j: int|
                0 <= j < s@.len() && !('\0' <= #[trigger] s@[j] <= '\u{7f}');
            assert(!date_format_ok(s@));
        }
        return None;
    }
    let b = s.as_bytes();
    proof {
        vstd::string::is_ascii_spec_bytes(s);
        assert(b@ =~= Seq::new(s@.len(), |i: int| s@[i] as u8));
    }
    if b.len() != 11 {
        return None;
    }
    proof {
        assert forall|k: int| 0 <= k < 11 implies b@[k] == #[trigger] s@[k] as u8 && '\0'
            <= s@[k] <= '\u{7f}' by {}
    }
    let d0 = b[0];
    let d1 = b[1];
    let d2 = b[2];
    let d3 = b[3];
    let d5 = b[5];
    let d6 = b[6];
    let d8 = b[8];
    let d9 = b[9];
    if d0 < 48 || d0 > 57 || d1 < 48 || d1 > 57 || d2 < 48 || d2 > 57 || d3 < 48 || d3 > 57 {
        return None;
    }
    if b[4] != 45 {
        return None;
    }
    if d5 < 48 || d5 > 57 || d6 < 48 || d6 > 57 {
        return None;
    }
    if b[7] != 45 {
        return None;
    }
    if d8 < 48 || d8 > 57 || d9 < 48 || d9 > 57 {
        return None;
    }
    if b[10] != 90 {
        return None;
    }
    let y: i64 = (d0 - 48) as i64 * 1000 + (d1 - 48) as i64 * 100 + (d2 - 48) as i64 * 10 + (d3
        - 48) as i64;
    let m: i64 = (d5 - 48) as i64 * 10 + (d6 - 48) as i64;
    let d: i64 = (d8 - 48) as i64 * 10 + (d9 - 48) as i64;
    proof {
        assert(y == date_year(s@));
        assert(m == date_month(s@));
        assert(d == date_day(s@));
    }
    if m < 1 || m > 12 {
        return None;
    }
    let dim: i64 = if m == 2 {
        if y % 4 == 0 && (y % 100 != 0 || y % 400 == 0) {
            29
        } else {
            28
        }
    } else if m == 4 || m == 6 || m == 9 || m == 11 {
        30
    } else {
        31
    };
    assert(dim == days_in_month(y as int, m as int));
    if d < 1 || d > dim {
        return None;
    }
    Some(date_epoch(y, m, d))
}

} // verus!
