//! Decimal parsing for the scalar fields of the document: the
//! minutes-after-midnight offset (a non-negative integer) and the
//! temperature (a signed integer).

use vstd::prelude::*;

verus! {

pub open spec fn is_digit_char(c: char) -> bool {
    '0' <= c && c <= '9'
}

pub open spec fn digit_val(c: char) -> int {
    c as int - 48
}

pub open spec fn all_digits(s: Seq<char>) -> bool {
    forall|i: int| 0 <= i < s.len() ==> is_digit_char(#[trigger] s[i])
}

/// The value of a string of decimal digits, most significant first.
pub open spec fn dec_val(s: Seq<char>) -> int
    decreases s.len(),
{
    if s.len() == 0 {
        0
    } else {
        dec_val(s.drop_last()) * 10 + digit_val(s.last())
    }
}

/// What parsing the minutes-after-midnight field yields: the field must be
/// one or more decimal digits and the value must fit the parsed width.
/// The 0-1439 range of a real offset is deliberately not enforced here.
pub open spec fn parse_offset_spec(s: Seq<char>) -> Option<int> {
    if s.len() >= 1 && all_digits(s) && dec_val(s) <= 0xffff_ffff {
        Some(dec_val(s))
    } else {
        None
    }
}

/// What parsing the temperature field yields: an optional sign followed by
/// one or more decimal digits, with the value in the range of a 64-bit
/// signed integer.
pub open spec fn parse_temperature_spec(s: Seq<char>) -> Option<int> {
    if s.len() >= 1 && (s[0] == '-' || s[0] == '+') {
        let mag = s.skip(1);
        if mag.len() >= 1 && all_digits(mag) && (if s[0] == '-' {
            dec_val(mag) <= 0x8000_0000_0000_0000
        } else {
            dec_val(mag) <= 0x7fff_ffff_ffff_ffff
        }) {
            Some(if s[0] == '-' { -dec_val(mag) } else { dec_val(mag) })
        } else {
            None
        }
    } else if s.len() >= 1 && all_digits(s) && dec_val(s) <= 0x7fff_ffff_ffff_ffff {
        Some(dec_val(s))
    } else {
        None
    }
}

pub proof fn lemma_dec_val_nonneg(s: Seq<char>)
    requires
        all_digits(s),
    ensures
        dec_val(s) >= 0,
    decreases s.len(),
{
    if s.len() > 0 {
        lemma_dec_val_nonneg(s.drop_last());
    }
}

/// A digit string's value only grows as digits are appended.
pub proof fn lemma_dec_val_prefix(s: Seq<char>, k: int)
    requires
        all_digits(s),
        0 <= k <= s.len(),
    ensures
        dec_val(s.take(k)) <= dec_val(s),
    decreases s.len() - k,
{
    if k == s.len() {
        assert(s.take(k) =~= s);
    } else {
        lemma_dec_val_prefix(s, k + 1);
        assert(s.take(k + 1).drop_last() =~= s.take(k));
        lemma_dec_val_nonneg(s.take(k));
        assert(dec_val(s.take(k + 1)) == dec_val(s.take(k)) * 10 + digit_val(s[k]));
    }
}

/// Parse the decimal digits of `s` from byte position `start` to the end,
/// yielding their value when every remaining character is a digit and the
/// value is at most `cap`.
pub(crate) fn parse_dec_from(s: &str, start: usize, cap: u64) -> (r: Option<u64>)
    requires
        vstd::string::is_ascii(s),
        start as int <= s@.len(),
        cap <= 0x8000_0000_0000_0000,
    ensures
        match r {
            Some(v) => {
                &&& s@.skip(start as int).len() >= 1
                &&& all_digits(s@.skip(start as int))
                &&& v as int == dec_val(s@.skip(start as int))
                &&& v <= cap
            },
            None => !(s@.skip(start as int).len() >= 1 && all_digits(s@.skip(start as int))
                && dec_val(s@.skip(start as int)) <= cap as int),
        },
{
    let ghost tail = s@.skip(start as int);
    let b = s.as_bytes();
    proof {
        vstd::string::is_ascii_spec_bytes(s);
        assert(b@ =~= Seq::new(s@.len(), |i: int| s@[i] as u8));
    }
    let n = b.len();
    if start == n {
        return None;
    }
    let mut i = start;
    let mut acc: u64 = 0;
    while i < n
        invariant
            vstd::string::is_ascii(s),
            b@.len() == s@.len(),
            n == b@.len(),
            forall|k: int| 0 <= k < s@.len() ==> b@[k] == #[trigger] s@[k] as u8,
            forall|k: int| 0 <= k < s@.len() ==> '\0' <= #[trigger] s@[k] <= '\u{7f}',
            start <= i <= n,
            start < n,
            cap <= 0x8000_0000_0000_0000,
            tail == s@.skip(start as int),
            all_digits(s@.subrange(start as int, i as int)),
            acc as int == dec_val(s@.subrange(start as int, i as int)),
            acc <= cap,
        decreases n - i,
    {
        let d = b[i];
        proof {
            assert(b@[i as int] == s@[i as int] as u8);
            assert('\0' <= s@[i as int] <= '\u{7f}');
        }
        if d < 48 || d > 57 {
            proof {
                assert(!is_digit_char(s@[i as int]));
                assert(tail[i - start] == s@[i as int]);
                assert(!all_digits(tail));
            }
            return None;
        }
        proof {
            assert(is_digit_char(s@[i as int]));
            assert(digit_val(s@[i as int]) == d - 48);
        }
        let dv = (d - 48) as u64;
        if acc > cap / 10 || acc * 10 + dv > cap {
            proof {
                let j = i - start;
                assert(s@.subrange(start as int, i as int + 1).drop_last() =~= s@.subrange(
                    start as int,
                    i as int,
                ));
                assert(dec_val(s@.subrange(start as int, i as int + 1)) == acc * 10 + digit_val(
                    s@[i as int],
                ));
                assert(s@.subrange(start as int, i as int + 1) =~= tail.take(j + 1));
                assert(dec_val(tail.take(j + 1)) > cap);
                if all_digits(tail) {
                    lemma_dec_val_prefix(tail, j + 1);
                }
            }
            return None;
        }
        acc = acc * 10 + dv;
        proof {
            assert(s@.subrange(start as int, i as int + 1).drop_last() =~= s@.subrange(
                start as int,
                i as int,
            ));
        }
        i = i + 1;
    }
    proof {
        assert(s@.subrange(start as int, n as int) =~= tail);
    }
    Some(acc)
}

/// Parse the minutes-after-midnight field. Exactly the strings accepted by
/// `parse_offset_spec` yield a value.
pub fn parse_offset(s: &str) -> (r: Option<u32>)
    ensures
        match r {
            Some(v) => parse_offset_spec(s@) == Some(v as int),
            None => parse_offset_spec(s@) is None,
        },
{
    if !s.is_ascii() {
        proof {
            let j = choose|j: int|
                0 <= j < s@.len() && !('\0' <= #[trigger] s@[j] <= '\u{7f}');
            assert(!is_digit_char(s@[j]));
            assert(!all_digits(s@));
        }
        return None;
    }
    match parse_dec_from(s, 0, 0xffff_ffff) {
        Some(v) => {
            proof {
                assert(s@.skip(0) =~= s@);
            }
            Some(v as u32)
        },
        None => {
            proof {
                assert(s@.skip(0) =~= s@);
            }
            None
        },
    }
}

/// Parse the temperature field. Exactly the strings accepted by
/// `parse_temperature_spec` yield a value.
pub fn parse_temperature(s: &str) -> (r: Option<i64>)
    ensures
        match r {
            Some(v) => parse_temperature_spec(s@) == Some(v as int),
            None => parse_temperature_spec(s@) is None,
        },
{
    if !s.is_ascii() {
        proof {
            let j = choose|j: int|
                0 <= j < s@.len() && !('\0' <= #[trigger] s@[j] <= '\u{7f}');
            assert(!is_digit_char(s@[j]));
            assert(!all_digits(s@));
            if s@.len() >= 1 && (s@[0] == '-' || s@[0] == '+') {
                assert(j >= 1);
                assert(s@.skip(1)[j - 1] == s@[j]);
                assert(!all_digits(s@.skip(1)));
            }
        }
        return None;
    }
    let b = s.as_bytes();
    proof {
        vstd::string::is_ascii_spec_bytes(s);
        assert(b@ =~= Seq::new(s@.len(), |i: int| s@[i] as u8));
    }
    if b.len() == 0 {
        return None;
    }
    let first = b[0];
    proof {
        assert(b@[0] == s@[0] as u8);
        assert('\0' <= s@[0] <= '\u{7f}');
    }
    if first == 45 {
        proof {
            assert(s@[0] == '-');
        }
        match parse_dec_from(s, 1, 0x8000_0000_0000_0000) {
            Some(v) => {
                if v == 0x8000_0000_0000_0000 {
                    Some(i64::MIN)
                } else {
                    Some(-(v as i64))
                }
            },
            None => None,
        }
    } else if first == 43 {
        proof {
            assert(s@[0] == '+');
        }
        match parse_dec_from(s, 1, 0x7fff_ffff_ffff_ffff) {
            Some(v) => Some(v as i64),
            None => None,
        }
    } else {
        proof {
            assert(s@[0] != '-' && s@[0] != '+');
        }
        match parse_dec_from(s, 0, 0x7fff_ffff_ffff_ffff) {
            Some(v) => {
                proof {
                    assert(s@.skip(0) =~= s@);
                }
                Some(v as i64)
            },
            None => {
                proof {
                    assert(s@.skip(0) =~= s@);
                }
                None
            },
        }
    }
}

} // verus!
