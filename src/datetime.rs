use vstd::prelude::*;

use crate::text::{split, split_char, views};

verus! {

/// A date and time of day as written, without any check of ranges:
/// year, month, day, hour, minute and second.
#[derive(Debug, Clone, Copy, PartialEq, Eq, Structural)]
pub struct DateParts(pub i32, pub i32, pub i32, pub i32, pub i32, pub i32);

/// The six fields of a datetime literal.
#[derive(Debug, Clone, Copy, PartialEq, Eq, Structural)]
pub enum DateField {
    Year,
    Month,
    Day,
    Hour,
    Minute,
    Second,
}

/// Why a datetime literal was refused.
#[derive(Debug, Clone, Copy, PartialEq, Eq, Structural)]
pub enum DateTimeError {
    /// The literal is not a date and a time separated by one space, with
    /// three `-`-separated date tokens and three `:`-separated time tokens.
    Format,
    /// A token is not a 32-bit signed integer.
    FailedToParse(DateField),
}

/// The name of a field in messages.
pub open spec fn field_name(f: DateField) -> Seq<char> {
    match f {
        DateField::Year => "year"@,
        DateField::Month => "month"@,
        DateField::Day => "day"@,
        DateField::Hour => "hour"@,
        DateField::Minute => "minute"@,
        DateField::Second => "second"@,
    }
}

/// The account of a datetime error.
pub open spec fn datetime_message(e: DateTimeError) -> Seq<char> {
    match e {
        DateTimeError::Format => "Wrong datetime format. Needs to be 'YYYY-MM-DD hh-mm-ss'"@,
        DateTimeError::FailedToParse(f) => "Failed to parse "@ + field_name(f),
    }
}

impl DateField {
    /// The field's name in messages.
    pub fn name(&self) -> (r: &'static str)
        ensures
            r@ == field_name(*self),
    {
        match self {
            DateField::Year => "year",
            DateField::Month => "month",
            DateField::Day => "day",
            DateField::Hour => "hour",
            DateField::Minute => "minute",
            DateField::Second => "second",
        }
    }
}

impl DateTimeError {
    /// A human-readable account of the error.
    pub fn message(&self) -> (r: String)
        ensures
            r@ == datetime_message(*self),
    {
        match self {
            DateTimeError::Format => "Wrong datetime format. Needs to be 'YYYY-MM-DD hh-mm-ss'".to_owned(),
            DateTimeError::FailedToParse(field) => {
                let mut m = "Failed to parse ".to_owned();
                m.append(field.name());
                m
            },
        }
    }
}

pub open spec fn is_digit(c: char) -> bool {
    '0' <= c && c <= '9'
}

pub open spec fn all_digits(s: Seq<char>) -> bool {
    forall|i: int| 0 <= i < s.len() ==> is_digit(s[i])
}

/// The number that a string of decimal digits denotes.
pub open spec fn digits_value(s: Seq<char>) -> int
    decreases s.len(),
{
    if s.len() == 0 {
        0
    } else {
        digits_value(s.drop_last()) * 10 + (s.last() as int - '0' as int)
    }
}

/// The integer that `s` denotes: an optional `+` or `-` followed by at least one digit.
pub open spec fn int_of(s: Seq<char>) -> Option<int> {
    let neg = s.len() > 0 && s[0] == '-';
    let body = if s.len() > 0 && (s[0] == '-' || s[0] == '+') {
        s.drop_first()
    } else {
        s
    };
    if body.len() > 0 && all_digits(body) {
        Some(
            if neg {
                -digits_value(body)
            } else {
                digits_value(body)
            },
        )
    } else {
        None
    }
}

/// `s` read as a 32-bit signed integer, as `i32::from_str` reads it.
pub open spec fn i32_of(s: Seq<char>) -> Option<i32> {
    match int_of(s) {
        Some(v) => if i32::MIN <= v <= i32::MAX {
            Some(v as i32)
        } else {
            None
        },
        None => None,
    }
}

/// The six tokens of a literal of the shape `date time`, with three
/// `-`-separated date tokens and three `:`-separated time tokens.
pub open spec fn datetime_tokens(s: Seq<char>) -> Option<Seq<Seq<char>>> {
    let seg = split_char(s, ' ');
    if seg.len() != 2 {
        None
    } else {
        let d = split_char(seg[0], '-');
        let t = split_char(seg[1], ':');
        if d.len() != 3 || t.len() != 3 {
            None
        } else {
            Some(d + t)
        }
    }
}

pub open spec fn field_at(i: int) -> DateField {
    if i == 0 {
        DateField::Year
    } else if i == 1 {
        DateField::Month
    } else if i == 2 {
        DateField::Day
    } else if i == 3 {
        DateField::Hour
    } else if i == 4 {
        DateField::Minute
    } else {
        DateField::Second
    }
}

/// The outcome of reading a datetime literal: the first token, in field
/// order, that is no integer names the error.
pub open spec fn parse_datetime(s: Seq<char>) -> Result<DateParts, DateTimeError> {
    match datetime_tokens(s) {
        None => Err(DateTimeError::Format),
        Some(t) => {
            if exists|i: int| 0 <= i < 6 && i32_of(#[trigger] t[i]) is None {
                let i = choose|i: int|
                    0 <= i < 6 && i32_of(#[trigger] t[i]) is None && forall|j: int|
                        0 <= j < i ==> i32_of(#[trigger] t[j]) is Some;
                Err(DateTimeError::FailedToParse(field_at(i)))
            } else {
                Ok(
                    DateParts(
                        i32_of(t[0])->0,
                        i32_of(t[1])->0,
                        i32_of(t[2])->0,
                        i32_of(t[3])->0,
                        i32_of(t[4])->0,
                        i32_of(t[5])->0,
                    ),
                )
            }
        },
    }
}

proof fn lemma_digits_value_grows(s: Seq<char>, k: int)
    requires
        all_digits(s),
        0 <= k <= s.len(),
    ensures
        0 <= digits_value(s.take(k)) <= digits_value(s),
    decreases s.len(),
{
    if s.len() > 0 {
        if k == s.len() {
            assert(s.take(k) =~= s);
            lemma_digits_value_grows(s.drop_last(), 0);
        } else {
            lemma_digits_value_grows(s.drop_last(), k);
            assert(s.drop_last().take(k) =~= s.take(k));
        }
    } else {
        assert(s.take(k) =~= s);
    }
}

/// `s` read as a 32-bit signed integer.
pub fn parse_i32(s: &str) -> (r: Option<i32>)
    ensures
        r == i32_of(s@),
{
    let n = s.unicode_len();
    let mut k: usize = 0;
    let mut neg = false;
    if n > 0 && (s.get_char(0) == '-' || s.get_char(0) == '+') {
        neg = s.get_char(0) == '-';
        k = 1;
    }
    let ghost start: int = k as int;
    let ghost body = s@.skip(start);
    assert(start == 0 ==> body =~= s@);
    assert(start == 1 ==> body =~= s@.drop_first());
    if k == n {
        return None;
    }
    let mut acc: i64 = 0;
    assert(s@.subrange(start, start) =~= Seq::<char>::empty());
    while k < n
        invariant
            n == s@.len(),
            0 <= start <= 1,
            start <= k <= n,
            neg == (s@.len() > 0 && s@[0] == '-'),
            (start == 1) == (s@.len() > 0 && (s@[0] == '-' || s@[0] == '+')),
            start == 0 ==> body == s@,
            start == 1 ==> body == s@.drop_first(),
            body == s@.skip(start),
            all_digits(s@.subrange(start, k as int)),
            acc == digits_value(s@.subrange(start, k as int)),
            0 <= acc <= 2147483648,
        decreases n - k,
    {
        let c = s.get_char(k);
        if c < '0' || c > '9' {
            assert(body[k - start] == c);
            return None;
        }
        let ghost prev = s@.subrange(start, k as int);
        assert(s@.subrange(start, k + 1).drop_last() =~= prev);
        assert(s@.subrange(start, k + 1).last() == c);
        acc = acc * 10 + (c as u32 - '0' as u32) as i64;
        k += 1;
        if acc > 2147483648 {
            proof {
                let pre = s@.subrange(start, k as int);
                if all_digits(body) {
                    assert(body.take(k - start) =~= pre);
                    lemma_digits_value_grows(body, k - start);
                }
            }
            return None;
        }
    }
    assert(s@.subrange(start, n as int) =~= body);
    if neg {
        Some((-acc) as i32)
    } else if acc > 2147483647 {
        None
    } else {
        Some(acc as i32)
    }
}

proof fn lemma_first_failure(s: Seq<char>, t: Seq<Seq<char>>, i: int)
    requires
        datetime_tokens(s) == Some(t),
        t.len() == 6,
        0 <= i < 6,
        i32_of(t[i]) is None,
        forall|j: int| 0 <= j < i ==> i32_of(#[trigger] t[j]) is Some,
    ensures
        parse_datetime(s) == Err::<DateParts, DateTimeError>(
            DateTimeError::FailedToParse(field_at(i)),
        ),
{
    let c = choose|c: int|
        0 <= c < 6 && i32_of(#[trigger] t[c]) is None && forall|j: int|
            0 <= j < c ==> i32_of(#[trigger] t[j]) is Some;
    assert(0 <= c < 6 && i32_of(t[c]) is None && forall|j: int|
        0 <= j < c ==> i32_of(#[trigger] t[j]) is Some);
    if c < i {
        assert(i32_of(t[c]) is Some);
    }
    if c > i {
        assert(i32_of(t[i]) is Some);
    }
}

/// Reads a literal `YYYY-MM-DD hh:mm:ss` into its six integers; no range of
/// any field is checked.
pub fn extract_date_parts(value: &str) -> (r: Result<DateParts, DateTimeError>)
    ensures
        r == parse_datetime(value@),
{
    let segments = split(value, ' ');
    if segments.len() != 2 {
        return Err(DateTimeError::Format);
    }
    let date = split(segments[0].as_str(), '-');
    let time = split(segments[1].as_str(), ':');
    if date.len() != 3 || time.len() != 3 {
        return Err(DateTimeError::Format);
    }
    let ghost t = views(date@) + views(time@);
    assert(datetime_tokens(value@) == Some(t));
    assert(t[0] == date[0]@ && t[1] == date[1]@ && t[2] == date[2]@);
    assert(t[3] == time[0]@ && t[4] == time[1]@ && t[5] == time[2]@);
    let year = match parse_i32(date[0].as_str()) {
        Some(v) => v,
        None => {
            proof {
                lemma_first_failure(value@, t, 0);
            }
            return Err(DateTimeError::FailedToParse(DateField::Year));
        },
    };
    let month = match parse_i32(date[1].as_str()) {
        Some(v) => v,
        None => {
            proof {
                lemma_first_failure(value@, t, 1);
            }
            return Err(DateTimeError::FailedToParse(DateField::Month));
        },
    };
    let day = match parse_i32(date[2].as_str()) {
        Some(v) => v,
        None => {
            proof {
                lemma_first_failure(value@, t, 2);
            }
            return Err(DateTimeError::FailedToParse(DateField::Day));
        },
    };
    let hour = match parse_i32(time[0].as_str()) {
        Some(v) => v,
        None => {
            proof {
                lemma_first_failure(value@, t, 3);
            }
            return Err(DateTimeError::FailedToParse(DateField::Hour));
        },
    };
    let minute = match parse_i32(time[1].as_str()) {
        Some(v) => v,
        None => {
            proof {
                lemma_first_failure(value@, t, 4);
            }
            return Err(DateTimeError::FailedToParse(DateField::Minute));
        },
    };
    let second = match parse_i32(time[2].as_str()) {
        Some(v) => v,
        None => {
            proof {
                lemma_first_failure(value@, t, 5);
            }
            return Err(DateTimeError::FailedToParse(DateField::Second));
        },
    };
    assert(forall|i: int| 0 <= i < 6 ==> i32_of(#[trigger] t[i]) is Some);
    Ok(DateParts(year, month, day, hour, minute, second))
}

} // verus!
