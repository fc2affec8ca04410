//! Laws that relate the text of each type to what parsing reads back from it.

use vstd::prelude::*;

use crate::calendar::valid_date;
use crate::date::Date;
use crate::date_time::{date_text, valid_time, DateTime};
use crate::time::Time;
use crate::parse::{holds_byte, lemma_first_index_none};
use crate::parse::{first_index, lemma_first_index, spec_split_rfc3339};
use crate::parse::{
    all_ascii, all_digits, digits_value, is_digit, spec_field, spec_parse_date, spec_parse_time,
    ParseErrorKind,
};
use vstd::utf8::{encode_utf8, is_ascii_chars, is_ascii_chars_encode_utf8};
use crate::text::{decimal, digit_char, lemma_decimal_digits, lemma_decimal_len_bound, padded, pow10, zeros};

verus! {

/// The bytes of an ASCII character sequence.
pub open spec fn ascii(chars: Seq<char>) -> Seq<u8> {
    chars.map_values(|c: char| c as u8)
}

proof fn lemma_digits_value_decimal(n: nat)
    ensures
        ascii(decimal(n)).len() == decimal(n).len(),
        all_digits(ascii(decimal(n))),
        digits_value(ascii(decimal(n))) == n,
    decreases n,
{
    if n >= 10 {
        lemma_digits_value_decimal(n / 10);
        let s = ascii(decimal(n));
        assert(s.drop_last() =~= ascii(decimal(n / 10)));
        assert(s.last() == 48 + n % 10);
        assert forall|i: int| 0 <= i < s.len() implies is_digit(#[trigger] s[i]) by {
            if i < s.len() - 1 {
                assert(s[i] == s.drop_last()[i]);
            }
        }
    } else {
        let s = ascii(decimal(n));
        assert(s =~= seq![(48 + n) as u8]);
        assert(s.drop_last() =~= Seq::<u8>::empty());
        assert(digits_value(s.drop_last()) == 0);
        assert(s.last() == 48 + n);
    }
}

proof fn lemma_digits_value_zeros(k: nat)
    ensures
        ascii(zeros(k as int)).len() == k,
        all_digits(ascii(zeros(k as int))),
        digits_value(ascii(zeros(k as int))) == 0,
    decreases k,
{
    let s = ascii(zeros(k as int));
    if k > 0 {
        lemma_digits_value_zeros((k - 1) as nat);
        assert(s.drop_last() =~= ascii(zeros(k - 1)));
    } else {
        assert(s =~= Seq::<u8>::empty());
    }
}

proof fn lemma_digits_value_zero_prefix(z: Seq<u8>, s: Seq<u8>)
    requires
        digits_value(z) == 0,
    ensures
        digits_value(z + s) == digits_value(s),
    decreases s.len(),
{
    if s.len() > 0 {
        lemma_digits_value_zero_prefix(z, s.drop_last());
        assert((z + s).drop_last() =~= z + s.drop_last());
    } else {
        assert(z + s =~= z);
    }
}

/// The text of a field `value` zero-padded to `width` digits spells `value`.
pub proof fn lemma_padded_field(value: int, width: nat)
    requires
        width >= 1,
        0 <= value < pow10(width),
    ensures
        padded(value, width as int).len() == width,
        ascii(padded(value, width as int)).len() == width,
        all_digits(ascii(padded(value, width as int))),
        digits_value(ascii(padded(value, width as int))) == value,
        forall|i: int|
            0 <= i < width ==> '0' <= #[trigger] padded(value, width as int)[i] <= '9',
{
    let n = value as nat;
    lemma_decimal_len_bound(n, width);
    lemma_decimal_digits(n);
    lemma_digits_value_decimal(n);
    let k = (width - decimal(n).len()) as nat;
    lemma_digits_value_zeros(k);
    let p = padded(value, width as int);
    assert(p =~= zeros(k as int) + decimal(n));
    assert(ascii(p) =~= ascii(zeros(k as int)) + ascii(decimal(n)));
    lemma_digits_value_zero_prefix(ascii(zeros(k as int)), ascii(decimal(n)));
    assert forall|i: int| 0 <= i < ascii(p).len() implies is_digit(#[trigger] ascii(p)[i]) by {
        if i < k {
            assert(ascii(p)[i] == ascii(zeros(k as int))[i]);
        } else {
            assert(ascii(p)[i] == ascii(decimal(n))[i - k]);
        }
    }
    assert forall|i: int| 0 <= i < width implies '0' <= #[trigger] p[i] <= '9' by {
        if i >= k {
            assert(p[i] == decimal(n)[i - k]);
        }
    }
}


/// Text `HH:mm:ss.SSS` of a time of day.
pub open spec fn time_text(hour: int, minute: int, second: int, millisecond: int) -> Seq<char> {
    padded(hour, 2) + seq![':'] + padded(minute, 2) + seq![':'] + padded(second, 2) + seq!['.']
        + padded(millisecond, 3)
}

/// Every character is a digit or one of the separators `-`, ` `, `:`, `.`.
pub open spec fn date_time_chars(t: Seq<char>) -> bool {
    forall|i: int|
        0 <= i < t.len() ==> ('0' <= #[trigger] t[i] <= '9' || t[i] == '-' || t[i] == ' ' || t[i]
            == ':' || t[i] == '.')
}

/// A date text parses back to its date.
pub proof fn lemma_date_text_parses(year: int, month: int, day: int)
    requires
        0 <= year <= 9999,
        valid_date(year, month, day),
    ensures
        date_text(year, month, day).len() == 10,
        date_time_chars(date_text(year, month, day)),
        date_text(year, month, day)[4] == '-',
        date_text(year, month, day)[7] == '-',
        forall|i: int| 0 <= i < 4 ==> '0' <= #[trigger] date_text(year, month, day)[i] <= '9',
        forall|i: int| 0 <= i < 10 ==> #[trigger] date_text(year, month, day)[i] != ' ',
        forall|i: int| 0 <= i < 10 ==> #[trigger] date_text(year, month, day)[i] != ':',
        spec_parse_date(ascii(date_text(year, month, day))) == Ok::<(i32, u8, u8), ParseErrorKind>(
            (year as i32, month as u8, day as u8),
        ),
{
    reveal_with_fuel(pow10, 5);
    lemma_padded_field(year, 4);
    lemma_padded_field(month, 2);
    lemma_padded_field(day, 2);
    let t = date_text(year, month, day);
    let s = ascii(t);
    let py = padded(year, 4);
    let pm = padded(month, 2);
    let pd = padded(day, 2);
    assert(t =~= py + seq!['-'] + pm + seq!['-'] + pd);
    assert(s.subrange(0, 4) =~= ascii(py));
    assert(s.subrange(5, 7) =~= ascii(pm));
    assert(s.subrange(8, 10) =~= ascii(pd));
    assert(all_ascii(s)) by {
        assert forall|i: int| 0 <= i < s.len() implies #[trigger] s[i] < 128 by {
            if i < 4 {
                assert(s[i] == s.subrange(0, 4)[i]);
            } else if 5 <= i < 7 {
                assert(s[i] == s.subrange(5, 7)[i - 5]);
            } else if 8 <= i < 10 {
                assert(s[i] == s.subrange(8, 10)[i - 8]);
            }
        }
    }
    assert(date_time_chars(t)) by {
        assert forall|i: int| 0 <= i < t.len() implies ('0' <= #[trigger] t[i] <= '9' || t[i] == '-'
            || t[i] == ' ' || t[i] == ':' || t[i] == '.') by {
            if i < 4 {
                assert(t[i] == py[i]);
            } else if 5 <= i < 7 {
                assert(t[i] == pm[i - 5]);
            } else if 8 <= i < 10 {
                assert(t[i] == pd[i - 8]);
            }
        }
    }
    assert(spec_field(s, 0, 4, ParseErrorKind::YearDigits) == Ok::<int, ParseErrorKind>(year));
    assert(spec_field(s, 5, 7, ParseErrorKind::MonthDigits) == Ok::<int, ParseErrorKind>(month));
    assert(spec_field(s, 8, 10, ParseErrorKind::DayDigits) == Ok::<int, ParseErrorKind>(day));
    assert forall|i: int| 0 <= i < 4 implies '0' <= #[trigger] t[i] <= '9' by {
        assert(t[i] == py[i]);
    }
    assert forall|i: int| 0 <= i < 10 implies #[trigger] t[i] != ' ' && t[i] != ':' by {
        if i < 4 {
            assert(t[i] == py[i]);
        } else if 5 <= i < 7 {
            assert(t[i] == pm[i - 5]);
        } else if 8 <= i < 10 {
            assert(t[i] == pd[i - 8]);
        }
    }
}

/// A time text parses back to its time of day.
pub proof fn lemma_time_text_parses(hour: int, minute: int, second: int, millisecond: int)
    requires
        valid_time(hour, minute, second, millisecond),
    ensures
        time_text(hour, minute, second, millisecond).len() == 12,
        date_time_chars(time_text(hour, minute, second, millisecond)),
        forall|i: int|
            0 <= i < 12 ==> ('0' <= #[trigger] time_text(hour, minute, second, millisecond)[i] <= '9'
                || time_text(hour, minute, second, millisecond)[i] == ':' || time_text(
                hour,
                minute,
                second,
                millisecond,
            )[i] == '.'),
        '0' <= time_text(hour, minute, second, millisecond)[11] <= '9',
        spec_parse_time(ascii(time_text(hour, minute, second, millisecond))) == Ok::<
            (u8, u8, u8, u16),
            ParseErrorKind,
        >((hour as u8, minute as u8, second as u8, millisecond as u16)),
{
    reveal_with_fuel(pow10, 5);
    lemma_padded_field(hour, 2);
    lemma_padded_field(minute, 2);
    lemma_padded_field(second, 2);
    lemma_padded_field(millisecond, 3);
    let t = time_text(hour, minute, second, millisecond);
    let s = ascii(t);
    let ph = padded(hour, 2);
    let pm = padded(minute, 2);
    let ps = padded(second, 2);
    let pl = padded(millisecond, 3);
    assert(s.subrange(0, 2) =~= ascii(ph));
    assert(s.subrange(3, 5) =~= ascii(pm));
    assert(s.subrange(6, 8) =~= ascii(ps));
    assert(s.subrange(9, 12) =~= ascii(pl));
    assert(all_ascii(s)) by {
        assert forall|i: int| 0 <= i < s.len() implies #[trigger] s[i] < 128 by {
            if i < 2 {
                assert(s[i] == s.subrange(0, 2)[i]);
            } else if 3 <= i < 5 {
                assert(s[i] == s.subrange(3, 5)[i - 3]);
            } else if 6 <= i < 8 {
                assert(s[i] == s.subrange(6, 8)[i - 6]);
            } else if 9 <= i < 12 {
                assert(s[i] == s.subrange(9, 12)[i - 9]);
            }
        }
    }
    assert forall|i: int| 0 <= i < t.len() implies ('0' <= #[trigger] t[i] <= '9' || t[i] == ':'
        || t[i] == '.') by {
        if i < 2 {
            assert(t[i] == ph[i]);
        } else if 3 <= i < 5 {
            assert(t[i] == pm[i - 3]);
        } else if 6 <= i < 8 {
            assert(t[i] == ps[i - 6]);
        } else if 9 <= i < 12 {
            assert(t[i] == pl[i - 9]);
        }
    }
    assert(spec_field(s, 0, 2, ParseErrorKind::HourDigits) == Ok::<int, ParseErrorKind>(hour));
    assert(spec_field(s, 3, 5, ParseErrorKind::MinuteDigits) == Ok::<int, ParseErrorKind>(minute));
    assert(spec_field(s, 6, 8, ParseErrorKind::SecondDigits) == Ok::<int, ParseErrorKind>(second));
    assert(spec_field(s, 9, 12, ParseErrorKind::MillisecondDigits) == Ok::<int, ParseErrorKind>(
        millisecond,
    ));
}


/// ASCII characters encode to one byte each.
pub proof fn lemma_ascii_encoding(t: Seq<char>)
    requires
        date_time_chars(t),
    ensures
        encode_utf8(t) == ascii(t),
{
    assert(is_ascii_chars(t)) by {
        assert forall|i: int| 0 <= i < t.len() implies '\0' <= #[trigger] t[i] <= '\u{7f}' by {
            assert('0' <= t[i] <= '9' || t[i] == '-' || t[i] == ' ' || t[i] == ':' || t[i] == '.');
        }
    }
    is_ascii_chars_encode_utf8(t);
    assert(encode_utf8(t) =~= ascii(t));
}

/// Formatting a date and time and parsing the text gives the same date and
/// time back, for every year from 0 to 9999.
pub proof fn law_date_time_text_round_trip(date_time: DateTime)
    requires
        date_time.well_formed(),
        0 <= date_time.spec_year() <= 9999,
    ensures
        DateTime::spec_parse(encode_utf8(date_time.spec_text())) == Ok::<
            DateTime,
            crate::parse::ParseDateTimeError,
        >(date_time),
{
    DateTime::lemma_well_formed(date_time);
    let y = date_time.spec_year() as int;
    let mo = date_time.spec_month() as int;
    let d = date_time.spec_day() as int;
    let h = date_time.spec_hour() as int;
    let mi = date_time.spec_minute() as int;
    let se = date_time.spec_second() as int;
    let ms = date_time.spec_millisecond() as int;
    lemma_date_text_parses(y, mo, d);
    lemma_time_text_parses(h, mi, se, ms);
    let dt = date_text(y, mo, d);
    let tt = time_text(h, mi, se, ms);
    let t = date_time.spec_text();
    assert(t =~= dt + seq![' '] + tt);
    assert(date_time_chars(t)) by {
        assert forall|i: int| 0 <= i < t.len() implies ('0' <= #[trigger] t[i] <= '9' || t[i] == '-'
            || t[i] == ' ' || t[i] == ':' || t[i] == '.') by {
            if i < 10 {
                assert(t[i] == dt[i]);
            } else if i > 10 {
                assert(t[i] == tt[i - 11]);
            }
        }
    }
    lemma_ascii_encoding(t);
    let b = ascii(t);
    assert(b.last() == tt[11] as u8);
    assert(spec_split_rfc3339(b) == Ok::<Option<int>, ParseErrorKind>(None));
    assert forall|j: int| 0 <= j < 10 implies #[trigger] b[j] != 32 by {
        assert(b[j] == dt[j] as u8);
    }
    lemma_first_index(b, 32, 10);
    assert(b.subrange(0, 10) =~= ascii(dt));
    assert(b.subrange(11, b.len() as int) =~= ascii(tt));
    DateTime::lemma_from_fields(
        y as i32,
        mo as u8,
        d as u8,
        h as u8,
        mi as u8,
        se as u8,
        ms as u16,
    );
    DateTime::lemma_fields_determine(
        DateTime::spec_from_fields(y as i32, mo as u8, d as u8, h as u8, mi as u8, se as u8, ms as u16),
        date_time,
    );
}


/// The `HH:mm` and `HH:mm:ss` prefixes of a time text parse back to the
/// time of day with the dropped fields zero.
proof fn lemma_time_prefix_parses(hour: int, minute: int, second: int, millisecond: int, k: int)
    requires
        valid_time(hour, minute, second, millisecond),
        k == 5 || k == 8,
    ensures
        time_text(hour, minute, second, millisecond).subrange(0, k).len() == k,
        date_time_chars(time_text(hour, minute, second, millisecond).subrange(0, k)),
        '0' <= time_text(hour, minute, second, millisecond).subrange(0, k)[k - 1] <= '9',
        spec_parse_time(ascii(time_text(hour, minute, second, millisecond).subrange(0, k)))
            == Ok::<(u8, u8, u8, u16), ParseErrorKind>(
            (hour as u8, minute as u8, (if k == 8 { second } else { 0 }) as u8, 0u16),
        ),
{
    lemma_time_text_parses(hour, minute, second, millisecond);
    let t = time_text(hour, minute, second, millisecond);
    let s = ascii(t);
    let q = t.subrange(0, k);
    let p = ascii(q);
    assert(p =~= s.subrange(0, k));
    assert(p.subrange(0, 2) =~= s.subrange(0, 2));
    assert(p.subrange(3, 5) =~= s.subrange(3, 5));
    if k == 8 {
        assert(p.subrange(6, 8) =~= s.subrange(6, 8));
        assert(p[5] == s[5]);
    }
    assert(all_ascii(s));
    assert(all_ascii(p)) by {
        assert forall|i: int| 0 <= i < p.len() implies #[trigger] p[i] < 128 by {
            assert(p[i] == s[i]);
        }
    }
    assert(date_time_chars(q)) by {
        assert forall|i: int| 0 <= i < q.len() implies ('0' <= #[trigger] q[i] <= '9' || q[i] == '-'
            || q[i] == ' ' || q[i] == ':' || q[i] == '.') by {
            assert(q[i] == t[i]);
        }
    }
    assert(q[k - 1] == t[k - 1]);
    assert(t[k - 1] != ':' && t[k - 1] != '.') by {
        assert(s[k - 1] != 58 && s[k - 1] != 46);
    }
    assert(p[2] == s[2]);
}

/// The texts without milliseconds or seconds: formatting a date and time as
/// `yyyy-MM-dd HH:mm:ss` (or `yyyy-MM-dd HH:mm`) and parsing the text gives
/// the date and time with its milliseconds (and seconds) set to zero, for
/// every year from 0 to 9999.
pub proof fn law_date_time_short_texts_round_trip(date_time: DateTime)
    requires
        date_time.well_formed(),
        0 <= date_time.spec_year() <= 9999,
    ensures
        DateTime::spec_parse(encode_utf8(date_time.spec_text_secs())) == DateTime::spec_new(
            date_time.spec_year(),
            date_time.spec_month(),
            date_time.spec_day(),
            date_time.spec_hour(),
            date_time.spec_minute(),
            date_time.spec_second(),
            0,
        ),
        DateTime::spec_parse(encode_utf8(date_time.spec_text_mins())) == DateTime::spec_new(
            date_time.spec_year(),
            date_time.spec_month(),
            date_time.spec_day(),
            date_time.spec_hour(),
            date_time.spec_minute(),
            0,
            0,
        ),
{
    DateTime::lemma_well_formed(date_time);
    let y = date_time.spec_year() as int;
    let mo = date_time.spec_month() as int;
    let d = date_time.spec_day() as int;
    let h = date_time.spec_hour() as int;
    let mi = date_time.spec_minute() as int;
    let se = date_time.spec_second() as int;
    let ms = date_time.spec_millisecond() as int;
    let dt = date_text(y, mo, d);
    let tt = time_text(h, mi, se, ms);
    assert(date_time.spec_text_secs() =~= dt + seq![' '] + tt.subrange(0, 8)) by {
        reveal_with_fuel(pow10, 5);
        lemma_padded_field(h, 2);
        lemma_padded_field(mi, 2);
        lemma_padded_field(se, 2);
    }
    assert(date_time.spec_text_mins() =~= dt + seq![' '] + tt.subrange(0, 5)) by {
        reveal_with_fuel(pow10, 5);
        lemma_padded_field(h, 2);
        lemma_padded_field(mi, 2);
    }
    lemma_short_text_parses(y, mo, d, h, mi, se, ms, 8);
    lemma_short_text_parses(y, mo, d, h, mi, se, ms, 5);
}

/// A date text, a space and a `HH:mm` or `HH:mm:ss` time prefix parse to the
/// fields with the dropped ones zero.
proof fn lemma_short_text_parses(
    y: int,
    mo: int,
    d: int,
    h: int,
    mi: int,
    se: int,
    ms: int,
    k: int,
)
    requires
        0 <= y <= 9999,
        valid_date(y, mo, d),
        valid_time(h, mi, se, ms),
        k == 5 || k == 8,
    ensures
        DateTime::spec_parse(
            encode_utf8(date_text(y, mo, d) + seq![' '] + time_text(h, mi, se, ms).subrange(0, k)),
        ) == DateTime::spec_new(
            y as i32,
            mo as u8,
            d as u8,
            h as u8,
            mi as u8,
            (if k == 8 { se } else { 0 }) as u8,
            0,
        ),
{
    lemma_date_text_parses(y, mo, d);
    lemma_time_prefix_parses(h, mi, se, ms, k);
    let dt = date_text(y, mo, d);
    let tp = time_text(h, mi, se, ms).subrange(0, k);
    let t = dt + seq![' '] + tp;
    assert(date_time_chars(t)) by {
        assert forall|i: int| 0 <= i < t.len() implies ('0' <= #[trigger] t[i] <= '9' || t[i] == '-'
            || t[i] == ' ' || t[i] == ':' || t[i] == '.') by {
            if i < 10 {
                assert(t[i] == dt[i]);
            } else if i > 10 {
                assert(t[i] == tp[i - 11]);
            }
        }
    }
    lemma_ascii_encoding(t);
    let b = ascii(t);
    assert(b.last() == tp[k - 1] as u8);
    assert(spec_split_rfc3339(b) == Ok::<Option<int>, ParseErrorKind>(None));
    assert forall|j: int| 0 <= j < 10 implies #[trigger] b[j] != 32 by {
        assert(b[j] == dt[j] as u8);
    }
    lemma_first_index(b, 32, 10);
    assert(b.subrange(0, 10) =~= ascii(dt));
    assert(b.subrange(11, b.len() as int) =~= ascii(tp));
}

/// Every character is a digit, one of the separators `-`, `:`, `.`, or the
/// RFC 3339 markers `T` and `Z`.
pub open spec fn rfc3339_chars(t: Seq<char>) -> bool {
    forall|i: int|
        0 <= i < t.len() ==> ('0' <= #[trigger] t[i] <= '9' || t[i] == '-' || t[i] == ':' || t[i]
            == '.' || t[i] == 'T' || t[i] == 'Z')
}

/// RFC 3339 characters encode to one byte each.
proof fn lemma_rfc3339_encoding(t: Seq<char>)
    requires
        rfc3339_chars(t),
    ensures
        encode_utf8(t) == ascii(t),
{
    assert(is_ascii_chars(t)) by {
        assert forall|i: int| 0 <= i < t.len() implies '\0' <= #[trigger] t[i] <= '\u{7f}' by {
            assert('0' <= t[i] <= '9' || t[i] == '-' || t[i] == ':' || t[i] == '.' || t[i] == 'T'
                || t[i] == 'Z');
        }
    }
    is_ascii_chars_encode_utf8(t);
    assert(encode_utf8(t) =~= ascii(t));
}

/// Text `yyyy-MM-ddTHH:mm:ss.SSSZ` of a date and time.
pub open spec fn rfc3339_millis_text(date_time: DateTime) -> Seq<char> {
    date_text(
        date_time.spec_year() as int,
        date_time.spec_month() as int,
        date_time.spec_day() as int,
    ) + seq!['T'] + time_text(
        date_time.spec_hour() as int,
        date_time.spec_minute() as int,
        date_time.spec_second() as int,
        date_time.spec_millisecond() as int,
    ) + seq!['Z']
}

/// Text `yyyy-MM-ddTHH:mm:ssZ` of a date and time.
pub open spec fn rfc3339_secs_text(date_time: DateTime) -> Seq<char> {
    date_text(
        date_time.spec_year() as int,
        date_time.spec_month() as int,
        date_time.spec_day() as int,
    ) + seq!['T'] + time_text(
        date_time.spec_hour() as int,
        date_time.spec_minute() as int,
        date_time.spec_second() as int,
        date_time.spec_millisecond() as int,
    ).subrange(0, 8) + seq!['Z']
}

/// A date text, `T`, the first `k` characters of a time text (all twelve, or
/// `HH:mm:ss`) and `Z` parse to the fields, milliseconds zero when dropped.
proof fn lemma_rfc3339_text_parses(
    y: int,
    mo: int,
    d: int,
    h: int,
    mi: int,
    se: int,
    ms: int,
    k: int,
)
    requires
        0 <= y <= 9999,
        valid_date(y, mo, d),
        valid_time(h, mi, se, ms),
        k == 8 || k == 12,
    ensures
        DateTime::spec_parse(
            encode_utf8(
                date_text(y, mo, d) + seq!['T'] + time_text(h, mi, se, ms).subrange(0, k) + seq![
                    'Z',
                ],
            ),
        ) == DateTime::spec_new(
            y as i32,
            mo as u8,
            d as u8,
            h as u8,
            mi as u8,
            se as u8,
            (if k == 12 { ms } else { 0 }) as u16,
        ),
{
    lemma_date_text_parses(y, mo, d);
    lemma_time_text_parses(h, mi, se, ms);
    let dt = date_text(y, mo, d);
    let tt = time_text(h, mi, se, ms);
    let tp = tt.subrange(0, k);
    if k == 8 {
        lemma_time_prefix_parses(h, mi, se, ms, 8);
    } else {
        assert(tp =~= tt);
        assert(ascii(tt)[8] == 46);
    }
    let t = dt + seq!['T'] + tp + seq!['Z'];
    assert(t.len() == 12 + k);
    assert(rfc3339_chars(t)) by {
        assert forall|i: int| 0 <= i < t.len() implies ('0' <= #[trigger] t[i] <= '9' || t[i] == '-'
            || t[i] == ':' || t[i] == '.' || t[i] == 'T' || t[i] == 'Z') by {
            if i < 10 {
                assert(t[i] == dt[i]);
                assert(dt[i] != ' ');
            } else if 10 < i < 11 + k {
                assert(t[i] == tp[i - 11]);
                assert(tp[i - 11] == tt[i - 11]);
            }
        }
    }
    lemma_rfc3339_encoding(t);
    let b = ascii(t);
    let without_z = b.drop_last();
    assert(b.last() == 90);
    assert forall|j: int| 0 <= j < 10 implies #[trigger] without_z[j] != 84 by {
        assert(without_z[j] == dt[j] as u8);
        assert(dt[j] != 'T');
    }
    assert(without_z[10] == 84);
    lemma_first_index(without_z, 84, 10);
    if k == 12 {
        assert(without_z[19] == ascii(tt)[8]);
    }
    assert(spec_split_rfc3339(b) == Ok::<Option<int>, ParseErrorKind>(Some(10)));
    assert(b.subrange(0, 10) =~= ascii(dt));
    assert(b.subrange(11, b.len() - 1) =~= ascii(tp));
}

/// Formatting a date and time as RFC 3339 UTC text and parsing it gives it
/// back: `yyyy-MM-ddTHH:mm:ss.SSSZ` gives the same date and time, and
/// `yyyy-MM-ddTHH:mm:ssZ` gives it with its milliseconds zero, for every year
/// from 0 to 9999.
pub proof fn law_rfc3339_text_round_trip(date_time: DateTime)
    requires
        date_time.well_formed(),
        0 <= date_time.spec_year() <= 9999,
    ensures
        DateTime::spec_parse(encode_utf8(rfc3339_millis_text(date_time))) == Ok::<
            DateTime,
            crate::parse::ParseDateTimeError,
        >(date_time),
        DateTime::spec_parse(encode_utf8(rfc3339_secs_text(date_time))) == DateTime::spec_new(
            date_time.spec_year(),
            date_time.spec_month(),
            date_time.spec_day(),
            date_time.spec_hour(),
            date_time.spec_minute(),
            date_time.spec_second(),
            0,
        ),
{
    DateTime::lemma_well_formed(date_time);
    let y = date_time.spec_year() as int;
    let mo = date_time.spec_month() as int;
    let d = date_time.spec_day() as int;
    let h = date_time.spec_hour() as int;
    let mi = date_time.spec_minute() as int;
    let se = date_time.spec_second() as int;
    let ms = date_time.spec_millisecond() as int;
    lemma_rfc3339_text_parses(y, mo, d, h, mi, se, ms, 12);
    lemma_rfc3339_text_parses(y, mo, d, h, mi, se, ms, 8);
    let tt = time_text(h, mi, se, ms);
    assert(tt.subrange(0, 12) =~= tt) by {
        lemma_time_text_parses(h, mi, se, ms);
    }
    DateTime::lemma_from_fields(
        y as i32,
        mo as u8,
        d as u8,
        h as u8,
        mi as u8,
        se as u8,
        ms as u16,
    );
    DateTime::lemma_fields_determine(
        DateTime::spec_from_fields(y as i32, mo as u8, d as u8, h as u8, mi as u8, se as u8, ms as u16),
        date_time,
    );
}

/// Formatting a date and parsing the text gives the same date back, for
/// every year from 0 to 9999.
pub proof fn law_date_text_round_trip(date: Date)
    requires
        date.well_formed(),
        0 <= date.spec_year() <= 9999,
    ensures
        Date::spec_parse(encode_utf8(date.spec_text())) == Ok::<Date, crate::parse::ParseDateTimeError>(
            date,
        ),
{
    date.lemma_well_formed();
    let y = date.spec_year() as int;
    let mo = date.spec_month() as int;
    let d = date.spec_day() as int;
    lemma_date_text_parses(y, mo, d);
    let t = date.spec_text();
    lemma_ascii_encoding(t);
    let b = ascii(t);
    assert(b.last() == t[9] as u8);
    assert(spec_split_rfc3339(b) == Ok::<Option<int>, ParseErrorKind>(None));
    assert forall|j: int| 0 <= j < b.len() implies #[trigger] b[j] != 32 by {
        assert(b[j] == t[j] as u8);
    }
    lemma_first_index_none(b, 32);
    assert(b[4] == 45);
    assert(holds_byte(b, 45));
    DateTime::lemma_from_fields(y as i32, mo as u8, d as u8, 0, 0, 0, 0);
    let midnight = DateTime::spec_from_fields(y as i32, mo as u8, d as u8, 0, 0, 0, 0);
    DateTime::lemma_parts(midnight);
    Date::lemma_fields_determine(midnight.spec_date(), date);
}

/// Formatting a time of day and parsing the text gives the same time back.
pub proof fn law_time_text_round_trip(time: Time)
    requires
        time.well_formed(),
    ensures
        Time::spec_parse(encode_utf8(time.spec_text())) == Ok::<Time, crate::parse::ParseDateTimeError>(
            time,
        ),
{
    time.lemma_well_formed();
    let h = time.spec_hour() as int;
    let mi = time.spec_minute() as int;
    let se = time.spec_second() as int;
    let ms = time.spec_millisecond() as int;
    lemma_time_text_parses(h, mi, se, ms);
    let t = time.spec_text();
    assert(t =~= time_text(h, mi, se, ms));
    lemma_ascii_encoding(t);
    let b = ascii(t);
    assert(b.last() == t[11] as u8);
    assert(spec_split_rfc3339(b) == Ok::<Option<int>, ParseErrorKind>(None));
    assert forall|j: int| 0 <= j < b.len() implies #[trigger] b[j] != 32 && b[j] != 45 by {
        assert(b[j] == t[j] as u8);
        assert('0' <= t[j] <= '9' || t[j] == ':' || t[j] == '.');
    }
    lemma_first_index_none(b, 32);
    assert(!holds_byte(b, 45));
    assert(b[2] == 58);
    assert(holds_byte(b, 58));
    DateTime::lemma_from_fields(1970, 1, 1, h as u8, mi as u8, se as u8, ms as u16);
    let on_epoch_date = DateTime::spec_from_fields(1970, 1, 1, h as u8, mi as u8, se as u8, ms as u16);
    DateTime::lemma_parts(on_epoch_date);
    Time::lemma_fields_determine(on_epoch_date.spec_time(), time);
}

} // verus!
