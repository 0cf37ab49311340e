//! Naming of uploaded images (`YYYYMMDD_HHMMSS_mmm.png`, in UTC) and the
//! choice of the newest upload of a user.

use chrono::{Datelike, NaiveDate, NaiveDateTime, Timelike};
use vstd::prelude::*;
use vstd::string::*;

use crate::paths::join_path;
use crate::text::{chars_of, decimal, digit_char, string_from_chars, trim_start};

verus! {

/// The strftime pattern of the upload time in file names.
pub const TIMESTAMP_FORMAT: &'static str = "%Y%m%d_%H%M%S_%3f";

/// The extension of uploaded images.
pub const PNG_SUFFIX: &'static str = ".png";

/// A UTC date and time as the `chrono` crate holds it: a proleptic Gregorian
/// date in its year range and a time of day whose nanosecond part goes up
/// to two seconds for a leap second at second 59.
#[derive(Debug, Clone, Copy, PartialEq, Eq, PartialOrd, Ord, Hash)]
pub struct UploadTime {
    year: i32,
    month: u32,
    day: u32,
    hour: u32,
    minute: u32,
    second: u32,
    nanosecond: u32,
}

pub open spec fn is_leap_year(y: int) -> bool {
    y % 4 == 0 && (y % 100 != 0 || y % 400 == 0)
}

pub open spec fn days_in_month(y: int, m: int) -> int {
    if m == 2 {
        if is_leap_year(y) {
            29
        } else {
            28
        }
    } else if m == 4 || m == 6 || m == 9 || m == 11 {
        30
    } else {
        31
    }
}

/// The dates and times that `chrono` represents.
pub open spec fn valid_parts(y: int, mo: int, d: int, h: int, mi: int, s: int, nano: int) -> bool {
    &&& -262143 <= y <= 262142
    &&& 1 <= mo <= 12
    &&& 1 <= d <= days_in_month(y, mo)
    &&& 0 <= h < 24
    &&& 0 <= mi < 60
    &&& 0 <= s < 60
    &&& 0 <= nano < 2_000_000_000
    &&& (nano >= 1_000_000_000 ==> s == 59)
}

impl UploadTime {
    #[verifier::type_invariant]
    spec fn inv(self) -> bool {
        valid_parts(
            self.year as int,
            self.month as int,
            self.day as int,
            self.hour as int,
            self.minute as int,
            self.second as int,
            self.nanosecond as int,
        )
    }

    pub closed spec fn parts(self) -> (int, int, int, int, int, int, int) {
        (
            self.year as int,
            self.month as int,
            self.day as int,
            self.hour as int,
            self.minute as int,
            self.second as int,
            self.nanosecond as int,
        )
    }

    /// The time with these components, if `chrono` can represent it.
    pub fn new(
        year: i32,
        month: u32,
        day: u32,
        hour: u32,
        minute: u32,
        second: u32,
        nanosecond: u32,
    ) -> (r: Option<UploadTime>)
        ensures
            r is Some <==> valid_parts(
                year as int,
                month as int,
                day as int,
                hour as int,
                minute as int,
                second as int,
                nanosecond as int,
            ),
            r matches Some(t) ==> t.parts() == (
                year as int,
                month as int,
                day as int,
                hour as int,
                minute as int,
                second as int,
                nanosecond as int,
            ),
    {
        if year < -262143 || year > 262142 || month < 1 || month > 12 || day < 1 || hour >= 24
            || minute >= 60 || second >= 60 || nanosecond >= 2_000_000_000 || (nanosecond
            >= 1_000_000_000 && second != 59) {
            return None;
        }
        let leap = year % 4 == 0 && (year % 100 != 0 || year % 400 == 0);
        let max_day: u32 = if month == 2 {
            if leap {
                29
            } else {
                28
            }
        } else if month == 4 || month == 6 || month == 9 || month == 11 {
            30
        } else {
            31
        };
        if day > max_day {
            return None;
        }
        Some(UploadTime { year, month, day, hour, minute, second, nanosecond })
    }

    pub fn year(&self) -> (v: i32)
        ensures
            v as int == self.parts().0,
    {
        self.year
    }

    pub fn month(&self) -> (v: u32)
        ensures
            v as int == self.parts().1,
    {
        self.month
    }

    pub fn day(&self) -> (v: u32)
        ensures
            v as int == self.parts().2,
    {
        self.day
    }

    pub fn hour(&self) -> (v: u32)
        ensures
            v as int == self.parts().3,
    {
        self.hour
    }

    pub fn minute(&self) -> (v: u32)
        ensures
            v as int == self.parts().4,
    {
        self.minute
    }

    pub fn second(&self) -> (v: u32)
        ensures
            v as int == self.parts().5,
    {
        self.second
    }

    pub fn nanosecond(&self) -> (v: u32)
        ensures
            v as int == self.parts().6,
    {
        self.nanosecond
    }

}

pub open spec fn pad2(n: int) -> Seq<char> {
    seq![digit_char((n / 10) as nat), digit_char((n % 10) as nat)]
}

pub open spec fn pad3(n: int) -> Seq<char> {
    seq![digit_char((n / 100) as nat), digit_char((n / 10 % 10) as nat), digit_char((n % 10) as nat)]
}

pub open spec fn pad4(n: int) -> Seq<char> {
    pad2(n / 100) + pad2(n % 100)
}

pub open spec fn pad6(n: int) -> Seq<char> {
    pad3(n / 1000) + pad3(n % 1000)
}

pub open spec fn pad9(n: int) -> Seq<char> {
    pad3(n / 1_000_000) + pad3(n / 1000 % 1000) + pad3(n % 1000)
}

/// A year as `chrono` writes it: four digits from 0 to 9999, else a sign
/// and at least four digits.
pub open spec fn year_text(y: int) -> Seq<char> {
    if 0 <= y <= 9999 {
        pad4(y)
    } else if y > 9999 {
        seq!['+'] + decimal(y as nat)
    } else if y > -10000 {
        seq!['-'] + pad4(-y)
    } else {
        seq!['-'] + decimal((-y) as nat)
    }
}

/// `%Y%m%d_%H%M%S_%3f`: the year as `year_text`, zero-padded fields, the
/// leap second shown as second 60, and the milliseconds of the nanosecond
/// part within its second.
pub open spec fn stem_text(p: (int, int, int, int, int, int, int)) -> Seq<char> {
    year_text(p.0) + pad2(p.1) + pad2(p.2) + seq!['_'] + pad2(p.3) + pad2(p.4) + pad2(
        p.5 + p.6 / 1_000_000_000,
    ) + seq!['_'] + pad3(p.6 / 1_000_000 % 1000)
}

/// RFC 3339 in UTC, the year as `year_text`, with as many fraction digits
/// (none, 3, 6 or 9) as the nanoseconds need.
pub open spec fn rfc3339_text(p: (int, int, int, int, int, int, int)) -> Seq<char> {
    let sec = p.5 + p.6 / 1_000_000_000;
    let nano = p.6 % 1_000_000_000;
    let frac = if nano == 0 {
        Seq::<char>::empty()
    } else if nano % 1_000_000 == 0 {
        seq!['.'] + pad3(nano / 1_000_000)
    } else if nano % 1000 == 0 {
        seq!['.'] + pad6(nano / 1000)
    } else {
        seq!['.'] + pad9(nano)
    };
    year_text(p.0) + seq!['-'] + pad2(p.1) + seq!['-'] + pad2(p.2) + seq!['T'] + pad2(p.3) + seq![':']
        + pad2(p.4) + seq![':'] + pad2(sec) + frac + seq!['+', '0', '0', ':', '0', '0']
}

/// Names what `chrono` reads from a text with `TIMESTAMP_FORMAT`.
pub uninterp spec fn read_stem(stem: Seq<char>) -> Option<UploadTime>;

pub open spec fn is_digit(c: char) -> bool {
    '0' as int <= c as int <= '9' as int
}

pub open spec fn dval(c: char) -> int {
    c as int - '0' as int
}

/// What every text that `chrono` reads with `TIMESTAMP_FORMAT` has: after
/// leading white space, a digit or a sign (the year comes first), and two
/// `_` (the two literal separators of the format).
pub open spec fn may_read_as_stem(s: Seq<char>) -> bool {
    &&& trim_start(s).len() > 0
    &&& (is_digit(trim_start(s)[0]) || trim_start(s)[0] == '+' || trim_start(s)[0] == '-')
    &&& exists|i: int, j: int| 0 <= i < j < s.len() && #[trigger] s[i] == '_' && #[trigger] s[j] == '_'
}

/// The form that `TIMESTAMP_FORMAT` writes for years 0 to 9999: eight
/// digits, `_`, six digits, `_`, three digits.
pub open spec fn is_canonical_stem(s: Seq<char>) -> bool {
    &&& s.len() == 19
    &&& s[8] == '_'
    &&& s[15] == '_'
    &&& forall|i: int| 0 <= i < 19 && i != 8 && i != 15 ==> is_digit(#[trigger] s[i])
}

/// The fields of a canonical text, the leap second 60 read as second 59
/// with one more second of nanoseconds.
pub open spec fn canonical_parts(s: Seq<char>) -> (int, int, int, int, int, int, int) {
    let year = dval(s[0]) * 1000 + dval(s[1]) * 100 + dval(s[2]) * 10 + dval(s[3]);
    let month = dval(s[4]) * 10 + dval(s[5]);
    let day = dval(s[6]) * 10 + dval(s[7]);
    let hour = dval(s[9]) * 10 + dval(s[10]);
    let minute = dval(s[11]) * 10 + dval(s[12]);
    let second = dval(s[13]) * 10 + dval(s[14]);
    let millis = dval(s[16]) * 100 + dval(s[17]) * 10 + dval(s[18]);
    if second == 60 {
        (year, month, day, hour, minute, 59, 1_000_000_000 + millis * 1_000_000)
    } else {
        (year, month, day, hour, minute, second, millis * 1_000_000)
    }
}

/// What `chrono` reads from a canonical text: the time of its fields when it
/// exists (a second field above 60 never does).
pub open spec fn canonical_reading_fits(s: Seq<char>, r: Option<UploadTime>) -> bool {
    let p = canonical_parts(s);
    let second_field = dval(s[13]) * 10 + dval(s[14]);
    if second_field <= 60 && valid_parts(p.0, p.1, p.2, p.3, p.4, p.5, p.6) {
        r matches Some(t) && t.parts() == p
    } else {
        r is None
    }
}


/// A text that ends with `.png`.
pub open spec fn has_png_suffix(name: Seq<char>) -> bool {
    name.len() >= 4 && name.subrange(name.len() - 4, name.len() as int) =~= seq![
        '.',
        'p',
        'n',
        'g',
    ]
}

/// The file name of an upload completed at `t`.
pub fn format_upload_filename(t: UploadTime) -> (name: String)
    ensures
        name@ == stem_text(t.parts()) + seq!['.', 'p', 'n', 'g'],
{
    proof {
        use_type_invariant(&t);
    }
    let mut name = chrono_format_stem(t);
    name.push('.');
    name.push('p');
    name.push('n');
    name.push('g');
    name
}

/// The upload time that a file name carries: the text before `.png` read
/// with `TIMESTAMP_FORMAT`; `None` for any other name.
pub fn parse_upload_filename(file_name: &str) -> (r: Option<UploadTime>)
    ensures
        r == if has_png_suffix(file_name@) {
            read_stem(file_name@.take(file_name@.len() - 4))
        } else {
            None
        },
        has_png_suffix(file_name@) && is_canonical_stem(file_name@.take(file_name@.len() - 4))
            ==> canonical_reading_fits(file_name@.take(file_name@.len() - 4), r),
        r is Some ==> has_png_suffix(file_name@) && may_read_as_stem(
            file_name@.take(file_name@.len() - 4),
        ),
{
    let chars = chars_of(file_name);
    let n = chars.len();
    if n < 4 || chars[n - 4] != '.' || chars[n - 3] != 'p' || chars[n - 2] != 'n' || chars[n - 1]
        != 'g' {
        proof {
            if n >= 4 {
                let sfx = chars@.subrange(n - 4, n as int);
                if sfx =~= seq!['.', 'p', 'n', 'g'] {
                    assert(sfx[0] == chars@[n - 4]);
                    assert(sfx[1] == chars@[n - 3]);
                    assert(sfx[2] == chars@[n - 2]);
                    assert(sfx[3] == chars@[n - 1]);
                }
            }
        }
        return None;
    }
    proof {
        assert(chars@.subrange(n - 4, n as int) =~= seq!['.', 'p', 'n', 'g']);
    }
    let mut stem: Vec<char> = Vec::new();
    let mut i: usize = 0;
    while i < n - 4
        invariant
            n == chars.len(),
            n >= 4,
            i <= n - 4,
            stem@ == chars@.take(i as int),
        decreases n - 4 - i,
    {
        stem.push(chars[i]);
        i = i + 1;
        proof {
            assert(stem@ =~= chars@.take(i as int));
        }
    }
    let stem_text = string_from_chars(&stem);
    chrono_read_stem(stem_text.as_str())
}

/// The digit character of a number from 0 to 9 reads back as that number.
proof fn lemma_digit(d: int)
    requires
        0 <= d <= 9,
    ensures
        is_digit(digit_char(d as nat)),
        dval(digit_char(d as nat)) == d,
{
}

/// The stem of a time with a year from 0 to 9999 and a whole number of
/// milliseconds is in the canonical form, and its fields are that time:
/// what `format_upload_filename` writes, `parse_upload_filename` reads back
/// as the same time.
pub proof fn lemma_stem_reads_back(p: (int, int, int, int, int, int, int))
    requires
        valid_parts(p.0, p.1, p.2, p.3, p.4, p.5, p.6),
        0 <= p.0 <= 9999,
        p.6 % 1_000_000 == 0,
    ensures
        is_canonical_stem(stem_text(p)),
        canonical_parts(stem_text(p)) == p,
{
    let y = p.0;
    let sec = p.5 + p.6 / 1_000_000_000;
    let ms = p.6 / 1_000_000 % 1000;
    let s = stem_text(p);
    let ds = seq![
        y / 100 / 10, y / 100 % 10, y % 100 / 10, y % 100 % 10,
        p.1 / 10, p.1 % 10, p.2 / 10, p.2 % 10,
        p.3 / 10, p.3 % 10, p.4 / 10, p.4 % 10, sec / 10, sec % 10,
        ms / 100, ms / 10 % 10, ms % 10,
    ];
    assert forall|k: int| 0 <= k < 17 implies 0 <= #[trigger] ds[k] <= 9 by {}
    let expected = seq![
        digit_char(ds[0] as nat), digit_char(ds[1] as nat), digit_char(ds[2] as nat),
        digit_char(ds[3] as nat), digit_char(ds[4] as nat), digit_char(ds[5] as nat),
        digit_char(ds[6] as nat), digit_char(ds[7] as nat), '_', digit_char(ds[8] as nat),
        digit_char(ds[9] as nat), digit_char(ds[10] as nat), digit_char(ds[11] as nat),
        digit_char(ds[12] as nat), digit_char(ds[13] as nat), '_', digit_char(ds[14] as nat),
        digit_char(ds[15] as nat), digit_char(ds[16] as nat),
    ];
    assert(s =~= expected);
    assert forall|i: int| 0 <= i < 19 && i != 8 && i != 15 implies is_digit(#[trigger] s[i]) by {
        let k = if i < 8 {
            i
        } else if i < 15 {
            i - 1
        } else {
            i - 2
        };
        lemma_digit(ds[k]);
    }
    assert forall|k: int| 0 <= k < 17 implies dval(digit_char(#[trigger] ds[k] as nat)) == ds[k] by {
        lemma_digit(ds[k]);
    }
    assert(dval(s[0]) == ds[0]);
    assert(dval(s[1]) == ds[1]);
    assert(dval(s[2]) == ds[2]);
    assert(dval(s[3]) == ds[3]);
    assert(dval(s[4]) == ds[4]);
    assert(dval(s[5]) == ds[5]);
    assert(dval(s[6]) == ds[6]);
    assert(dval(s[7]) == ds[7]);
    assert(dval(s[9]) == ds[8]);
    assert(dval(s[10]) == ds[9]);
    assert(dval(s[11]) == ds[10]);
    assert(dval(s[12]) == ds[11]);
    assert(dval(s[13]) == ds[12]);
    assert(dval(s[14]) == ds[13]);
    assert(dval(s[16]) == ds[14]);
    assert(dval(s[17]) == ds[15]);
    assert(dval(s[18]) == ds[16]);
}

/// Times with the same fields are the same time.
pub proof fn lemma_parts_determine_time(a: UploadTime, b: UploadTime)
    requires
        a.parts() == b.parts(),
    ensures
        a == b,
{
}


pub open spec fn pow10(n: nat) -> int
    decreases n,
{
    if n == 0 {
        1
    } else {
        10 * pow10((n - 1) as nat)
    }
}

pub open spec fn all_digits(s: Seq<char>) -> bool {
    forall|i: int| 0 <= i < s.len() ==> is_digit(#[trigger] s[i])
}

/// The number that a string of decimal digits writes.
pub open spec fn digits_value(s: Seq<char>) -> int
    decreases s.len(),
{
    if s.len() == 0 {
        0
    } else {
        dval(s[0]) * pow10((s.len() - 1) as nat) + digits_value(s.drop_first())
    }
}

proof fn lemma_pow10_pos(n: nat)
    ensures
        pow10(n) >= 1,
    decreases n,
{
    if n > 0 {
        lemma_pow10_pos((n - 1) as nat);
    }
}

proof fn lemma_digits_value_bound(s: Seq<char>)
    requires
        all_digits(s),
    ensures
        0 <= digits_value(s) < pow10(s.len()),
    decreases s.len(),
{
    if s.len() > 0 {
        assert(is_digit(s[0]));
        assert(all_digits(s.drop_first())) by {
            assert forall|i: int| 0 <= i < s.drop_first().len() implies is_digit(
                #[trigger] s.drop_first()[i],
            ) by {
                assert(s.drop_first()[i] == s[i + 1]);
            }
        }
        lemma_digits_value_bound(s.drop_first());
        lemma_pow10_pos((s.len() - 1) as nat);
        let p = pow10((s.len() - 1) as nat);
        assert(dval(s[0]) * p + digits_value(s.drop_first()) < pow10(s.len())) by (nonlinear_arith)
            requires
                0 <= dval(s[0]) <= 9,
                0 <= digits_value(s.drop_first()) < p,
                pow10(s.len()) == 10 * p,
        ;
        assert(dval(s[0]) * p >= 0) by (nonlinear_arith)
            requires
                0 <= dval(s[0]) <= 9,
                p >= 1,
        ;
    }
}

proof fn lemma_digits_drop_first(s: Seq<char>)
    requires
        all_digits(s),
        s.len() > 0,
    ensures
        all_digits(s.drop_first()),
{
    assert forall|i: int| 0 <= i < s.drop_first().len() implies is_digit(
        #[trigger] s.drop_first()[i],
    ) by {
        assert(s.drop_first()[i] == s[i + 1]);
    }
}

/// On digit strings of one length, text order is numeric order.
proof fn lemma_digits_order(a: Seq<char>, b: Seq<char>)
    requires
        a.len() == b.len(),
        all_digits(a),
        all_digits(b),
    ensures
        text_lt(a, b) <==> digits_value(a) < digits_value(b),
        a == b <==> digits_value(a) == digits_value(b),
    decreases a.len(),
{
    if a.len() == 0 {
        assert(a =~= b);
    } else {
        lemma_digits_drop_first(a);
        lemma_digits_drop_first(b);
        lemma_digits_order(a.drop_first(), b.drop_first());
        lemma_digits_value_bound(a.drop_first());
        lemma_digits_value_bound(b.drop_first());
        let p = pow10((a.len() - 1) as nat);
        lemma_pow10_pos((a.len() - 1) as nat);
        assert(is_digit(a[0]) && is_digit(b[0]));
        let x = dval(a[0]);
        let y = dval(b[0]);
        let ra = digits_value(a.drop_first());
        let rb = digits_value(b.drop_first());
        if x < y {
            assert(x * p + ra < y * p + rb) by (nonlinear_arith)
                requires
                    x < y,
                    0 <= ra < p,
                    0 <= rb,
            ;
        } else if y < x {
            assert(y * p + rb < x * p + ra) by (nonlinear_arith)
                requires
                    y < x,
                    0 <= rb < p,
                    0 <= ra,
            ;
        } else {
            assert(a[0] == b[0]);
            if a.drop_first() == b.drop_first() {
                assert forall|i: int| 0 <= i < a.len() implies a[i] == b[i] by {
                    if i > 0 {
                        assert(a[i] == a.drop_first()[i - 1]);
                        assert(b[i] == b.drop_first()[i - 1]);
                    }
                }
                assert(a =~= b);
            }
        }
    }
}

/// Text order of two texts with prefixes of one length: the prefixes decide
/// unless they are equal.
proof fn lemma_text_lt_concat(x: Seq<char>, y: Seq<char>, x2: Seq<char>, y2: Seq<char>)
    requires
        x.len() == x2.len(),
    ensures
        text_lt(x + y, x2 + y2) == if x == x2 {
            text_lt(y, y2)
        } else {
            text_lt(x, x2)
        },
    decreases x.len(),
{
    if x.len() == 0 {
        assert(x + y =~= y);
        assert(x2 + y2 =~= y2);
        assert(x =~= x2);
    } else {
        assert((x + y)[0] == x[0]);
        assert((x2 + y2)[0] == x2[0]);
        assert((x + y).drop_first() =~= x.drop_first() + y);
        assert((x2 + y2).drop_first() =~= x2.drop_first() + y2);
        lemma_text_lt_concat(x.drop_first(), y, x2.drop_first(), y2);
        if x[0] == x2[0] && x.drop_first() == x2.drop_first() {
            assert forall|i: int| 0 <= i < x.len() implies x[i] == x2[i] by {
                if i > 0 {
                    assert(x[i] == x.drop_first()[i - 1]);
                    assert(x2[i] == x2.drop_first()[i - 1]);
                }
            }
            assert(x =~= x2);
        }
    }
}

proof fn lemma_pow10_small()
    ensures
        pow10(0) == 1,
        pow10(1) == 10,
        pow10(2) == 100,
        pow10(3) == 1000,
        pow10(4) == 10000,
{
    assert(pow10(0) == 1);
    assert(pow10(1) == 10 * pow10(0));
    assert(pow10(2) == 10 * pow10(1));
    assert(pow10(3) == 10 * pow10(2));
    assert(pow10(4) == 10 * pow10(3));
}

proof fn lemma_value_short(s: Seq<char>)
    requires
        1 <= s.len() <= 3,
    ensures
        s.len() == 1 ==> digits_value(s) == dval(s[0]),
        s.len() == 2 ==> digits_value(s) == dval(s[0]) * 10 + dval(s[1]),
        s.len() == 3 ==> digits_value(s) == dval(s[0]) * 100 + dval(s[1]) * 10 + dval(s[2]),
{
    lemma_pow10_small();
    let t = s.drop_first();
    assert(digits_value(s) == dval(s[0]) * pow10((s.len() - 1) as nat) + digits_value(t));
    if s.len() == 1 {
        assert(digits_value(t) == 0);
    } else {
        let u = t.drop_first();
        assert(t[0] == s[1]);
        assert(digits_value(t) == dval(t[0]) * pow10((t.len() - 1) as nat) + digits_value(u));
        if s.len() == 2 {
            assert(digits_value(u) == 0);
        } else {
            let w = u.drop_first();
            assert(u[0] == s[2]);
            assert(digits_value(u) == dval(u[0]) * pow10((u.len() - 1) as nat) + digits_value(w));
            assert(digits_value(w) == 0);
        }
    }
}

#[verifier::spinoff_prover]
proof fn lemma_pad_digits(n: int)
    requires
        0 <= n < 10000,
    ensures
        n < 100 ==> all_digits(pad2(n)) && digits_value(pad2(n)) == n,
        n < 1000 ==> all_digits(pad3(n)) && digits_value(pad3(n)) == n,
        all_digits(pad4(n)) && digits_value(pad4(n)) == n,
{
    lemma_pow10_small();
    lemma_digit(n / 10 % 10);
    lemma_digit(n % 10);
    if n < 100 {
        lemma_digit(n / 10);
        lemma_value_short(pad2(n));
    }
    if n < 1000 {
        lemma_digit(n / 100);
        lemma_value_short(pad3(n));
    }
    let hi = n / 100;
    let lo = n % 100;
    lemma_digit(hi / 10);
    lemma_digit(hi % 10);
    lemma_digit(lo / 10);
    lemma_digit(lo % 10);
    lemma_value_short(pad2(hi));
    lemma_value_short(pad2(lo));
    lemma_digits_concat(pad2(hi), pad2(lo));
}

proof fn lemma_digits_concat(a: Seq<char>, b: Seq<char>)
    requires
        all_digits(a),
        all_digits(b),
    ensures
        all_digits(a + b),
        digits_value(a + b) == digits_value(a) * pow10(b.len()) + digits_value(b),
    decreases a.len(),
{
    assert(all_digits(a + b)) by {
        assert forall|i: int| 0 <= i < (a + b).len() implies is_digit(#[trigger] (a + b)[i]) by {
            if i < a.len() {
                assert((a + b)[i] == a[i]);
            } else {
                assert((a + b)[i] == b[i - a.len()]);
            }
        }
    }
    if a.len() == 0 {
        assert(a + b =~= b);
    } else {
        lemma_digits_drop_first(a);
        lemma_digits_concat(a.drop_first(), b);
        assert((a + b).drop_first() =~= a.drop_first() + b);
        lemma_pow10_add((a.len() - 1) as nat, b.len());
        let p = pow10((a.len() - 1) as nat);
        let q = pow10(b.len());
        assert(dval(a[0]) * (p * q) == (dval(a[0]) * p) * q) by (nonlinear_arith);
        assert((dval(a[0]) * p + digits_value(a.drop_first())) * q == dval(a[0]) * p * q
            + digits_value(a.drop_first()) * q) by (nonlinear_arith);
    }
}

proof fn lemma_pow10_add(m: nat, n: nat)
    ensures
        pow10(m + n) == pow10(m) * pow10(n),
    decreases m,
{
    if m > 0 {
        lemma_pow10_add((m - 1) as nat, n);
        assert(pow10(m + n) == 10 * pow10((m - 1 + n) as nat));
        assert(10 * (pow10((m - 1) as nat) * pow10(n)) == (10 * pow10((m - 1) as nat)) * pow10(n))
            by (nonlinear_arith);
    }
}

/// Lexicographic order of the fields of two times, which is their order in
/// time.
pub open spec fn parts_lt(p: (int, int, int, int, int, int, int), q: (int, int, int, int, int, int, int)) -> bool {
    ||| p.0 < q.0
    ||| p.0 == q.0 && p.1 < q.1
    ||| p.0 == q.0 && p.1 == q.1 && p.2 < q.2
    ||| p.0 == q.0 && p.1 == q.1 && p.2 == q.2 && p.3 < q.3
    ||| p.0 == q.0 && p.1 == q.1 && p.2 == q.2 && p.3 == q.3 && p.4 < q.4
    ||| p.0 == q.0 && p.1 == q.1 && p.2 == q.2 && p.3 == q.3 && p.4 == q.4 && p.5 < q.5
    ||| p.0 == q.0 && p.1 == q.1 && p.2 == q.2 && p.3 == q.3 && p.4 == q.4 && p.5 == q.5 && p.6
        < q.6
}

/// The stem as three digit blocks with their numbers.
#[verifier::spinoff_prover]
#[verifier::rlimit(60)]
proof fn lemma_stem_blocks(p: (int, int, int, int, int, int, int))
    requires
        valid_parts(p.0, p.1, p.2, p.3, p.4, p.5, p.6),
        0 <= p.0 <= 9999,
    ensures
        ({
            let a = pad4(p.0) + pad2(p.1) + pad2(p.2);
            let b = pad2(p.3) + pad2(p.4) + pad2(p.5 + p.6 / 1_000_000_000);
            let c = pad3(p.6 / 1_000_000 % 1000);
            &&& stem_text(p) =~= a + (seq!['_'] + (b + (seq!['_'] + c)))
            &&& a.len() == 8 && b.len() == 6 && c.len() == 3
            &&& all_digits(a) && all_digits(b) && all_digits(c)
            &&& digits_value(a) == p.0 * 10000 + p.1 * 100 + p.2
            &&& digits_value(b) == p.3 * 10000 + p.4 * 100 + (p.5 + p.6 / 1_000_000_000)
            &&& digits_value(c) == p.6 / 1_000_000 % 1000
        }),
{
    let sec = p.5 + p.6 / 1_000_000_000;
    let ms = p.6 / 1_000_000 % 1000;
    lemma_pow10_small();
    lemma_pad_digits(p.0);
    lemma_pad_digits(p.1);
    lemma_pad_digits(p.2);
    lemma_pad_digits(p.3);
    lemma_pad_digits(p.4);
    lemma_pad_digits(sec);
    lemma_pad_digits(ms);
    let y4 = pad4(p.0);
    let a0 = y4 + pad2(p.1);
    let a = a0 + pad2(p.2);
    lemma_digits_concat(y4, pad2(p.1));
    assert(digits_value(a0) == p.0 * 100 + p.1);
    lemma_digits_concat(a0, pad2(p.2));
    assert(digits_value(a) == (p.0 * 100 + p.1) * 100 + p.2);
    let b0 = pad2(p.3) + pad2(p.4);
    let b = b0 + pad2(sec);
    lemma_digits_concat(pad2(p.3), pad2(p.4));
    assert(digits_value(b0) == p.3 * 100 + p.4);
    lemma_digits_concat(b0, pad2(sec));
    assert(digits_value(b) == (p.3 * 100 + p.4) * 100 + sec);
    let c = pad3(ms);
    let u = seq!['_'];
    assert(stem_text(p) =~= a + (u + (b + (u + c))));
}

/// The numbers of the digit blocks order two times as their fields do.
proof fn lemma_fields_order(p: (int, int, int, int, int, int, int), q: (int, int, int, int, int, int, int))
    requires
        valid_parts(p.0, p.1, p.2, p.3, p.4, p.5, p.6),
        valid_parts(q.0, q.1, q.2, q.3, q.4, q.5, q.6),
        0 <= p.0 <= 9999,
        0 <= q.0 <= 9999,
        p.6 % 1_000_000 == 0,
        q.6 % 1_000_000 == 0,
    ensures
        ({
            let a1 = p.0 * 10000 + p.1 * 100 + p.2;
            let a2 = q.0 * 10000 + q.1 * 100 + q.2;
            let b1 = p.3 * 10000 + p.4 * 100 + (p.5 + p.6 / 1_000_000_000);
            let b2 = q.3 * 10000 + q.4 * 100 + (q.5 + q.6 / 1_000_000_000);
            let c1 = p.6 / 1_000_000 % 1000;
            let c2 = q.6 / 1_000_000 % 1000;
            parts_lt(p, q) <==> (a1 < a2 || a1 == a2 && (b1 < b2 || b1 == b2 && c1 < c2))
        }),
{
    let k1 = p.6 / 1_000_000;
    let k2 = q.6 / 1_000_000;
    assert(p.6 == k1 * 1_000_000);
    assert(q.6 == k2 * 1_000_000);
    let s1 = p.5 + p.6 / 1_000_000_000;
    let s2 = q.5 + q.6 / 1_000_000_000;
    assert(s1 * 1000 + k1 % 1000 == p.5 * 1000 + k1);
    assert(s2 * 1000 + k2 % 1000 == q.5 * 1000 + k2);
    assert(p.5 < q.5 || p.5 == q.5 && p.6 < q.6 <==> p.5 * 1000 + k1 < q.5 * 1000 + k2);
    assert(s1 < s2 || s1 == s2 && k1 % 1000 < k2 % 1000 <==> p.5 * 1000 + k1 < q.5 * 1000 + k2);
}

/// The storage contract: for upload times with a year from 0 to 9999 and a
/// whole number of milliseconds, the order of the file names as text is the
/// order of the times, so the greatest name is the newest upload.
#[verifier::spinoff_prover]
#[verifier::rlimit(60)]
pub proof fn lemma_names_sort_by_time(p: (int, int, int, int, int, int, int), q: (int, int, int, int, int, int, int))
    requires
        valid_parts(p.0, p.1, p.2, p.3, p.4, p.5, p.6),
        valid_parts(q.0, q.1, q.2, q.3, q.4, q.5, q.6),
        0 <= p.0 <= 9999,
        0 <= q.0 <= 9999,
        p.6 % 1_000_000 == 0,
        q.6 % 1_000_000 == 0,
    ensures
        text_lt(stem_text(p), stem_text(q)) <==> parts_lt(p, q),
        text_lt(
            stem_text(p) + seq!['.', 'p', 'n', 'g'],
            stem_text(q) + seq!['.', 'p', 'n', 'g'],
        ) <==> parts_lt(p, q),
{
    lemma_stem_blocks(p);
    lemma_stem_blocks(q);
    let a1 = pad4(p.0) + pad2(p.1) + pad2(p.2);
    let b1 = pad2(p.3) + pad2(p.4) + pad2(p.5 + p.6 / 1_000_000_000);
    let c1 = pad3(p.6 / 1_000_000 % 1000);
    let a2 = pad4(q.0) + pad2(q.1) + pad2(q.2);
    let b2 = pad2(q.3) + pad2(q.4) + pad2(q.5 + q.6 / 1_000_000_000);
    let c2 = pad3(q.6 / 1_000_000 % 1000);
    let u = seq!['_'];
    lemma_text_lt_concat(a1, u + (b1 + (u + c1)), a2, u + (b2 + (u + c2)));
    lemma_text_lt_concat(u, b1 + (u + c1), u, b2 + (u + c2));
    lemma_text_lt_concat(b1, u + c1, b2, u + c2);
    lemma_text_lt_concat(u, c1, u, c2);
    lemma_digits_order(a1, a2);
    lemma_digits_order(b1, b2);
    lemma_digits_order(c1, c2);
    lemma_fields_order(p, q);
    let png = seq!['.', 'p', 'n', 'g'];
    assert(stem_text(p).len() == 19);
    assert(stem_text(q).len() == 19);
    lemma_text_lt_concat(stem_text(p), png, stem_text(q), png);
    lemma_text_lt_irreflexive(png);
    if stem_text(p) == stem_text(q) {
        lemma_text_lt_irreflexive(stem_text(p));
    }
}


proof fn lemma_digit_char_of_digit(c: char)
    requires
        is_digit(c),
    ensures
        digit_char(dval(c) as nat) == c,
        0 <= dval(c) <= 9,
{
}

proof fn lemma_two_digits(a: int, b: int)
    requires
        0 <= a <= 9,
        0 <= b <= 9,
    ensures
        (a * 10 + b) / 10 == a,
        (a * 10 + b) % 10 == b,
{
}

proof fn lemma_three_digits(a: int, b: int, c: int)
    requires
        0 <= a <= 9,
        0 <= b <= 9,
        0 <= c <= 9,
    ensures
        (a * 100 + b * 10 + c) / 100 == a,
        (a * 100 + b * 10 + c) / 10 % 10 == b,
        (a * 100 + b * 10 + c) % 10 == c,
{
}

proof fn lemma_four_digits(a: int, b: int, c: int, d: int)
    requires
        0 <= a <= 9,
        0 <= b <= 9,
        0 <= c <= 9,
        0 <= d <= 9,
    ensures
        (a * 1000 + b * 100 + c * 10 + d) / 100 / 10 == a,
        (a * 1000 + b * 100 + c * 10 + d) / 100 % 10 == b,
        (a * 1000 + b * 100 + c * 10 + d) % 100 / 10 == c,
        (a * 1000 + b * 100 + c * 10 + d) % 100 % 10 == d,
{
    let y = a * 1000 + b * 100 + c * 10 + d;
    assert(y / 100 == a * 10 + b);
    assert(y % 100 == c * 10 + d);
    lemma_two_digits(a, b);
    lemma_two_digits(c, d);
}

/// The seconds and milliseconds printed for the fields read from a
/// canonical text are the ones read.
proof fn lemma_second_fields(field: int, millis: int, sec: int, nano: int)
    requires
        0 <= field <= 60,
        0 <= millis <= 999,
        field == 60 ==> sec == 59 && nano == 1_000_000_000 + millis * 1_000_000,
        field != 60 ==> sec == field && nano == millis * 1_000_000,
    ensures
        sec + nano / 1_000_000_000 == field,
        nano / 1_000_000 % 1000 == millis,
        nano % 1_000_000 == 0,
{
}

/// A canonical stem that names a time is the stem of that time.
#[verifier::spinoff_prover]
#[verifier::rlimit(60)]
proof fn lemma_canonical_render(s: Seq<char>)
    requires
        is_canonical_stem(s),
        dval(s[13]) * 10 + dval(s[14]) <= 60,
        ({
            let p = canonical_parts(s);
            valid_parts(p.0, p.1, p.2, p.3, p.4, p.5, p.6)
        }),
    ensures
        stem_text(canonical_parts(s)) == s,
        0 <= canonical_parts(s).0 <= 9999,
        canonical_parts(s).6 % 1_000_000 == 0,
{
    let p = canonical_parts(s);
    assert forall|i: int| 0 <= i < 19 && i != 8 && i != 15 implies digit_char(
        dval(#[trigger] s[i]) as nat,
    ) == s[i] && 0 <= dval(s[i]) <= 9 by {
        lemma_digit_char_of_digit(s[i]);
    }
    let d0 = dval(s[0]);
    let d1 = dval(s[1]);
    let d2 = dval(s[2]);
    let d3 = dval(s[3]);
    let d4 = dval(s[4]);
    let d5 = dval(s[5]);
    let d6 = dval(s[6]);
    let d7 = dval(s[7]);
    let d9 = dval(s[9]);
    let d10 = dval(s[10]);
    let d11 = dval(s[11]);
    let d12 = dval(s[12]);
    let d13 = dval(s[13]);
    let d14 = dval(s[14]);
    let d16 = dval(s[16]);
    let d17 = dval(s[17]);
    let d18 = dval(s[18]);
    let y = p.0;
    let millis = d16 * 100 + d17 * 10 + d18;
    lemma_four_digits(d0, d1, d2, d3);
    lemma_two_digits(d4, d5);
    lemma_two_digits(d6, d7);
    lemma_two_digits(d9, d10);
    lemma_two_digits(d11, d12);
    lemma_two_digits(d13, d14);
    lemma_three_digits(d16, d17, d18);
    lemma_second_fields(d13 * 10 + d14, millis, p.5, p.6);
    let sec = p.5 + p.6 / 1_000_000_000;
    let ms = p.6 / 1_000_000 % 1000;
    let expected = seq![
        digit_char((y / 100 / 10) as nat), digit_char((y / 100 % 10) as nat),
        digit_char((y % 100 / 10) as nat), digit_char((y % 100 % 10) as nat),
        digit_char((p.1 / 10) as nat), digit_char((p.1 % 10) as nat),
        digit_char((p.2 / 10) as nat), digit_char((p.2 % 10) as nat), '_',
        digit_char((p.3 / 10) as nat), digit_char((p.3 % 10) as nat),
        digit_char((p.4 / 10) as nat), digit_char((p.4 % 10) as nat),
        digit_char((sec / 10) as nat), digit_char((sec % 10) as nat), '_',
        digit_char((ms / 100) as nat), digit_char((ms / 10 % 10) as nat),
        digit_char((ms % 10) as nat),
    ];
    assert(stem_text(p) =~= expected);
    assert(expected =~= s);
}

/// The newest upload by name is the newest by time: when the uploads of a
/// directory are named in the form that the uploader gives them, the one
/// that `select_latest_image` picks was completed last.
pub proof fn lemma_latest_is_newest(entries: Seq<DirEntryInfo>, i: int)
    requires
        is_latest_at(entries, i),
        forall|j: int| 0 <= j < entries.len() ==> reading_known(#[trigger] entries[j]),
        forall|j: int|
            0 <= j < entries.len() && is_upload(#[trigger] entries[j]) ==> has_canonical_name(
                entries[j],
            ),
    ensures
        forall|j: int|
            0 <= j < entries.len() && is_upload(#[trigger] entries[j]) ==> !parts_lt(
                upload_time_of(entries[i]).parts(),
                upload_time_of(entries[j]).parts(),
            ),
{
    let png = seq!['.', 'p', 'n', 'g'];
    assert forall|j: int| 0 <= j < entries.len() && is_upload(#[trigger] entries[j]) implies !parts_lt(
        upload_time_of(entries[i]).parts(),
        upload_time_of(entries[j]).parts(),
    ) by {
        let ei = entries[i];
        let ej = entries[j];
        assert(reading_known(entries[i]));
        assert(has_canonical_name(entries[i]));
        let si = upload_stem(ei);
        let sj = upload_stem(ej);
        lemma_canonical_render(si);
        lemma_canonical_render(sj);
        assert(ei.file_name@ =~= si + png);
        assert(ej.file_name@ =~= sj + png);
        lemma_names_sort_by_time(canonical_parts(si), canonical_parts(sj));
    }
}

/// The RFC 3339 text of an upload time.
pub fn upload_time_rfc3339(t: UploadTime) -> (s: String)
    ensures
        s@ == rfc3339_text(t.parts()),
{
    proof {
        use_type_invariant(&t);
    }
    chrono_rfc3339(t)
}

/// A directory entry as the listing shows it.
#[derive(Debug, Clone)]
pub struct DirEntryInfo {
    pub file_name: String,
    pub is_file: bool,
}

/// The newest upload of a user.
#[derive(Debug, Clone)]
pub struct SelectedImage {
    pub file_name: String,
    pub upload_time: UploadTime,
    pub path: String,
}

/// Text order of file names: by character (code point, the order of their
/// UTF-8 bytes), a proper prefix first.
pub open spec fn text_lt(a: Seq<char>, b: Seq<char>) -> bool
    decreases a.len(),
{
    if a.len() == 0 {
        b.len() > 0
    } else if b.len() == 0 {
        false
    } else if a[0] != b[0] {
        (a[0] as int) < (b[0] as int)
    } else {
        text_lt(a.drop_first(), b.drop_first())
    }
}

/// The text before `.png` in an entry's name.
pub open spec fn upload_stem(e: DirEntryInfo) -> Seq<char> {
    e.file_name@.take(e.file_name@.len() - 4)
}

/// A file named in the canonical form: its reading is the stated one.
pub open spec fn reading_known(e: DirEntryInfo) -> bool {
    e.is_file && has_png_suffix(e.file_name@) && is_canonical_stem(upload_stem(e))
        ==> canonical_reading_fits(upload_stem(e), read_stem(upload_stem(e)))
}

/// A name in the form that uploads are given.
pub open spec fn has_canonical_name(e: DirEntryInfo) -> bool {
    has_png_suffix(e.file_name@) && is_canonical_stem(upload_stem(e))
}

/// An entry that names an upload: a file whose name carries an upload time.
pub open spec fn is_upload(e: DirEntryInfo) -> bool {
    e.is_file && has_png_suffix(e.file_name@) && read_stem(
        e.file_name@.take(e.file_name@.len() - 4),
    ) is Some
}

pub open spec fn upload_time_of(e: DirEntryInfo) -> UploadTime {
    read_stem(e.file_name@.take(e.file_name@.len() - 4))->0
}

/// The entry at `i` is the newest upload: an upload whose name no upload
/// exceeds, and which every upload listed before it falls short of.
pub open spec fn is_latest_at(entries: Seq<DirEntryInfo>, i: int) -> bool {
    &&& 0 <= i < entries.len()
    &&& is_upload(entries[i])
    &&& forall|j: int|
        0 <= j < entries.len() && is_upload(#[trigger] entries[j]) ==> !text_lt(
            entries[i].file_name@,
            entries[j].file_name@,
        )
    &&& forall|j: int|
        0 <= j < i && is_upload(#[trigger] entries[j]) ==> text_lt(
            entries[j].file_name@,
            entries[i].file_name@,
        )
}

fn text_greater(a: &Vec<char>, b: &Vec<char>) -> (r: bool)
    ensures
        r == text_lt(b@, a@),
{
    let mut i: usize = 0;
    proof {
        assert(a@.skip(0) =~= a@);
        assert(b@.skip(0) =~= b@);
    }
    while i < a.len() && i < b.len() && a[i] == b[i]
        invariant
            i <= a.len(),
            i <= b.len(),
            text_lt(b@, a@) == text_lt(b@.skip(i as int), a@.skip(i as int)),
        decreases a.len() - i,
    {
        proof {
            assert(a@.skip(i as int).drop_first() =~= a@.skip(i + 1));
            assert(b@.skip(i as int).drop_first() =~= b@.skip(i + 1));
        }
        i = i + 1;
    }
    proof {
        if i < a.len() {
            assert(a@.skip(i as int)[0] == a@[i as int]);
        }
        if i < b.len() {
            assert(b@.skip(i as int)[0] == b@[i as int]);
        }
    }
    if i == b.len() {
        i < a.len()
    } else if i == a.len() {
        false
    } else {
        b[i] < a[i]
    }
}

proof fn lemma_text_lt_irreflexive(a: Seq<char>)
    ensures
        !text_lt(a, a),
    decreases a.len(),
{
    if a.len() > 0 {
        lemma_text_lt_irreflexive(a.drop_first());
    }
}

proof fn lemma_text_lt_trans(a: Seq<char>, b: Seq<char>, c: Seq<char>)
    requires
        text_lt(a, b),
        text_lt(b, c),
    ensures
        text_lt(a, c),
    decreases a.len(),
{
    if a.len() > 0 && b.len() > 0 && c.len() > 0 && a[0] == b[0] && b[0] == c[0] {
        lemma_text_lt_trans(a.drop_first(), b.drop_first(), c.drop_first());
    }
}

proof fn lemma_text_lt_total(a: Seq<char>, b: Seq<char>)
    ensures
        text_lt(a, b) || text_lt(b, a) || a == b,
    decreases a.len(),
{
    if a.len() > 0 && b.len() > 0 && a[0] == b[0] {
        lemma_text_lt_total(a.drop_first(), b.drop_first());
        if a.drop_first() == b.drop_first() {
            assert forall|i: int| 0 <= i < a.len() implies a[i] == b[i] by {
                if i > 0 {
                    assert(a[i] == a.drop_first()[i - 1]);
                    assert(b[i] == b.drop_first()[i - 1]);
                }
            }
            assert(a =~= b);
        }
    } else if a.len() == 0 && b.len() == 0 {
        assert(a =~= b);
    }
}

/// Chooses the newest upload among the entries of the user directory
/// `user_dir`: among the files whose names carry an upload time, the one
/// with the greatest name (the first of equal names), with its time and its
/// path below the directory; `None` when there is no upload.
pub fn select_latest_image(user_dir: &str, entries: &Vec<DirEntryInfo>) -> (r: Option<SelectedImage>)
    ensures
        r is None <==> forall|j: int| 0 <= j < entries@.len() ==> !is_upload(#[trigger] entries@[j]),
        r matches Some(sel) ==> exists|i: int|
            is_latest_at(entries@, i) && sel.file_name@ == (#[trigger] entries@[i]).file_name@
                && sel.upload_time == upload_time_of(entries@[i]) && sel.path@ == join_path(
                user_dir@,
                entries@[i].file_name@,
            ),
        forall|j: int| 0 <= j < entries@.len() ==> reading_known(#[trigger] entries@[j]),
{
    let mut best: Option<usize> = None;
    let mut best_name: Vec<char> = Vec::new();
    let mut best_time: Option<UploadTime> = None;
    let mut k: usize = 0;
    while k < entries.len()
        invariant
            k <= entries@.len(),
            forall|j: int| 0 <= j < k ==> reading_known(#[trigger] entries@[j]),
            best is None <==> forall|j: int| 0 <= j < k ==> !is_upload(#[trigger] entries@[j]),
            best matches Some(b) ==> {
                &&& b < k
                &&& is_upload(entries@[b as int])
                &&& best_name@ == entries@[b as int].file_name@
                &&& best_time == Some(upload_time_of(entries@[b as int]))
                &&& forall|j: int|
                    0 <= j < k && is_upload(#[trigger] entries@[j]) ==> !text_lt(
                        entries@[b as int].file_name@,
                        entries@[j].file_name@,
                    )
                &&& forall|j: int|
                    0 <= j < b && is_upload(#[trigger] entries@[j]) ==> text_lt(
                        entries@[j].file_name@,
                        entries@[b as int].file_name@,
                    )
            },
        decreases entries@.len() - k,
    {
        let entry = &entries[k];
        if entry.is_file {
            match parse_upload_filename(entry.file_name.as_str()) {
                None => {},
                Some(t) => {
                    let name = chars_of(entry.file_name.as_str());
                    let take = match best {
                        None => true,
                        Some(_) => text_greater(&name, &best_name),
                    };
                    if take {
                        proof {
                            if let Some(b) = best {
                                assert forall|j: int|
                                    0 <= j < k + 1 && is_upload(
                                        #[trigger] entries@[j],
                                    ) implies !text_lt(
                                    entries@[k as int].file_name@,
                                    entries@[j].file_name@,
                                ) by {
                                    if j < k {
                                        if text_lt(
                                            entries@[k as int].file_name@,
                                            entries@[j].file_name@,
                                        ) {
                                            lemma_text_lt_total(
                                                entries@[b as int].file_name@,
                                                entries@[j].file_name@,
                                            );
                                            if text_lt(
                                                entries@[b as int].file_name@,
                                                entries@[j].file_name@,
                                            ) {
                                            } else if entries@[b as int].file_name@
                                                == entries@[j].file_name@ {
                                                lemma_text_lt_trans(
                                                    entries@[b as int].file_name@,
                                                    entries@[k as int].file_name@,
                                                    entries@[j].file_name@,
                                                );
                                                lemma_text_lt_irreflexive(
                                                    entries@[b as int].file_name@,
                                                );
                                            } else {
                                                lemma_text_lt_trans(
                                                    entries@[b as int].file_name@,
                                                    entries@[k as int].file_name@,
                                                    entries@[j].file_name@,
                                                );
                                            }
                                        }
                                    } else {
                                        lemma_text_lt_irreflexive(entries@[k as int].file_name@);
                                    }
                                }
                                assert forall|j: int|
                                    0 <= j < k && is_upload(#[trigger] entries@[j]) implies text_lt(
                                    entries@[j].file_name@,
                                    entries@[k as int].file_name@,
                                ) by {
                                    lemma_text_lt_total(
                                        entries@[j].file_name@,
                                        entries@[b as int].file_name@,
                                    );
                                    if text_lt(
                                        entries@[j].file_name@,
                                        entries@[b as int].file_name@,
                                    ) {
                                        lemma_text_lt_trans(
                                            entries@[j].file_name@,
                                            entries@[b as int].file_name@,
                                            entries@[k as int].file_name@,
                                        );
                                    } else if entries@[j].file_name@
                                        == entries@[b as int].file_name@ {
                                    } else {
                                        lemma_text_lt_trans(
                                            entries@[b as int].file_name@,
                                            entries@[j].file_name@,
                                            entries@[b as int].file_name@,
                                        );
                                        lemma_text_lt_irreflexive(entries@[b as int].file_name@);
                                    }
                                }
                            } else {
                                assert forall|j: int|
                                    0 <= j < k + 1 && is_upload(
                                        #[trigger] entries@[j],
                                    ) implies !text_lt(
                                    entries@[k as int].file_name@,
                                    entries@[j].file_name@,
                                ) by {
                                    lemma_text_lt_irreflexive(entries@[k as int].file_name@);
                                }
                            }
                        }
                        best = Some(k);
                        best_name = name;
                        best_time = Some(t);
                    }
                },
            }
        }
        k = k + 1;
    }
    match best {
        None => None,
        Some(b) => {
            let file_name = string_from_chars(&best_name);
            let path = join_user_file(user_dir, &best_name);
            let upload_time = match best_time {
                Some(t) => t,
                None => {
                    proof {
                        assert(false);
                    }
                    return None;
                },
            };
            proof {
                assert(is_latest_at(entries@, b as int));
            }
            Some(SelectedImage { file_name, upload_time, path })
        },
    }
}

fn join_user_file(dir: &str, name: &Vec<char>) -> (path: String)
    ensures
        path@ == join_path(dir@, name@),
{
    let dir_chars = chars_of(dir);
    let mut path = string_from_chars(&dir_chars);
    let n = dir_chars.len();
    if n > 0 && dir_chars[n - 1] != '/' {
        path.push('/');
    }
    let mut i: usize = 0;
    let ghost base = path@;
    while i < name.len()
        invariant
            i <= name.len(),
            path@ == base + name@.take(i as int),
        decreases name.len() - i,
    {
        path.push(name[i]);
        i = i + 1;
        proof {
            assert(path@ =~= base + name@.take(i as int));
        }
    }
    proof {
        assert(name@.take(name@.len() as int) =~= name@);
    }
    path
}

/// `NaiveDateTime::format` with `TIMESTAMP_FORMAT`: the text `stem_text`
/// states.
#[verifier::external_body]
fn chrono_format_stem(t: UploadTime) -> (s: String)
    requires
        ({
            let p = t.parts();
            valid_parts(p.0, p.1, p.2, p.3, p.4, p.5, p.6)
        }),
    ensures
        s@ == stem_text(t.parts()),
{
    NaiveDate::from_ymd_opt(t.year, t.month, t.day)
        .and_then(|d| d.and_hms_nano_opt(t.hour, t.minute, t.second, t.nanosecond))
        .expect("a valid time")
        .format(TIMESTAMP_FORMAT)
        .to_string()
}

/// `NaiveDateTime::parse_from_str` with `TIMESTAMP_FORMAT`: a time that
/// `chrono` can represent, or `None`; for a canonical text, the time of its
/// fields; a text it reads has the shape `may_read_as_stem` states. What it reads from other texts (it allows, among others, shorter
/// fields, leading blanks and signed years) is named only.
#[verifier::external_body]
fn chrono_read_stem(stem: &str) -> (r: Option<UploadTime>)
    ensures
        r == read_stem(stem@),
        is_canonical_stem(stem@) ==> canonical_reading_fits(stem@, r),
        r is Some ==> may_read_as_stem(stem@),
{
    match NaiveDateTime::parse_from_str(stem, TIMESTAMP_FORMAT) {
        Ok(n) => Some(UploadTime {
            year: n.year(),
            month: n.month(),
            day: n.day(),
            hour: n.hour(),
            minute: n.minute(),
            second: n.second(),
            nanosecond: n.nanosecond(),
        }),
        Err(_) => None,
    }
}

/// `DateTime<Utc>::to_rfc3339`: the text `rfc3339_text` states.
#[verifier::external_body]
fn chrono_rfc3339(t: UploadTime) -> (s: String)
    requires
        ({
            let p = t.parts();
            valid_parts(p.0, p.1, p.2, p.3, p.4, p.5, p.6)
        }),
    ensures
        s@ == rfc3339_text(t.parts()),
{
    NaiveDate::from_ymd_opt(t.year, t.month, t.day)
        .and_then(|d| d.and_hms_nano_opt(t.hour, t.minute, t.second, t.nanosecond))
        .expect("a valid time")
        .and_utc()
        .to_rfc3339()
}

/// The calendar of upload times is the Gregorian one: January, March, May,
/// July, August, October and December have 31 days, April, June, September
/// and November 30, February 29 in a year divisible by 4 but not by 100
/// unless by 400 and 28 otherwise, and a year has 365 or 366 days. So a time
/// of day on a real date within `chrono`'s years is a valid upload time,
/// and the 31st of a 30-day month, or February 30, is not.
pub proof fn lemma_gregorian_calendar(y: int, m: int, d: int, h: int, mi: int, s: int, nano: int)
    requires
        -262143 <= y <= 262142,
        0 <= h < 24,
        0 <= mi < 60,
        0 <= s < 60,
        0 <= nano < 1_000_000_000,
    ensures
        m == 1 || m == 3 || m == 5 || m == 7 || m == 8 || m == 10 || m == 12 ==> days_in_month(
            y,
            m,
        ) == 31,
        m == 4 || m == 6 || m == 9 || m == 11 ==> days_in_month(y, m) == 30,
        days_in_month(y, 2) == if y % 400 == 0 || (y % 4 == 0 && y % 100 != 0) {
            29int
        } else {
            28int
        },
        days_in_month(y, 1) + days_in_month(y, 2) + days_in_month(y, 3) + days_in_month(y, 4)
            + days_in_month(y, 5) + days_in_month(y, 6) + days_in_month(y, 7) + days_in_month(y, 8)
            + days_in_month(y, 9) + days_in_month(y, 10) + days_in_month(y, 11) + days_in_month(
            y,
            12,
        ) == if y % 400 == 0 || (y % 4 == 0 && y % 100 != 0) {
            366int
        } else {
            365int
        },
        (m == 1 || m == 3 || m == 5 || m == 7 || m == 8 || m == 10 || m == 12) && 1 <= d <= 31
            ==> valid_parts(y, m, d, h, mi, s, nano),
        (m == 4 || m == 6 || m == 9 || m == 11) ==> (valid_parts(y, m, d, h, mi, s, nano) <==> 1
            <= d <= 30),
        m == 2 && d >= 30 ==> !valid_parts(y, m, d, h, mi, s, nano),
{
}

} // verus!
