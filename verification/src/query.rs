//! The transcoding transfer strategy: every cell of a fetched row becomes a
//! SQL literal, rows become parenthesized value tuples, and tuples are
//! batched into multi-row INSERT statements.

use vstd::prelude::*;
use vstd::string::StrSliceExecFns;
use vstd::string::StringExecFns;

use chrono::Datelike;
use chrono::Timelike;

use crate::config::ImportConfig;
use crate::text::{
    all_dec_digits, dec_digits, digits_value, i64_to_string, int_literal, is_dec_digit,
    lemma_dec_digits_len_small, lemma_dec_digits_value, lemma_digits_value_zero_prepend, push_char,
    u64_to_string,
};

verus! {

/// Transfer strategy that reads structured rows and re-renders every value:
/// slower than the bulk stream, but tolerant of column reordering and able
/// to escape each value.
pub struct QueryImporter;

/// Largest mantissa a 96-bit decimal can hold.
pub const MAX_DECIMAL_MANTISSA: i128 = 0xFFFF_FFFF_FFFF_FFFF_FFFF_FFFF;

/// Largest scale a 96-bit decimal can hold.
pub const MAX_DECIMAL_SCALE: u32 = 28;

/// A civil date and clock time, already in UTC.
#[derive(Clone, Copy, PartialEq, Eq, Structural, Debug)]
pub struct Timestamp {
    pub year: i32,
    pub month: u32,
    pub day: u32,
    pub hour: u32,
    pub minute: u32,
    pub second: u32,
}

impl Timestamp {
    /// The fields name a real clock reading: calendar-shaped date parts and
    /// a time of day, within the range a Unix timestamp can reach.
    pub open spec fn wf(self) -> bool {
        &&& -262143 <= self.year <= 262142
        &&& 1 <= self.month <= 12
        &&& 1 <= self.day <= 31
        &&& self.hour <= 23
        &&& self.minute <= 59
        &&& self.second <= 59
    }
}

/// One database cell, brought to plain values. Floating-point cells carry
/// their textual rendering, since the library holds no floats; decimals
/// carry the exact 96-bit mantissa and scale; timestamps carry UTC parts.
pub enum ColumnValue {
    Bool(bool),
    Int2(i16),
    Int4(i32),
    Int8(i64),
    Text(String),
    Float4(String),
    Numeric { mantissa: i128, scale: u32 },
    TimestampTz(Timestamp),
    /// A cell whose stored value could not be read; degrades to NULL.
    Null,
    /// A cell of a column type the transcoder does not support, named so the
    /// caller can log it; degrades to NULL rather than stopping the copy.
    Unsupported(String),
}

/// The cell holds nothing a literal could misrepresent: decimal parts are
/// within the 96-bit form and timestamp parts are a real clock reading.
pub open spec fn column_value_wf(v: ColumnValue) -> bool {
    match v {
        ColumnValue::Numeric { mantissa, scale } => -MAX_DECIMAL_MANTISSA <= mantissa
            <= MAX_DECIMAL_MANTISSA && scale <= MAX_DECIMAL_SCALE,
        ColumnValue::TimestampTz(t) => t.wf(),
        _ => true,
    }
}

/// Zero digits prepended until the text is at least `width` characters wide.
pub open spec fn zero_padded(digits: Seq<char>, width: int) -> Seq<char>
    decreases width - digits.len(),
{
    if digits.len() >= width {
        digits
    } else {
        zero_padded(seq!['0'] + digits, width)
    }
}

/// The exact text of the decimal number `mantissa * 10^(-scale)`: the
/// magnitude's digits, zero-padded so the point can sit `scale` digits from
/// the right of a nonempty whole part, a minus sign for negative numbers,
/// and no point at all at scale zero. `1.10` keeps its scale; `0.001` keeps
/// its leading zero.
pub open spec fn spec_decimal_text(mantissa: int, scale: int) -> Seq<char> {
    let magnitude = if mantissa < 0 {
        -mantissa
    } else {
        mantissa
    };
    let sign = if mantissa < 0 {
        seq!['-']
    } else {
        Seq::<char>::empty()
    };
    if scale == 0 {
        sign + dec_digits(magnitude as nat)
    } else {
        let padded = zero_padded(dec_digits(magnitude as nat), scale + 1);
        sign + padded.take(padded.len() - scale) + seq!['.'] + padded.skip(padded.len() - scale)
    }
}

/// Zero-padding adds only zero digits: the named number, the digit property
/// and the width floor are kept.
proof fn lemma_zero_padded_props(d: Seq<char>, width: int)
    requires
        all_dec_digits(d),
    ensures
        zero_padded(d, width).len() == if d.len() >= width {
            d.len() as int
        } else {
            width
        },
        digits_value(zero_padded(d, width)) == digits_value(d),
        all_dec_digits(zero_padded(d, width)),
    decreases width - d.len(),
{
    if d.len() < width {
        let z = seq!['0'] + d;
        assert(is_dec_digit('0'));
        assert forall|i: int| 0 <= i < z.len() implies is_dec_digit(#[trigger] z[i]) by {
            if i > 0 {
                assert(z[i] == d[i - 1]);
            }
        }
        lemma_digits_value_zero_prepend(d);
        lemma_zero_padded_props(z, width);
    }
}

/// Value round-trip for decimal cells: the literal determines the cell
/// exactly. The sign is its leading minus, the scale is the digit count
/// right of the point, and the mantissa's magnitude is read back from the
/// digits with the point removed.
pub proof fn lemma_decimal_text_roundtrip(mantissa: int, scale: int)
    requires
        -MAX_DECIMAL_MANTISSA <= mantissa <= MAX_DECIMAL_MANTISSA,
        1 <= scale <= MAX_DECIMAL_SCALE,
    ensures
        ({
            let txt = spec_decimal_text(mantissa, scale);
            let body = if mantissa < 0 {
                txt.skip(1)
            } else {
                txt
            };
            let magnitude = if mantissa < 0 {
                -mantissa
            } else {
                mantissa
            };
            &&& (mantissa < 0 <==> txt.len() > 0 && txt[0] == '-')
            &&& body.len() >= scale + 2
            &&& body[body.len() - scale - 1] == '.'
            &&& digits_value(
                body.take(body.len() - scale - 1) + body.skip(body.len() - scale),
            ) == magnitude
        }),
{
    let magnitude = if mantissa < 0 {
        -mantissa
    } else {
        mantissa
    };
    lemma_dec_digits_value(magnitude as nat);
    lemma_zero_padded_props(dec_digits(magnitude as nat), scale + 1);
    let padded = zero_padded(dec_digits(magnitude as nat), scale + 1);
    let txt = spec_decimal_text(mantissa, scale);
    let body = if mantissa < 0 {
        txt.skip(1)
    } else {
        txt
    };
    assert(body =~= padded.take(padded.len() - scale) + seq!['.'] + padded.skip(
        padded.len() - scale,
    ));
    assert(body.len() == padded.len() + 1);
    assert(body[body.len() - scale - 1] == '.');
    assert(body.take(body.len() - scale - 1) =~= padded.take(padded.len() - scale));
    assert(body.skip(body.len() - scale) =~= padded.skip(padded.len() - scale));
    assert(body.take(body.len() - scale - 1) + body.skip(body.len() - scale) =~= padded);
    assert(is_dec_digit(padded[0]));
    assert(!is_dec_digit('-'));
    if mantissa < 0 {
        assert(txt[0] == '-');
    } else {
        assert(txt[0] == padded[0]);
    }
}

/// Relies on rust_decimal's `Decimal::from_i128_with_scale` and its
/// `Display` implementation: together they render the decimal number
/// `mantissa * 10^(-scale)` as exactly `spec_decimal_text` says -- plain
/// (never scientific) decimal text keeping the scale -- and panic only
/// outside the bounds required here.
#[verifier::external_body]
fn decimal_literal(mantissa: i128, scale: u32) -> (r: String)
    requires
        -MAX_DECIMAL_MANTISSA <= mantissa <= MAX_DECIMAL_MANTISSA,
        scale <= MAX_DECIMAL_SCALE,
    ensures
        r@ == spec_decimal_text(mantissa as int, scale as int),
{
    rust_decimal::Decimal::from_i128_with_scale(mantissa, scale).to_string()
}

/// The UTC civil parts -- year, month, day, hour, minute, second -- of the
/// instant `secs` seconds after the Unix epoch. The calendar arithmetic is
/// pages long, but its result depends on the seconds alone.
pub uninterp spec fn utc_parts_of(secs: int) -> (int, int, int, int, int, int);

/// Relies on chrono's `DateTime::<Utc>::from_timestamp` with its `Datelike`
/// and `Timelike` accessors: the UTC civil date and clock time of a Unix
/// timestamp, a function of the seconds alone, `None` only outside chrono's
/// supported range of roughly 262,000 years on either side of the common
/// era. Each accessor's documented range is stated of the parts.
#[verifier::external_body]
fn utc_parts_from_unix(secs: i64) -> (r: Option<(i32, u32, u32, u32, u32, u32)>)
    ensures
        r is Some ==> ({
            let t = r.unwrap();
            &&& (t.0 as int, t.1 as int, t.2 as int, t.3 as int, t.4 as int, t.5 as int)
                == utc_parts_of(secs as int)
            &&& -262143 <= t.0 <= 262142
            &&& 1 <= t.1 <= 12
            &&& 1 <= t.2 <= 31
            &&& t.3 <= 23
            &&& t.4 <= 59
            &&& t.5 <= 59
        }),
        -8000000000000 <= secs <= 8000000000000 ==> r is Some,
{
    match chrono::DateTime::<chrono::Utc>::from_timestamp(secs, 0) {
        Some(dt) => Some((dt.year(), dt.month(), dt.day(), dt.hour(), dt.minute(), dt.second())),
        None => None,
    }
}

/// Brings a Unix timestamp to its UTC civil parts: exactly the parts of the
/// given instant, never some other clock reading. `None` only far outside
/// any plausible database value.
pub fn timestamp_from_unix_seconds(secs: i64) -> (r: Option<Timestamp>)
    ensures
        r is Some ==> r.unwrap().wf(),
        r is Some ==> ({
            let t = r.unwrap();
            (t.year as int, t.month as int, t.day as int, t.hour as int, t.minute as int,
            t.second as int) == utc_parts_of(secs as int)
        }),
        -8000000000000 <= secs <= 8000000000000 ==> r is Some,
{
    match utc_parts_from_unix(secs) {
        Some(t) => Some(
            Timestamp { year: t.0, month: t.1, day: t.2, hour: t.3, minute: t.4, second: t.5 },
        ),
        None => None,
    }
}

impl ColumnValue {
    /// Builds a decimal cell, refusing parts no 96-bit decimal could hold.
    pub fn numeric(mantissa: i128, scale: u32) -> (r: Option<ColumnValue>)
        ensures
            r is Some <==> (-MAX_DECIMAL_MANTISSA <= mantissa <= MAX_DECIMAL_MANTISSA && scale
                <= MAX_DECIMAL_SCALE),
            r is Some ==> r.unwrap() == (ColumnValue::Numeric { mantissa, scale })
                && column_value_wf(r.unwrap()),
    {
        if -MAX_DECIMAL_MANTISSA <= mantissa && mantissa <= MAX_DECIMAL_MANTISSA && scale
            <= MAX_DECIMAL_SCALE {
            Some(ColumnValue::Numeric { mantissa, scale })
        } else {
            None
        }
    }
}

/// A text cell with every single quote doubled, so the value cannot break
/// out of its quoted literal.
pub open spec fn escape_one(c: char) -> Seq<char> {
    if c == '\'' {
        seq!['\'', '\'']
    } else {
        seq![c]
    }
}

/// The whole text with every single quote doubled.
pub open spec fn escaped_quotes(s: Seq<char>) -> Seq<char>
    decreases s.len(),
{
    if s.len() == 0 {
        Seq::<char>::empty()
    } else {
        escape_one(s[0]) + escaped_quotes(s.drop_first())
    }
}

/// Escaping one more character appends its escape.
proof fn lemma_escaped_quotes_push(s: Seq<char>, c: char)
    ensures
        escaped_quotes(s.push(c)) == escaped_quotes(s) + escape_one(c),
    decreases s.len(),
{
    let pushed = s.push(c);
    assert(pushed.len() == s.len() + 1);
    assert(pushed[s.len() as int] == c);
    if s.len() == 0 {
        assert(pushed[0] == c);
        assert(pushed.drop_first() =~= Seq::<char>::empty());
        assert(escaped_quotes(pushed) == escape_one(c) + escaped_quotes(pushed.drop_first()));
        assert(escaped_quotes(pushed.drop_first()) == Seq::<char>::empty());
        assert(escaped_quotes(s) == Seq::<char>::empty());
        assert(escaped_quotes(pushed) =~= escaped_quotes(s) + escape_one(c));
    } else {
        assert(pushed[0] == s[0]);
        assert(pushed.drop_first() =~= s.drop_first().push(c));
        lemma_escaped_quotes_push(s.drop_first(), c);
        assert(escaped_quotes(pushed) == escape_one(pushed[0]) + escaped_quotes(
            pushed.drop_first(),
        ));
        assert(escaped_quotes(pushed) =~= escaped_quotes(s) + escape_one(c));
    }
}

/// The inverse reading of an escaped text: doubled single quotes collapse
/// back to one character each.
pub open spec fn unescaped_quotes(s: Seq<char>) -> Seq<char>
    decreases s.len(),
{
    if s.len() == 0 {
        Seq::<char>::empty()
    } else if s[0] == '\'' && s.len() >= 2 && s[1] == '\'' {
        seq!['\''] + unescaped_quotes(s.skip(2))
    } else {
        seq![s[0]] + unescaped_quotes(s.skip(1))
    }
}

/// Collapsing the doubled quotes of an escaped text returns the text, for
/// every text.
proof fn lemma_escaped_quotes_roundtrip(s: Seq<char>)
    ensures
        unescaped_quotes(escaped_quotes(s)) == s,
    decreases s.len(),
{
    if s.len() > 0 {
        let e = escaped_quotes(s);
        let tail = escaped_quotes(s.drop_first());
        lemma_escaped_quotes_roundtrip(s.drop_first());
        if s[0] == '\'' {
            assert(e == seq!['\'', '\''] + tail);
            assert(e.len() >= 2);
            assert(e[0] == '\'');
            assert(e[1] == '\'');
            assert(e.skip(2) =~= tail);
            assert(unescaped_quotes(e) == seq!['\''] + unescaped_quotes(e.skip(2)));
            assert(unescaped_quotes(e) =~= s);
        } else {
            assert(e == seq![s[0]] + tail);
            assert(e[0] == s[0]);
            assert(e.skip(1) =~= tail);
            assert(unescaped_quotes(e) == seq![e[0]] + unescaped_quotes(e.skip(1)));
            assert(unescaped_quotes(e) =~= s);
        }
    }
}

/// Value round-trip for text cells: the literal is the cell's text between
/// single quotes with every embedded quote doubled, and stripping the outer
/// quotes then collapsing the doubled ones returns the text exactly --
/// `'O''Brien'` reads back as `O'Brien`, for every text.
pub proof fn lemma_text_literal_roundtrip(s: Seq<char>)
    ensures
        ({
            let lit = seq!['\''] + escaped_quotes(s) + seq!['\''];
            unescaped_quotes(lit.subrange(1, lit.len() - 1)) == s
        }),
{
    let lit = seq!['\''] + escaped_quotes(s) + seq!['\''];
    assert(lit.subrange(1, lit.len() - 1) =~= escaped_quotes(s));
    lemma_escaped_quotes_roundtrip(s);
}

/// Doubles every single quote of a text value.
pub fn escape_single_quotes(s: &str) -> (r: String)
    ensures
        r@ == escaped_quotes(s@),
{
    let n: usize = s.unicode_len();
    let mut r = String::new();
    let mut i: usize = 0;
    while i < n
        invariant
            0 <= i <= n,
            n == s@.len(),
            r@ == escaped_quotes(s@.take(i as int)),
        decreases n - i,
    {
        let c = s.get_char(i);
        if c == '\'' {
            push_char(&mut r, '\'');
            push_char(&mut r, '\'');
        } else {
            push_char(&mut r, c);
        }
        proof {
            assert(s@.take(i + 1) =~= s@.take(i as int).push(s@[i as int]));
            lemma_escaped_quotes_push(s@.take(i as int), s@[i as int]);
            assert(r@ =~= escaped_quotes(s@.take(i + 1)));
        }
        i = i + 1;
    }
    proof {
        assert(s@.take(n as int) =~= s@);
    }
    r
}

/// A number zero-padded to two digits.
pub open spec fn pad2(n: int) -> Seq<char> {
    if n < 10 {
        seq!['0'] + dec_digits(n as nat)
    } else {
        dec_digits(n as nat)
    }
}

/// A number zero-padded to four digits (wider numbers keep all digits).
pub open spec fn pad4(n: int) -> Seq<char> {
    if n < 10 {
        seq!['0', '0', '0'] + dec_digits(n as nat)
    } else if n < 100 {
        seq!['0', '0'] + dec_digits(n as nat)
    } else if n < 1000 {
        seq!['0'] + dec_digits(n as nat)
    } else {
        dec_digits(n as nat)
    }
}

/// A year, zero-padded to four digits, signed for years before the common
/// era.
pub open spec fn pad4_year(y: int) -> Seq<char> {
    if y < 0 {
        seq!['-'] + pad4(-y)
    } else {
        pad4(y)
    }
}

/// The quoted timestamp literal: `'YYYY-MM-DD HH:MM:SS'` in UTC.
pub open spec fn spec_timestamp_literal(t: Timestamp) -> Seq<char> {
    seq!['\''] + pad4_year(t.year as int) + seq!['-'] + pad2(t.month as int) + seq!['-'] + pad2(
        t.day as int,
    ) + seq![' '] + pad2(t.hour as int) + seq![':'] + pad2(t.minute as int) + seq![':'] + pad2(
        t.second as int,
    ) + seq!['\'']
}

/// A two-digit field names its number back.
proof fn lemma_pad2_value(n: int)
    requires
        0 <= n < 100,
    ensures
        pad2(n).len() == 2,
        digits_value(pad2(n)) == n,
{
    lemma_dec_digits_value(n as nat);
    lemma_dec_digits_len_small(n as nat);
    if n < 10 {
        lemma_digits_value_zero_prepend(dec_digits(n as nat));
    }
}

/// A four-digit field names its number back.
proof fn lemma_pad4_value(n: int)
    requires
        0 <= n < 10000,
    ensures
        pad4(n).len() == 4,
        digits_value(pad4(n)) == n,
{
    lemma_dec_digits_value(n as nat);
    lemma_dec_digits_len_small(n as nat);
    let d = dec_digits(n as nat);
    if n < 10 {
        assert(seq!['0', '0', '0'] + d =~= seq!['0'] + (seq!['0'] + (seq!['0'] + d)));
        lemma_digits_value_zero_prepend(d);
        lemma_digits_value_zero_prepend(seq!['0'] + d);
        lemma_digits_value_zero_prepend(seq!['0'] + (seq!['0'] + d));
    } else if n < 100 {
        assert(seq!['0', '0'] + d =~= seq!['0'] + (seq!['0'] + d));
        lemma_digits_value_zero_prepend(d);
        lemma_digits_value_zero_prepend(seq!['0'] + d);
    } else if n < 1000 {
        lemma_digits_value_zero_prepend(d);
    }
}

/// Value round-trip for timestamps: within the four-digit-year range the
/// quoted literal has a fixed 21-character shape, and every field is read
/// back from its digits at a fixed position, so the literal determines the
/// instant exactly. Years outside 0..=9999 widen or sign the year field and
/// shift the positions, so they are left out here.
pub proof fn lemma_timestamp_literal_roundtrip(t: Timestamp)
    requires
        t.wf(),
        0 <= t.year <= 9999,
    ensures
        ({
            let lit = spec_timestamp_literal(t);
            &&& lit.len() == 21
            &&& digits_value(lit.subrange(1, 5)) == t.year
            &&& digits_value(lit.subrange(6, 8)) == t.month
            &&& digits_value(lit.subrange(9, 11)) == t.day
            &&& digits_value(lit.subrange(12, 14)) == t.hour
            &&& digits_value(lit.subrange(15, 17)) == t.minute
            &&& digits_value(lit.subrange(18, 20)) == t.second
        }),
{
    lemma_pad4_value(t.year as int);
    lemma_pad2_value(t.month as int);
    lemma_pad2_value(t.day as int);
    lemma_pad2_value(t.hour as int);
    lemma_pad2_value(t.minute as int);
    lemma_pad2_value(t.second as int);
    let lit = spec_timestamp_literal(t);
    assert(pad4_year(t.year as int) == pad4(t.year as int));
    assert(lit.len() == 21);
    assert(lit.subrange(1, 5) =~= pad4(t.year as int));
    assert(lit.subrange(6, 8) =~= pad2(t.month as int));
    assert(lit.subrange(9, 11) =~= pad2(t.day as int));
    assert(lit.subrange(12, 14) =~= pad2(t.hour as int));
    assert(lit.subrange(15, 17) =~= pad2(t.minute as int));
    assert(lit.subrange(18, 20) =~= pad2(t.second as int));
}

fn pad2_exec(n: u32) -> (r: String)
    requires
        n < 100,
    ensures
        r@ == pad2(n as int),
{
    let mut r = String::new();
    if n < 10 {
        push_char(&mut r, '0');
    }
    let digits = u64_to_string(n as u64);
    r.append(digits.as_str());
    proof {
        assert(r@ =~= pad2(n as int));
    }
    r
}

fn pad4_exec(n: u32) -> (r: String)
    ensures
        r@ == pad4(n as int),
{
    let mut r = String::new();
    if n < 10 {
        push_char(&mut r, '0');
        push_char(&mut r, '0');
        push_char(&mut r, '0');
    } else if n < 100 {
        push_char(&mut r, '0');
        push_char(&mut r, '0');
    } else if n < 1000 {
        push_char(&mut r, '0');
    }
    let digits = u64_to_string(n as u64);
    r.append(digits.as_str());
    proof {
        assert(r@ =~= pad4(n as int));
    }
    r
}

/// Renders a timestamp as its quoted UTC literal.
pub fn timestamp_literal(t: &Timestamp) -> (r: String)
    requires
        t.wf(),
    ensures
        r@ == spec_timestamp_literal(*t),
{
    let mut r = String::new();
    push_char(&mut r, '\'');
    if t.year < 0 {
        push_char(&mut r, '-');
        let y = pad4_exec((-(t.year)) as u32);
        r.append(y.as_str());
    } else {
        let y = pad4_exec(t.year as u32);
        r.append(y.as_str());
    }
    push_char(&mut r, '-');
    let month = pad2_exec(t.month);
    r.append(month.as_str());
    push_char(&mut r, '-');
    let day = pad2_exec(t.day);
    r.append(day.as_str());
    push_char(&mut r, ' ');
    let hour = pad2_exec(t.hour);
    r.append(hour.as_str());
    push_char(&mut r, ':');
    let minute = pad2_exec(t.minute);
    r.append(minute.as_str());
    push_char(&mut r, ':');
    let second = pad2_exec(t.second);
    r.append(second.as_str());
    push_char(&mut r, '\'');
    proof {
        assert(r@ =~= spec_timestamp_literal(*t));
    }
    r
}

/// The literal a cell contributes to an INSERT: booleans and numbers as bare
/// text, text quoted with quotes doubled, timestamps as quoted UTC text,
/// unreadable or unsupported cells as `NULL`.
pub open spec fn spec_column_literal(v: ColumnValue) -> Seq<char> {
    match v {
        ColumnValue::Bool(b) => if b {
            "true"@
        } else {
            "false"@
        },
        ColumnValue::Int2(i) => int_literal(i as int),
        ColumnValue::Int4(i) => int_literal(i as int),
        ColumnValue::Int8(i) => int_literal(i as int),
        ColumnValue::Text(s) => seq!['\''] + escaped_quotes(s@) + seq!['\''],
        ColumnValue::Float4(t) => t@,
        ColumnValue::Numeric { mantissa, scale } => spec_decimal_text(
            mantissa as int,
            scale as int,
        ),
        ColumnValue::TimestampTz(t) => spec_timestamp_literal(t),
        ColumnValue::Null => "NULL"@,
        ColumnValue::Unsupported(_) => "NULL"@,
    }
}

/// Converts one cell of a known scalar type into the literal text usable in
/// an INSERT statement. Unsupported and unreadable cells degrade to `NULL`
/// rather than stopping the transfer.
pub fn to_literal(value: &ColumnValue) -> (r: String)
    requires
        column_value_wf(*value),
    ensures
        r@ == spec_column_literal(*value),
{
    match value {
        ColumnValue::Bool(b) => {
            if *b {
                String::from_str("true")
            } else {
                String::from_str("false")
            }
        },
        ColumnValue::Int2(i) => i64_to_string(*i as i64),
        ColumnValue::Int4(i) => i64_to_string(*i as i64),
        ColumnValue::Int8(i) => i64_to_string(*i),
        ColumnValue::Text(s) => {
            let mut r = String::new();
            push_char(&mut r, '\'');
            let escaped = escape_single_quotes(s.as_str());
            r.append(escaped.as_str());
            push_char(&mut r, '\'');
            proof {
                assert(r@ =~= spec_column_literal(*value));
            }
            r
        },
        ColumnValue::Float4(t) => t.clone(),
        ColumnValue::Numeric { mantissa, scale } => decimal_literal(*mantissa, *scale),
        ColumnValue::TimestampTz(t) => timestamp_literal(t),
        ColumnValue::Null => String::from_str("NULL"),
        ColumnValue::Unsupported(_) => String::from_str("NULL"),
    }
}

/// Texts joined by bare commas.
pub open spec fn comma_separated(vals: Seq<Seq<char>>) -> Seq<char>
    decreases vals.len(),
{
    if vals.len() == 0 {
        Seq::<char>::empty()
    } else if vals.len() == 1 {
        vals[0]
    } else {
        comma_separated(vals.drop_last()) + seq![','] + vals.last()
    }
}

/// The views of a sequence of strings.
pub open spec fn string_views(vals: Seq<String>) -> Seq<Seq<char>> {
    vals.map_values(|s: String| s@)
}

/// One row's value tuple: the literals joined by commas, in parentheses.
pub open spec fn spec_row_values(vals: Seq<Seq<char>>) -> Seq<char> {
    seq!['('] + comma_separated(vals) + seq![')']
}

/// A name in double quotes, as the INSERT's column list writes it.
pub open spec fn quoted_name(n: Seq<char>) -> Seq<char> {
    seq!['"'] + n + seq!['"']
}

/// Quoted names joined by comma and space.
pub open spec fn comma_space_quoted(names: Seq<Seq<char>>) -> Seq<char>
    decreases names.len(),
{
    if names.len() == 0 {
        Seq::<char>::empty()
    } else if names.len() == 1 {
        quoted_name(names[0])
    } else {
        comma_space_quoted(names.drop_last()) + seq![',', ' '] + quoted_name(names.last())
    }
}

/// The INSERT's column list: quoted names, comma-and-space separated, in
/// parentheses.
pub open spec fn spec_column_list(names: Seq<Seq<char>>) -> Seq<char> {
    seq!['('] + comma_space_quoted(names) + seq![')']
}

/// The multi-row INSERT: table, column list, and the accumulated value
/// tuples.
pub open spec fn spec_insert_query(
    schema: Seq<char>,
    table: Seq<char>,
    names: Seq<Seq<char>>,
    query_values: Seq<char>,
) -> Seq<char> {
    "INSERT INTO "@ + schema + "."@ + table + " "@ + spec_column_list(names) + " VALUES "@
        + query_values
}

impl QueryImporter {
    /// Renders one row as its parenthesized value tuple.
    pub fn render_row_values(values: &Vec<String>) -> (r: String)
        requires
            values@.len() >= 1,
        ensures
            r@ == spec_row_values(string_views(values@)),
    {
        let mut r = String::new();
        push_char(&mut r, '(');
        r.append(values[0].as_str());
        proof {
            let sv = string_views(values@);
            assert(sv.take(1).len() == 1);
            assert(r@ =~= seq!['('] + comma_separated(sv.take(1)));
        }
        let mut i: usize = 1;
        while i < values.len()
            invariant
                1 <= i <= values@.len(),
                r@ == seq!['('] + comma_separated(string_views(values@).take(i as int)),
            decreases values@.len() - i,
        {
            push_char(&mut r, ',');
            r.append(values[i].as_str());
            proof {
                let sv = string_views(values@);
                assert(sv.take(i + 1).drop_last() =~= sv.take(i as int));
                assert(sv.take(i + 1).last() == sv[i as int]);
                assert(r@ =~= seq!['('] + comma_separated(sv.take(i + 1)));
            }
            i = i + 1;
        }
        push_char(&mut r, ')');
        proof {
            let sv = string_views(values@);
            assert(sv.take(values@.len() as int) =~= sv);
            assert(r@ =~= spec_row_values(sv));
        }
        r
    }

    /// Renders the column list of the INSERT from the fetched column names.
    pub fn column_list(column_names: &Vec<String>) -> (r: String)
        ensures
            r@ == spec_column_list(string_views(column_names@)),
    {
        let mut r = String::new();
        push_char(&mut r, '(');
        if column_names.len() > 0 {
            push_char(&mut r, '"');
            r.append(column_names[0].as_str());
            push_char(&mut r, '"');
            proof {
                let sv = string_views(column_names@);
                assert(sv.take(1).len() == 1);
                assert(r@ =~= seq!['('] + comma_space_quoted(sv.take(1)));
            }
        }
        let mut i: usize = 1;
        while i < column_names.len()
            invariant
                column_names@.len() == 0 ==> r@ == seq!['('],
                column_names@.len() > 0 ==> 1 <= i,
                i <= column_names@.len() || i == 1,
                column_names@.len() > 0 ==> r@ == seq!['('] + comma_space_quoted(
                    string_views(column_names@).take(i as int),
                ),
            decreases column_names@.len() - i,
        {
            push_char(&mut r, ',');
            push_char(&mut r, ' ');
            push_char(&mut r, '"');
            r.append(column_names[i].as_str());
            push_char(&mut r, '"');
            proof {
                let sv = string_views(column_names@);
                assert(sv.take(i + 1).drop_last() =~= sv.take(i as int));
                assert(sv.take(i + 1).last() == sv[i as int]);
                assert(r@ =~= seq!['('] + comma_space_quoted(sv.take(i + 1)));
            }
            i = i + 1;
        }
        push_char(&mut r, ')');
        proof {
            let sv = string_views(column_names@);
            assert(sv.take(column_names@.len() as int) =~= sv);
            assert(r@ =~= spec_column_list(sv));
        }
        r
    }

    /// Adds one rendered row to the accumulated value tuples, comma-joined.
    pub fn append_row_values(query_values: &mut String, row_values: &str)
        ensures
            old(query_values)@.len() == 0 ==> final(query_values)@ == row_values@,
            old(query_values)@.len() > 0 ==> final(query_values)@ == old(query_values)@ + seq![',']
                + row_values@,
    {
        if query_values.as_str().is_empty() {
            query_values.append(row_values);
        } else {
            push_char(query_values, ',');
            query_values.append(row_values);
        }
    }

    /// True exactly when the batch is due to be written mid-stream: the
    /// insert threshold is reached, or the row just read is the chunk's
    /// last. When the rows run out earlier, `has_pending_rows` still owes
    /// one final flush.
    pub fn should_flush(
        rows_to_insert: i64,
        min_rows_for_insert: i64,
        rows_read: i64,
        chunk_limit: i64,
    ) -> (r: bool)
        ensures
            r == (rows_to_insert == min_rows_for_insert || rows_read == chunk_limit),
    {
        rows_to_insert == min_rows_for_insert || rows_read == chunk_limit
    }

    /// True when accumulated value tuples still wait to be written. A
    /// nonempty accumulation at sub-range exhaustion must be flushed, never
    /// dropped, even when the rows ran out before the chunk's limit.
    pub fn has_pending_rows(query_values: &str) -> (r: bool)
        ensures
            r == (query_values@.len() > 0),
    {
        !query_values.is_empty()
    }

    /// Builds the multi-row INSERT for the accumulated value tuples.
    pub fn insert_query(
        import_config: &ImportConfig,
        column_names: &Vec<String>,
        query_values: &str,
    ) -> (r: String)
        ensures
            r@ == spec_insert_query(
                import_config.schema@,
                import_config.table@,
                string_views(column_names@),
                query_values@,
            ),
    {
        let mut r = String::from_str("INSERT INTO ");
        r.append(import_config.schema.as_str());
        r.append(".");
        r.append(import_config.table.as_str());
        r.append(" ");
        let columns = QueryImporter::column_list(column_names);
        r.append(columns.as_str());
        r.append(" VALUES ");
        r.append(query_values);
        proof {
            assert(r@ =~= spec_insert_query(
                import_config.schema@,
                import_config.table@,
                string_views(column_names@),
                query_values@,
            ));
        }
        r
    }
}

} // verus!
