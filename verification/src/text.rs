//! Verified string building: decimal rendering of integers and single-quote
//! escaping, the two places where query text depends on transferred data.

use vstd::prelude::*;
use vstd::string::StrSliceExecFns;
use vstd::string::StringExecFns;

verus! {

/// The character for one decimal digit value.
pub open spec fn dec_digit_char(d: int) -> char {
    if d == 0 {
        '0'
    } else if d == 1 {
        '1'
    } else if d == 2 {
        '2'
    } else if d == 3 {
        '3'
    } else if d == 4 {
        '4'
    } else if d == 5 {
        '5'
    } else if d == 6 {
        '6'
    } else if d == 7 {
        '7'
    } else if d == 8 {
        '8'
    } else {
        '9'
    }
}

/// Decimal digits of a nonnegative integer, most significant first.
pub open spec fn dec_digits(n: nat) -> Seq<char>
    decreases n,
{
    if n < 10 {
        seq![dec_digit_char(n as int)]
    } else {
        dec_digits(n / 10) + seq![dec_digit_char((n % 10) as int)]
    }
}

/// Textual form of a signed integer: a minus sign for negatives, then digits.
pub open spec fn int_literal(i: int) -> Seq<char> {
    if i < 0 {
        seq!['-'] + dec_digits((-i) as nat)
    } else {
        dec_digits(i as nat)
    }
}

/// True of the ten decimal digit characters.
pub open spec fn is_dec_digit(c: char) -> bool {
    '0' <= c && c <= '9'
}

/// The value a digit character names.
pub open spec fn digit_val(c: char) -> int {
    c as int - '0' as int
}

/// Every character is a decimal digit.
pub open spec fn all_dec_digits(s: Seq<char>) -> bool {
    forall|i: int| 0 <= i < s.len() ==> is_dec_digit(#[trigger] s[i])
}

/// The number a digit string names, most significant digit first.
pub open spec fn digits_value(s: Seq<char>) -> int
    decreases s.len(),
{
    if s.len() == 0 {
        0
    } else {
        digits_value(s.drop_last()) * 10 + digit_val(s.last())
    }
}

/// The digit body of a signed literal: what follows an optional sign.
pub open spec fn literal_body(s: Seq<char>) -> Seq<char> {
    if s.len() > 0 && (s[0] == '-' || s[0] == '+') {
        s.drop_first()
    } else {
        s
    }
}

/// The signed value a literal names.
pub open spec fn i64_literal_value(s: Seq<char>) -> int {
    if s.len() > 0 && s[0] == '-' {
        -digits_value(literal_body(s))
    } else {
        digits_value(literal_body(s))
    }
}

/// The string is a well-formed 64-bit integer literal: an optional sign,
/// then at least one digit and nothing else, naming a value in range.
pub open spec fn valid_i64_literal(s: Seq<char>) -> bool {
    &&& literal_body(s).len() > 0
    &&& all_dec_digits(literal_body(s))
    &&& -0x8000000000000000 <= i64_literal_value(s) <= 0x7fffffffffffffff
}

/// A digit string names a nonnegative number.
pub proof fn lemma_digits_value_nonneg(s: Seq<char>)
    requires
        all_dec_digits(s),
    ensures
        digits_value(s) >= 0,
    decreases s.len(),
{
    if s.len() > 0 {
        let head = s.drop_last();
        assert forall|i: int| 0 <= i < head.len() implies is_dec_digit(#[trigger] head[i]) by {
            assert(head[i] == s[i]);
        }
        lemma_digits_value_nonneg(head);
        assert(is_dec_digit(s.last()));
    }
}

/// One more digit multiplies the value by ten and adds the digit.
pub proof fn lemma_digits_value_push(s: Seq<char>, c: char)
    ensures
        digits_value(s.push(c)) == digits_value(s) * 10 + digit_val(c),
{
    assert(s.push(c).drop_last() =~= s);
    assert(s.push(c).last() == c);
}

/// A prepended zero digit leaves the named number unchanged.
pub proof fn lemma_digits_value_zero_prepend(s: Seq<char>)
    ensures
        digits_value(seq!['0'] + s) == digits_value(s),
    decreases s.len(),
{
    let z = seq!['0'] + s;
    if s.len() == 0 {
        assert(z =~= Seq::<char>::empty().push('0'));
        lemma_digits_value_push(Seq::<char>::empty(), '0');
        assert(digit_val('0') == 0);
    } else {
        assert(z.drop_last() =~= seq!['0'] + s.drop_last());
        assert(z.last() == s.last());
        lemma_digits_value_zero_prepend(s.drop_last());
    }
}

/// How wide the digits of a small number are.
pub proof fn lemma_dec_digits_len_small(n: nat)
    requires
        n < 10000,
    ensures
        n < 10 ==> dec_digits(n).len() == 1,
        10 <= n < 100 ==> dec_digits(n).len() == 2,
        100 <= n < 1000 ==> dec_digits(n).len() == 3,
        1000 <= n ==> dec_digits(n).len() == 4,
    decreases n,
{
    if n >= 10 {
        vstd::arithmetic::div_mod::lemma_fundamental_div_mod(n as int, 10);
        lemma_dec_digits_len_small(n / 10);
        assert(dec_digits(n).len() == dec_digits(n / 10).len() + 1);
    }
}

/// The digits of a number are digits and name it back: rendering is exact.
pub proof fn lemma_dec_digits_value(n: nat)
    ensures
        all_dec_digits(dec_digits(n)),
        digits_value(dec_digits(n)) == n,
        dec_digits(n).len() >= 1,
        is_dec_digit(dec_digits(n)[0]),
    decreases n,
{
    if n < 10 {
        assert(is_dec_digit(dec_digit_char(n as int)));
        assert(digit_val(dec_digit_char(n as int)) == n);
        assert(dec_digits(n) =~= Seq::<char>::empty().push(dec_digit_char(n as int)));
        lemma_digits_value_push(Seq::<char>::empty(), dec_digit_char(n as int));
    } else {
        lemma_dec_digits_value(n / 10);
        let head = dec_digits(n / 10);
        let c = dec_digit_char((n % 10) as int);
        assert(is_dec_digit(c));
        assert(digit_val(c) == n % 10);
        assert(dec_digits(n) =~= head.push(c));
        lemma_digits_value_push(head, c);
        vstd::arithmetic::div_mod::lemma_fundamental_div_mod(n as int, 10);
        assert forall|i: int| 0 <= i < dec_digits(n).len() implies is_dec_digit(
            #[trigger] dec_digits(n)[i],
        ) by {
            if i < head.len() {
                assert(dec_digits(n)[i] == head[i]);
            } else {
                assert(dec_digits(n)[i] == c);
            }
        }
    }
}

/// Value round-trip for integers: the decimal literal of any 64-bit value is
/// a well-formed literal naming exactly that value, so rendering a cell and
/// parsing the literal back reproduces the value.
pub proof fn lemma_int_literal_roundtrip(i: int)
    requires
        -0x8000000000000000 <= i <= 0x7fffffffffffffff,
    ensures
        valid_i64_literal(int_literal(i)),
        i64_literal_value(int_literal(i)) == i,
{
    if i < 0 {
        lemma_dec_digits_value((-i) as nat);
        let s = int_literal(i);
        assert(s[0] == '-');
        assert(s.drop_first() =~= dec_digits((-i) as nat));
    } else {
        lemma_dec_digits_value(i as nat);
        let s = int_literal(i);
        assert(s[0] == dec_digits(i as nat)[0]);
        assert(is_dec_digit(s[0]));
        assert(s[0] != '-' && s[0] != '+');
        assert(literal_body(s) == s);
    }
}

/// Parses a decimal 64-bit integer literal: an optional sign, then digits.
/// `None` exactly on text that is not a well-formed literal in range.
pub fn parse_i64(s: &str) -> (r: Option<i64>)
    ensures
        r is Some <==> valid_i64_literal(s@),
        r is Some ==> r.unwrap() as int == i64_literal_value(s@),
{
    let n: usize = s.unicode_len();
    let mut start: usize = 0;
    let mut negative: bool = false;
    if n > 0 {
        let c0 = s.get_char(0);
        if c0 == '-' {
            negative = true;
            start = 1;
        } else if c0 == '+' {
            start = 1;
        }
    }
    if start == n {
        proof {
            assert(literal_body(s@).len() == 0);
        }
        return None;
    }
    let ghost body = literal_body(s@);
    let mut acc: i128 = 0;
    let mut i: usize = start;
    while i < n
        invariant
            start <= i <= n,
            n == s@.len(),
            n > start,
            start == 1 ==> n >= 1 && (s@[0] == '-' || s@[0] == '+'),
            start == 0 ==> !(s@[0] == '-' || s@[0] == '+'),
            negative == (s@[0] == '-'),
            body == literal_body(s@),
            body.len() == n - start,
            forall|k: int| 0 <= k < body.len() ==> body[k] == s@[k + start],
            all_dec_digits(body.take((i - start) as int)),
            0 <= acc,
            digits_value(body.take((i - start) as int)) <= 0xffffffffffffffff ==> acc
                == digits_value(body.take((i - start) as int)),
            digits_value(body.take((i - start) as int)) > 0xffffffffffffffff ==> acc
                > 0xffffffffffffffff,
        decreases n - i,
    {
        let c = s.get_char(i);
        let code: u32 = c as u32;
        if code < 48 || code > 57 {
            proof {
                assert(body[(i - start) as int] == c);
                assert(!is_dec_digit(c));
                assert(!all_dec_digits(body));
            }
            return None;
        }
        let digit: i128 = (code - 48) as i128;
        proof {
            assert(is_dec_digit(c));
            assert(digit == digit_val(c));
            let prefix = body.take((i - start) as int);
            assert(body.take((i + 1 - start) as int) =~= prefix.push(body[(i - start) as int]));
            lemma_digits_value_push(prefix, c);
            lemma_digits_value_nonneg(prefix);
        }
        if acc <= 0xffffffffffffffff {
            acc = acc * 10 + digit;
        }
        proof {
            assert(all_dec_digits(body.take((i + 1 - start) as int)));
        }
        i = i + 1;
    }
    proof {
        assert(body.take((n - start) as int) =~= body);
        lemma_digits_value_nonneg(body);
    }
    if negative {
        if acc <= 0x8000000000000000i128 {
            Some((-acc) as i64)
        } else {
            None
        }
    } else {
        if acc <= 0x7fffffffffffffffi128 {
            Some(acc as i64)
        } else {
            None
        }
    }
}

/// Position of the first occurrence of `c` in `s`, if any.
pub open spec fn first_pos(s: Seq<char>, c: char) -> Option<int>
    decreases s.len(),
{
    if s.len() == 0 {
        None
    } else if s[0] == c {
        Some(0int)
    } else {
        match first_pos(s.drop_first(), c) {
            Some(i) => Some(i + 1),
            None => None,
        }
    }
}

/// What `first_pos` finds is the first occurrence: the character stands
/// there and nowhere earlier, and a `None` means it stands nowhere.
pub proof fn lemma_first_pos(s: Seq<char>, c: char)
    ensures
        match first_pos(s, c) {
            Some(i) => 0 <= i < s.len() && s[i] == c && forall|j: int| 0 <= j < i ==> s[j] != c,
            None => forall|j: int| 0 <= j < s.len() ==> s[j] != c,
        },
    decreases s.len(),
{
    if s.len() == 0 {
    } else if s[0] == c {
    } else {
        let tail = s.drop_first();
        lemma_first_pos(tail, c);
        match first_pos(tail, c) {
            Some(i) => {
                assert(tail[i] == s[i + 1]);
                assert forall|j: int| 0 <= j < i + 1 implies s[j] != c by {
                    if j > 0 {
                        assert(tail[j - 1] == s[j]);
                        assert(tail[j - 1] != c);
                    }
                }
            },
            None => {
                assert forall|j: int| 0 <= j < s.len() implies s[j] != c by {
                    if j > 0 {
                        assert(tail[j - 1] == s[j]);
                        assert(tail[j - 1] != c);
                    }
                }
            },
        }
    }
}

/// Finds the first occurrence of a character, scanning left to right.
pub fn find_char(s: &str, c: char) -> (r: Option<usize>)
    ensures
        match r {
            Some(i) => first_pos(s@, c) == Some(i as int),
            None => first_pos(s@, c) is None,
        },
{
    let n: usize = s.unicode_len();
    let mut i: usize = 0;
    while i < n
        invariant
            0 <= i <= n,
            n == s@.len(),
            forall|j: int| 0 <= j < i ==> s@[j] != c,
        decreases n - i,
    {
        if s.get_char(i) == c {
            proof {
                lemma_first_pos(s@, c);
            }
            return Some(i);
        }
        i = i + 1;
    }
    proof {
        lemma_first_pos(s@, c);
    }
    None
}

/// Relies on std's `String::push`: appends exactly the given character.
#[verifier::external_body]
pub(crate) fn push_char(s: &mut String, c: char)
    ensures
        final(s)@ == old(s)@ + seq![c],
{
    s.push(c);
}

fn dec_digit_to_char(d: u64) -> (c: char)
    requires
        d < 10,
    ensures
        c == dec_digit_char(d as int),
{
    if d == 0 {
        '0'
    } else if d == 1 {
        '1'
    } else if d == 2 {
        '2'
    } else if d == 3 {
        '3'
    } else if d == 4 {
        '4'
    } else if d == 5 {
        '5'
    } else if d == 6 {
        '6'
    } else if d == 7 {
        '7'
    } else if d == 8 {
        '8'
    } else {
        '9'
    }
}

/// Renders a nonnegative integer in decimal.
pub fn u64_to_string(n: u64) -> (r: String)
    ensures
        r@ == dec_digits(n as nat),
    decreases n,
{
    if n < 10 {
        let mut r = String::new();
        push_char(&mut r, dec_digit_to_char(n));
        assert(r@ =~= dec_digits(n as nat));
        r
    } else {
        let mut r = u64_to_string(n / 10);
        push_char(&mut r, dec_digit_to_char(n % 10));
        assert(r@ =~= dec_digits(n as nat));
        r
    }
}

/// Renders a signed integer in decimal, as its textual SQL literal.
pub fn i64_to_string(i: i64) -> (r: String)
    ensures
        r@ == int_literal(i as int),
{
    if i >= 0 {
        u64_to_string(i as u64)
    } else {
        let magnitude: u64 = if i == i64::MIN {
            9223372036854775808u64
        } else {
            (-i) as u64
        };
        let mut r = String::new();
        push_char(&mut r, '-');
        let digits = u64_to_string(magnitude);
        r.append(digits.as_str());
        assert(r@ =~= int_literal(i as int));
        r
    }
}

} // verus!
