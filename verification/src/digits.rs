//! Decimal formatting and parsing of `i32` values, with exact
//! specifications and a proved round trip. Workspace names embed grid
//! coordinates in decimal, so the name grammar is built on these.
use vstd::prelude::*;

verus! {

/// Numeric value of a decimal digit character; 10 marks a non-digit.
pub open spec fn digit_val(c: char) -> int {
    if c == '0' {
        0
    } else if c == '1' {
        1
    } else if c == '2' {
        2
    } else if c == '3' {
        3
    } else if c == '4' {
        4
    } else if c == '5' {
        5
    } else if c == '6' {
        6
    } else if c == '7' {
        7
    } else if c == '8' {
        8
    } else if c == '9' {
        9
    } else {
        10
    }
}

pub open spec fn is_digit(c: char) -> bool {
    digit_val(c) < 10
}

/// The digit character for a value in `0..10`.
pub open spec fn digit_char(d: int) -> char {
    if d == 0 {
        '0'
    } else if d == 1 {
        '1'
    } else if d == 2 {
        '2'
    } else if d == 3 {
        '3'
    } else if d == 4 {
        '4'
    } else if d == 5 {
        '5'
    } else if d == 6 {
        '6'
    } else if d == 7 {
        '7'
    } else if d == 8 {
        '8'
    } else {
        '9'
    }
}

pub open spec fn all_digits(s: Seq<char>) -> bool {
    forall|i: int| 0 <= i < s.len() ==> is_digit(#[trigger] s[i])
}

/// Value of a string of decimal digits, most significant first.
pub open spec fn dec_val(s: Seq<char>) -> int
    decreases s.len(),
{
    if s.len() == 0 {
        0
    } else {
        dec_val(s.drop_last()) * 10 + digit_val(s.last())
    }
}

/// Canonical decimal digit string of a nonnegative value: no sign, no
/// leading zeros (a single `'0'` for zero).
pub open spec fn dec_digits(n: nat) -> Seq<char>
    decreases n,
{
    if n < 10 {
        seq![digit_char(n as int)]
    } else {
        dec_digits(n / 10).push(digit_char((n % 10) as int))
    }
}

/// Canonical decimal string of an integer: a leading `'-'` for
/// negative values, then the digits of the magnitude.
pub open spec fn fmt_int(v: int) -> Seq<char> {
    if v < 0 {
        seq!['-'].add(dec_digits((-v) as nat))
    } else {
        dec_digits(v as nat)
    }
}

/// What a decimal string denotes: an optional single `'+'` or `'-'`,
/// then one or more digits. Anything else denotes nothing.
pub open spec fn parse_int_spec(s: Seq<char>) -> Option<int> {
    if s.len() == 0 {
        None
    } else {
        let digits = if s[0] == '-' || s[0] == '+' {
            s.drop_first()
        } else {
            s
        };
        if digits.len() == 0 || !all_digits(digits) {
            None
        } else if s[0] == '-' {
            Some(-dec_val(digits))
        } else {
            Some(dec_val(digits))
        }
    }
}

/// Like `parse_int_spec`, but values outside the `i32` range denote
/// nothing, as with `str::parse::<i32>`.
pub open spec fn parse_i32_spec(s: Seq<char>) -> Option<i32> {
    match parse_int_spec(s) {
        Some(v) => if i32::MIN <= v <= i32::MAX {
            Some(v as i32)
        } else {
            None
        },
        None => None,
    }
}

/// The digits of a value are digits, start without sign, and denote
/// that value.
pub proof fn lemma_dec_digits(n: nat)
    ensures
        dec_digits(n).len() >= 1,
        all_digits(dec_digits(n)),
        dec_val(dec_digits(n)) == n,
    decreases n,
{
    if n < 10 {
        let s = dec_digits(n);
        assert(s =~= seq![digit_char(n as int)]);
        assert(s.drop_last() =~= Seq::<char>::empty());
        assert(dec_val(Seq::<char>::empty()) == 0);
        assert(dec_val(s) == digit_val(digit_char(n as int)));
    } else {
        lemma_dec_digits(n / 10);
        let p = dec_digits(n / 10);
        let c = digit_char((n % 10) as int);
        let s = p.push(c);
        assert(s.drop_last() =~= p);
        assert(s.last() == c);
        assert(dec_val(s) == dec_val(p) * 10 + digit_val(c));
        assert(digit_val(c) == n % 10);
        assert((n / 10) * 10 + n % 10 == n) by {
            vstd::arithmetic::div_mod::lemma_fundamental_div_mod(n as int, 10);
        }
    }
}

/// A digit string holds no occurrence of a non-digit character.
pub proof fn lemma_fmt_int_chars(v: int, c: char)
    requires
        !is_digit(c),
        c != '-',
    ensures
        forall|i: int| 0 <= i < fmt_int(v).len() ==> #[trigger] fmt_int(v)[i] != c,
{
    if v < 0 {
        lemma_dec_digits((-v) as nat);
    } else {
        lemma_dec_digits(v as nat);
    }
}

/// Round trip: the canonical decimal string of a value denotes exactly
/// that value.
pub proof fn lemma_parse_fmt_int(v: int)
    ensures
        parse_int_spec(fmt_int(v)) == Some(v),
{
    if v < 0 {
        let d = dec_digits((-v) as nat);
        lemma_dec_digits((-v) as nat);
        let s = seq!['-'].add(d);
        assert(s[0] == '-');
        assert(s.drop_first() =~= d);
        assert(parse_int_spec(s) == Some(-dec_val(d)));
    } else {
        let s = dec_digits(v as nat);
        lemma_dec_digits(v as nat);
        assert(is_digit(s[0]));
        assert(s[0] != '-' && s[0] != '+');
        assert(parse_int_spec(s) == Some(dec_val(s)));
    }
}

/// The digit character of a digit value in `0..10`, as a one-character
/// string slice.
pub fn digit_str(d: u8) -> (r: &'static str)
    requires
        d < 10,
    ensures
        r@ =~= seq![digit_char(d as int)],
{
    proof {
        reveal_strlit("0");
        reveal_strlit("1");
        reveal_strlit("2");
        reveal_strlit("3");
        reveal_strlit("4");
        reveal_strlit("5");
        reveal_strlit("6");
        reveal_strlit("7");
        reveal_strlit("8");
        reveal_strlit("9");
    }
    match d {
        0 => "0",
        1 => "1",
        2 => "2",
        3 => "3",
        4 => "4",
        5 => "5",
        6 => "6",
        7 => "7",
        8 => "8",
        _ => "9",
    }
}

/// The canonical decimal string of a `u32`.
pub fn fmt_u32(n: u32) -> (r: String)
    ensures
        r@ == dec_digits(n as nat),
    decreases n,
{
    if n < 10 {
        String::from_str(digit_str(n as u8))
    } else {
        let p = fmt_u32(n / 10);
        let r = p.concat(digit_str((n % 10) as u8));
        proof {
            assert(r@ =~= dec_digits((n / 10) as nat).push(digit_char((n % 10) as int)));
        }
        r
    }
}

/// The canonical decimal string of an `i32`, sign included.
pub fn fmt_i32(v: i32) -> (r: String)
    ensures
        r@ == fmt_int(v as int),
{
    if v >= 0 {
        fmt_u32(v as u32)
    } else {
        let mag: u32 = (-(v as i64)) as u32;
        let mut r = String::from_str("-");
        proof {
            reveal_strlit("-");
        }
        r.append(fmt_u32(mag).as_str());
        proof {
            assert(r@ =~= seq!['-'].add(dec_digits((-(v as int)) as nat)));
        }
        r
    }
}

/// Numeric value of a digit character; `None` for a non-digit.
fn digit_of(c: char) -> (r: Option<u8>)
    ensures
        is_digit(c) <==> r is Some,
        r is Some ==> r->0 == digit_val(c),
{
    match c {
        '0' => Some(0),
        '1' => Some(1),
        '2' => Some(2),
        '3' => Some(3),
        '4' => Some(4),
        '5' => Some(5),
        '6' => Some(6),
        '7' => Some(7),
        '8' => Some(8),
        '9' => Some(9),
        _ => None,
    }
}

/// Nonnegative digit strings denote nondecreasing values as digits are
/// appended on the right.
proof fn lemma_dec_val_nonneg(s: Seq<char>)
    requires
        all_digits(s),
    ensures
        dec_val(s) >= 0,
    decreases s.len(),
{
    if s.len() > 0 {
        assert(all_digits(s.drop_last()));
        lemma_dec_val_nonneg(s.drop_last());
    }
}

/// Parse a decimal `i32` with the semantics of `str::parse::<i32>`:
/// optional single sign, one or more digits, value within range.
pub fn parse_i32(s: &str) -> (r: Option<i32>)
    ensures
        r == parse_i32_spec(s@),
{
    let n = s.unicode_len();
    if n == 0 {
        return None;
    }
    let c0 = s.get_char(0);
    let neg = c0 == '-';
    let start: usize = if c0 == '-' || c0 == '+' {
        1
    } else {
        0
    };
    if start == n {
        return None;
    }
    let ghost digits = if s@[0] == '-' || s@[0] == '+' {
        s@.drop_first()
    } else {
        s@
    };
    proof {
        assert(digits =~= s@.subrange(start as int, n as int));
    }
    let mut i: usize = start;
    let mut mag: u64 = 0;
    let mut sat = false;
    while i < n
        invariant
            start <= i <= n,
            0 < n == s@.len(),
            start < n,
            start == if s@[0] == '-' || s@[0] == '+' {
                1int
            } else {
                0int
            },
            neg == (s@[0] == '-'),
            digits == if s@[0] == '-' || s@[0] == '+' {
                s@.drop_first()
            } else {
                s@
            },
            digits =~= s@.subrange(start as int, n as int),
            all_digits(s@.subrange(start as int, i as int)),
            !sat ==> mag == dec_val(s@.subrange(start as int, i as int)) && mag <= 2147483648,
            sat ==> dec_val(s@.subrange(start as int, i as int)) > 2147483648,
        decreases n - i,
    {
        let c = s.get_char(i);
        let ghost pre = s@.subrange(start as int, i as int);
        let ghost cur = s@.subrange(start as int, i as int + 1);
        proof {
            assert(cur.drop_last() =~= pre);
            assert(cur.last() == s@[i as int]);
        }
        match digit_of(c) {
            None => {
                proof {
                    assert(!is_digit(digits[i - start]));
                }
                return None;
            },
            Some(d) => {
                proof {
                    assert(dec_val(cur) == dec_val(pre) * 10 + digit_val(s@[i as int]));
                }
                if sat {
                    proof {
                        assert(all_digits(pre));
                        lemma_dec_val_nonneg(pre);
                    }
                } else {
                    let next: u64 = mag * 10 + (d as u64);
                    if next > 2147483648 {
                        sat = true;
                    } else {
                        mag = next;
                    }
                }
            },
        }
        i += 1;
    }
    proof {
        assert(s@.subrange(start as int, n as int) =~= digits);
    }
    if sat {
        return None;
    }
    if neg {
        proof {
            lemma_dec_val_nonneg(digits);
        }
        Some((-(mag as i64)) as i32)
    } else {
        if mag > 2147483647 {
            return None;
        }
        Some(mag as i32)
    }
}

} // verus!
