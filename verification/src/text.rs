//! Decimal formatting and small string utilities used by the overlay
//! layout engine and the log-line classifier.

use vstd::prelude::*;

verus! {

/// The character for a single decimal digit.
pub open spec fn digit_char(d: nat) -> char {
    if d == 0 {
        '0'
    } else if d == 1 {
        '1'
    } else if d == 2 {
        '2'
    } else if d == 3 {
        '3'
    } else if d == 4 {
        '4'
    } else if d == 5 {
        '5'
    } else if d == 6 {
        '6'
    } else if d == 7 {
        '7'
    } else if d == 8 {
        '8'
    } else {
        '9'
    }
}

/// Decimal representation of `n`, most significant digit first, with no
/// leading zeros (a single `'0'` for zero).
pub open spec fn dec_digits(n: nat) -> Seq<char>
    decreases n,
{
    if n < 10 {
        seq![digit_char(n)]
    } else {
        dec_digits(n / 10).push(digit_char(n % 10))
    }
}

fn digit_str(d: u32) -> (r: &'static str)
    requires
        d < 10,
    ensures
        r@ == seq![digit_char(d as nat)],
{
    proof {
        reveal_strlit("0");
        reveal_strlit("1");
        reveal_strlit("2");
        reveal_strlit("3");
        reveal_strlit("4");
        reveal_strlit("5");
        reveal_strlit("6");
        reveal_strlit("7");
        reveal_strlit("8");
        reveal_strlit("9");
    }
    let r = match d {
        0 => "0",
        1 => "1",
        2 => "2",
        3 => "3",
        4 => "4",
        5 => "5",
        6 => "6",
        7 => "7",
        8 => "8",
        _ => "9",
    };
    proof {
        assert(r@ =~= seq![digit_char(d as nat)]);
    }
    r
}

/// Renders `n` in decimal.
pub fn u32_string(n: u32) -> (s: String)
    ensures
        s@ == dec_digits(n as nat),
    decreases n,
{
    if n < 10 {
        String::from_str(digit_str(n))
    } else {
        let mut s = u32_string(n / 10);
        s.append(digit_str(n % 10));
        proof {
            assert(s@ =~= dec_digits(n as nat));
        }
        s
    }
}

/// `n` space characters.
pub open spec fn spaces(n: nat) -> Seq<char> {
    Seq::new(n, |i: int| ' ')
}

/// `s` left-padded with spaces up to `w` characters; unchanged when it
/// is already that long.
pub open spec fn pad_left_spec(s: Seq<char>, w: nat) -> Seq<char> {
    if s.len() >= w {
        s
    } else {
        spaces((w - s.len()) as nat) + s
    }
}

/// Left-pads `s` with spaces to at least `width` characters.
pub fn pad_left(s: String, width: usize) -> (r: String)
    ensures
        r@ == pad_left_spec(s@, width as nat),
{
    let len = s.as_str().unicode_len();
    if len >= width {
        return s;
    }
    let mut p = String::new();
    let mut i: usize = 0;
    while i < width - len
        invariant
            len < width,
            i <= width - len,
            p@ =~= spaces(i as nat),
        decreases width - len - i,
    {
        p.append(" ");
        proof {
            reveal_strlit(" ");
            assert(p@ =~= spaces((i + 1) as nat));
        }
        i += 1;
    }
    p.append(s.as_str());
    p
}

/// Decimal representation of `n` zero-padded to at least two digits.
pub open spec fn dec_two_digits(n: nat) -> Seq<char> {
    if n < 10 {
        seq!['0'] + dec_digits(n)
    } else {
        dec_digits(n)
    }
}

/// Renders `n` in decimal, zero-padded to at least two digits.
pub fn u32_two_digits(n: u32) -> (s: String)
    ensures
        s@ == dec_two_digits(n as nat),
{
    if n < 10 {
        proof {
            reveal_strlit("0");
        }
        let mut s = String::from_str("0");
        s.append(u32_string(n).as_str());
        proof {
            assert(s@ =~= dec_two_digits(n as nat));
        }
        s
    } else {
        u32_string(n)
    }
}

/// Decimal representation of `n` zero-padded to at least three digits.
pub open spec fn dec_three_digits(n: nat) -> Seq<char> {
    if n < 10 {
        seq!['0', '0'] + dec_digits(n)
    } else if n < 100 {
        seq!['0'] + dec_digits(n)
    } else {
        dec_digits(n)
    }
}

/// Renders `n` in decimal, zero-padded to at least three digits.
pub fn u32_three_digits(n: u32) -> (s: String)
    ensures
        s@ == dec_three_digits(n as nat),
{
    if n < 10 {
        proof {
            reveal_strlit("00");
        }
        let mut s = String::from_str("00");
        s.append(u32_string(n).as_str());
        proof {
            assert(s@ =~= dec_three_digits(n as nat));
        }
        s
    } else if n < 100 {
        proof {
            reveal_strlit("0");
        }
        let mut s = String::from_str("0");
        s.append(u32_string(n).as_str());
        proof {
            assert(s@ =~= dec_three_digits(n as nat));
        }
        s
    } else {
        u32_string(n)
    }
}

/// A value held in tenths, rendered with one decimal digit: `123` is
/// `"12.3"`.
pub open spec fn tenths_digits(v: nat) -> Seq<char> {
    dec_digits(v / 10) + seq!['.'] + dec_digits(v % 10)
}

/// Renders a value held in tenths with one decimal digit.
pub fn tenths_string(v: u32) -> (s: String)
    ensures
        s@ == tenths_digits(v as nat),
{
    proof {
        reveal_strlit(".");
    }
    let mut s = u32_string(v / 10);
    s.append(".");
    s.append(u32_string(v % 10).as_str());
    proof {
        assert(s@ =~= tenths_digits(v as nat));
    }
    s
}

/// A signed value held in tenths, with a leading minus sign when
/// negative.
pub open spec fn tenths_digits_i32(v: int) -> Seq<char> {
    if v < 0 {
        seq!['-'] + tenths_digits((-v) as nat)
    } else {
        tenths_digits(v as nat)
    }
}

/// Renders a signed value held in tenths with one decimal digit.
pub fn tenths_string_i32(v: i32) -> (s: String)
    ensures
        s@ == tenths_digits_i32(v as int),
{
    if v < 0 {
        proof {
            reveal_strlit("-");
        }
        let magnitude: u32 = (-(v as i64)) as u32;
        let mut s = String::from_str("-");
        s.append(tenths_string(magnitude).as_str());
        proof {
            assert(s@ =~= tenths_digits_i32(v as int));
        }
        s
    } else {
        tenths_string(v as u32)
    }
}

/// A value held in hundredths, rendered with two decimal digits: `250`
/// is `"2.50"`.
pub open spec fn hundredths_digits(v: nat) -> Seq<char> {
    dec_digits(v / 100) + seq!['.'] + dec_two_digits(v % 100)
}

/// Renders a value held in hundredths with two decimal digits.
pub fn hundredths_string(v: u32) -> (s: String)
    ensures
        s@ == hundredths_digits(v as nat),
{
    proof {
        reveal_strlit(".");
    }
    let mut s = u32_string(v / 100);
    s.append(".");
    s.append(u32_two_digits(v % 100).as_str());
    proof {
        assert(s@ =~= hundredths_digits(v as nat));
    }
    s
}

/// A value held in thousandths, rendered with three decimal digits:
/// `1500` is `"1.500"`.
pub open spec fn thousandths_digits(v: nat) -> Seq<char> {
    dec_digits(v / 1000) + seq!['.'] + dec_three_digits(v % 1000)
}

/// Renders a value held in thousandths with three decimal digits.
pub fn thousandths_string(v: u32) -> (s: String)
    ensures
        s@ == thousandths_digits(v as nat),
{
    proof {
        reveal_strlit(".");
    }
    let mut s = u32_string(v / 1000);
    s.append(".");
    s.append(u32_three_digits(v % 1000).as_str());
    proof {
        assert(s@ =~= thousandths_digits(v as nat));
    }
    s
}

/// `needle` occurs as a contiguous run of characters inside `hay`.
pub open spec fn spec_contains(hay: Seq<char>, needle: Seq<char>) -> bool {
    exists|i: int|
        0 <= i && i + needle.len() <= hay.len() && #[trigger] hay.subrange(
            i,
            i + needle.len() as int,
        ) == needle
}

fn match_at(hay: &str, hay_len: usize, needle: &str, needle_len: usize, at: usize) -> (r: bool)
    requires
        hay_len == hay@.len(),
        needle_len == needle@.len(),
        at + needle_len <= hay_len,
    ensures
        r == (hay@.subrange(at as int, at + needle@.len()) == needle@),
{
    let mut j: usize = 0;
    while j < needle_len
        invariant
            hay_len == hay@.len(),
            needle_len == needle@.len(),
            at + needle_len <= hay_len,
            j <= needle_len,
            forall|k: int| 0 <= k < j ==> hay@[at + k] == needle@[k],
        decreases needle_len - j,
    {
        if hay.get_char(at + j) != needle.get_char(j) {
            proof {
                assert(hay@.subrange(at as int, at + needle@.len())[j as int] == hay@[at + j]);
            }
            return false;
        }
        j += 1;
    }
    proof {
        assert(hay@.subrange(at as int, at + needle@.len()) =~= needle@);
    }
    true
}

/// Whether `needle` occurs anywhere inside `hay`.
pub fn contains_str(hay: &str, needle: &str) -> (r: bool)
    ensures
        r == spec_contains(hay@, needle@),
{
    let hay_len = hay.unicode_len();
    let needle_len = needle.unicode_len();
    if needle_len > hay_len {
        return false;
    }
    if needle_len == 0 {
        proof {
            assert(hay@.subrange(0, 0 + needle@.len() as int) =~= needle@);
        }
        return true;
    }
    let mut i: usize = 0;
    while i <= hay_len - needle_len
        invariant
            hay_len == hay@.len(),
            needle_len == needle@.len(),
            0 < needle_len <= hay_len,
            i <= hay_len - needle_len + 1,
            forall|k: int|
                0 <= k < i ==> #[trigger] hay@.subrange(k, k + needle@.len()) != needle@,
        decreases hay_len - needle_len - i + 1,
    {
        if match_at(hay, hay_len, needle, needle_len, i) {
            return true;
        }
        i += 1;
    }
    false
}

} // verus!

