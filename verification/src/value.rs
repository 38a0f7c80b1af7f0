//! The runtime value type held in a chunk's constant pool, and the
//! decimal rendering the disassembler uses for it.

use vstd::prelude::*;
use vstd::string::StringExecFns;

verus! {

/// A numeric constant held in a chunk's constant pool.
///
/// The disassembler prints every constant with exactly two fractional
/// digits, so a value is held as the signed count of hundredths it
/// prints as: `hundredths == 120` prints as `1.20`.
#[derive(Clone, Copy, PartialEq, Eq, Structural, Debug)]
pub struct LoxValue {
    pub hundredths: i64,
}

/// The decimal digit `d` as a character.
pub open spec fn digit_char(d: nat) -> char {
    if d == 0 {
        '0'
    } else if d == 1 {
        '1'
    } else if d == 2 {
        '2'
    } else if d == 3 {
        '3'
    } else if d == 4 {
        '4'
    } else if d == 5 {
        '5'
    } else if d == 6 {
        '6'
    } else if d == 7 {
        '7'
    } else if d == 8 {
        '8'
    } else {
        '9'
    }
}

/// The decimal digits of `n`, most significant first, with no leading
/// zeroes (a single `0` for `n == 0`).
pub open spec fn dec_chars(n: nat) -> Seq<char>
    decreases n,
{
    if n < 10 {
        seq![digit_char(n)]
    } else {
        dec_chars(n / 10).push(digit_char(n % 10))
    }
}

/// The byte offset `n` as the disassembler labels it: zero-padded to
/// four digits, or plain decimal once four digits no longer hold it.
pub open spec fn offset_chars(n: nat) -> Seq<char> {
    if n < 10000 {
        seq![
            digit_char(n / 1000),
            digit_char((n / 100) % 10),
            digit_char((n / 10) % 10),
            digit_char(n % 10),
        ]
    } else {
        dec_chars(n)
    }
}

/// The magnitude of a value, in hundredths.
pub open spec fn abs_hundredths(v: LoxValue) -> nat {
    if v.hundredths >= 0 {
        v.hundredths as nat
    } else {
        (-(v.hundredths as int)) as nat
    }
}

/// A constant exactly as the disassembler prints it: an optional minus
/// sign, the whole part in decimal, a point, and exactly two fractional
/// digits.
pub open spec fn value_chars(v: LoxValue) -> Seq<char> {
    let mag = abs_hundredths(v);
    let digits = dec_chars(mag / 100) + seq![
        '.',
        digit_char((mag / 10) % 10),
        digit_char(mag % 10),
    ];
    if v.hundredths < 0 {
        seq!['-'] + digits
    } else {
        digits
    }
}

/// The single decimal digit `d`, as a one-character string slice.
fn digit_str(d: u64) -> (s: &'static str)
    requires
        d < 10,
    ensures
        s@ == seq![digit_char(d as nat)],
{
    let s: &'static str = if d == 0 {
        "0"
    } else if d == 1 {
        "1"
    } else if d == 2 {
        "2"
    } else if d == 3 {
        "3"
    } else if d == 4 {
        "4"
    } else if d == 5 {
        "5"
    } else if d == 6 {
        "6"
    } else if d == 7 {
        "7"
    } else if d == 8 {
        "8"
    } else {
        "9"
    };
    proof {
        reveal_strlit("0");
        reveal_strlit("1");
        reveal_strlit("2");
        reveal_strlit("3");
        reveal_strlit("4");
        reveal_strlit("5");
        reveal_strlit("6");
        reveal_strlit("7");
        reveal_strlit("8");
        reveal_strlit("9");
        assert(s@ =~= seq![digit_char(d as nat)]);
    }
    s
}

/// The decimal digits of `n`, without padding.
fn dec_string(n: u64) -> (s: String)
    ensures
        s@ == dec_chars(n as nat),
    decreases n,
{
    if n < 10 {
        digit_str(n).to_owned()
    } else {
        let mut s = dec_string(n / 10);
        s.append(digit_str(n % 10));
        proof {
            assert(s@ =~= dec_chars(n as nat));
        }
        s
    }
}

/// The byte offset `n` as an instruction label, zero-padded to four
/// digits.
pub fn offset_string(n: usize) -> (s: String)
    ensures
        s@ == offset_chars(n as nat),
{
    if n < 10000 {
        let w = n as u64;
        let mut s = digit_str(w / 1000).to_owned();
        s.append(digit_str((w / 100) % 10));
        s.append(digit_str((w / 10) % 10));
        s.append(digit_str(w % 10));
        proof {
            assert(s@ =~= offset_chars(n as nat));
        }
        s
    } else {
        let s = dec_string(n as u64);
        s
    }
}

/// A constant rendered exactly as the disassembler prints it: sign,
/// whole part, and two fractional digits.
pub fn value_string(v: &LoxValue) -> (s: String)
    ensures
        s@ == value_chars(*v),
{
    let h = v.hundredths;
    let mag: u64 = if h >= 0 {
        h as u64
    } else {
        ((-(h + 1)) as u64) + 1
    };
    proof {
        assert(mag as nat == abs_hundredths(*v));
    }
    let mut s = String::new();
    if h < 0 {
        s.append("-");
    }
    let whole = dec_string(mag / 100);
    s.append(whole.as_str());
    s.append(".");
    s.append(digit_str((mag / 10) % 10));
    s.append(digit_str(mag % 10));
    proof {
        reveal_strlit("-");
        reveal_strlit(".");
        assert(s@ =~= value_chars(*v));
    }
    s
}

} // verus!
