use vstd::prelude::*;
use vstd::string::StrSliceExecFns;
use vstd::string::StringExecFns;

verus! {

/// The decimal digit character for `d`; digits ten and above are never used.
pub open spec fn digit_char(d: int) -> char {
    if d == 0 {
        '0'
    } else if d == 1 {
        '1'
    } else if d == 2 {
        '2'
    } else if d == 3 {
        '3'
    } else if d == 4 {
        '4'
    } else if d == 5 {
        '5'
    } else if d == 6 {
        '6'
    } else if d == 7 {
        '7'
    } else if d == 8 {
        '8'
    } else {
        '9'
    }
}

/// The decimal digit sequence of a nonnegative number, most significant digit
/// first.
pub open spec fn spec_nat_str(v: int) -> Seq<char>
    decreases v,
{
    if v < 10 {
        seq![digit_char(v)]
    } else {
        spec_nat_str(v / 10).push(digit_char(v % 10))
    }
}

/// The decimal rendering of a signed number: a minus sign followed by the
/// digits of its magnitude, or just the digits when it is nonnegative.
pub open spec fn spec_int_str(v: int) -> Seq<char> {
    if v >= 0 {
        spec_nat_str(v)
    } else {
        seq!['-'] + spec_nat_str(-v)
    }
}

/// A one-character string slice holding the decimal digit `d`.
fn digit_str(d: u64) -> (r: &'static str)
    requires
        d < 10,
    ensures
        r@ =~= seq![digit_char(d as int)],
{
    proof {
        reveal_strlit("0");
        reveal_strlit("1");
        reveal_strlit("2");
        reveal_strlit("3");
        reveal_strlit("4");
        reveal_strlit("5");
        reveal_strlit("6");
        reveal_strlit("7");
        reveal_strlit("8");
        reveal_strlit("9");
    }
    if d == 0 {
        "0"
    } else if d == 1 {
        "1"
    } else if d == 2 {
        "2"
    } else if d == 3 {
        "3"
    } else if d == 4 {
        "4"
    } else if d == 5 {
        "5"
    } else if d == 6 {
        "6"
    } else if d == 7 {
        "7"
    } else if d == 8 {
        "8"
    } else {
        "9"
    }
}

/// Renders an unsigned number in decimal.
pub fn u64_to_string(v: u64) -> (s: String)
    ensures
        s@ == spec_nat_str(v as int),
    decreases v,
{
    if v < 10 {
        let s = String::from_str(digit_str(v));
        proof {
            assert(s@ =~= spec_nat_str(v as int));
        }
        s
    } else {
        let mut s = u64_to_string(v / 10);
        s.append(digit_str(v % 10));
        proof {
            assert(s@ =~= spec_nat_str(v as int));
        }
        s
    }
}

/// Renders a machine-sized number in decimal.
pub fn usize_to_string(v: usize) -> (s: String)
    ensures
        s@ == spec_nat_str(v as int),
{
    u64_to_string(v as u64)
}

/// Compares two string slices character by character.
pub fn str_eq(a: &str, b: &str) -> (r: bool)
    ensures
        r == (a@ == b@),
{
    let n = a.unicode_len();
    let m = b.unicode_len();
    if n != m {
        return false;
    }
    let mut i: usize = 0;
    while i < n
        invariant
            0 <= i <= n,
            n == a@.len(),
            n == b@.len(),
            forall|k: int| 0 <= k < i ==> a@[k] == b@[k],
        decreases n - i,
    {
        if a.get_char(i) != b.get_char(i) {
            return false;
        }
        i += 1;
    }
    proof {
        assert(a@ =~= b@);
    }
    true
}

/// Renders a signed number in decimal.
pub fn i32_to_string(v: i32) -> (s: String)
    ensures
        s@ == spec_int_str(v as int),
{
    if v >= 0 {
        u64_to_string(v as u64)
    } else {
        proof {
            reveal_strlit("-");
        }
        let mut s = String::from_str("-");
        let mag: u64 = (-(v as i64)) as u64;
        let digits = u64_to_string(mag);
        s.append(digits.as_str());
        proof {
            assert(s@ =~= spec_int_str(v as int));
        }
        s
    }
}

} // verus!
