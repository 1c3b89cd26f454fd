//! Small verified text utilities over `Seq<char>` views: prefix and suffix
//! tests, whitespace trimming, equality, and decimal rendering of integers.

use vstd::prelude::*;

verus! {

pub open spec fn starts_with(s: Seq<char>, p: Seq<char>) -> bool {
    p.len() <= s.len() && s.subrange(0, p.len() as int) == p
}

pub open spec fn ends_with(s: Seq<char>, p: Seq<char>) -> bool {
    p.len() <= s.len() && s.subrange(s.len() - p.len(), s.len() as int) == p
}

pub fn str_starts_with(s: &str, p: &str) -> (r: bool)
    ensures
        r == starts_with(s@, p@),
{
    let sl = s.unicode_len();
    let pl = p.unicode_len();
    if pl > sl {
        return false;
    }
    let mut i: usize = 0;
    while i < pl
        invariant
            i <= pl,
            pl == p@.len(),
            sl == s@.len(),
            pl <= sl,
            forall|k: int| 0 <= k < i ==> s@[k] == p@[k],
        decreases pl - i,
    {
        if s.get_char(i) != p.get_char(i) {
            proof {
                assert(s@.subrange(0, pl as int)[i as int] == s@[i as int]);
            }
            return false;
        }
        i = i + 1;
    }
    proof {
        assert(s@.subrange(0, pl as int) =~= p@);
    }
    true
}

pub fn str_ends_with(s: &str, p: &str) -> (r: bool)
    ensures
        r == ends_with(s@, p@),
{
    let sl = s.unicode_len();
    let pl = p.unicode_len();
    if pl > sl {
        return false;
    }
    let off = sl - pl;
    let mut i: usize = 0;
    while i < pl
        invariant
            i <= pl,
            pl == p@.len(),
            sl == s@.len(),
            pl <= sl,
            off == sl - pl,
            forall|k: int| 0 <= k < i ==> s@[off + k] == p@[k],
        decreases pl - i,
    {
        if s.get_char(off + i) != p.get_char(i) {
            proof {
                assert(s@.subrange(off as int, sl as int)[i as int] == s@[off + i]);
            }
            return false;
        }
        i = i + 1;
    }
    proof {
        assert(s@.subrange(off as int, sl as int) =~= p@);
    }
    true
}

pub fn str_eq(a: &str, b: &str) -> (r: bool)
    ensures
        r == (a@ == b@),
{
    let al = a.unicode_len();
    let bl = b.unicode_len();
    if al != bl {
        return false;
    }
    let mut i: usize = 0;
    while i < al
        invariant
            i <= al,
            al == a@.len(),
            al == b@.len(),
            forall|k: int| 0 <= k < i ==> a@[k] == b@[k],
        decreases al - i,
    {
        if a.get_char(i) != b.get_char(i) {
            return false;
        }
        i = i + 1;
    }
    proof {
        assert(a@ =~= b@);
    }
    true
}

pub open spec fn is_space_char(c: char) -> bool {
    c == ' ' || c == '\t' || c == '\n' || c == '\r'
}

pub fn is_space(c: char) -> (r: bool)
    ensures
        r == is_space_char(c),
{
    c == ' ' || c == '\t' || c == '\n' || c == '\r'
}

pub open spec fn trim_start_spec(s: Seq<char>) -> Seq<char>
    decreases s.len(),
{
    if s.len() > 0 && is_space_char(s[0]) {
        trim_start_spec(s.skip(1))
    } else {
        s
    }
}

pub open spec fn trim_end_spec(s: Seq<char>) -> Seq<char>
    decreases s.len(),
{
    if s.len() > 0 && is_space_char(s.last()) {
        trim_end_spec(s.drop_last())
    } else {
        s
    }
}

pub open spec fn trim_spec(s: Seq<char>) -> Seq<char> {
    trim_end_spec(trim_start_spec(s))
}

/// Remove leading whitespace, as a subslice.
pub fn str_trim_start(s: &str) -> (r: &str)
    ensures
        r@ == trim_start_spec(s@),
{
    let len = s.unicode_len();
    let mut start: usize = 0;
    proof {
        assert(s@.skip(0) =~= s@);
    }
    loop
        invariant
            start <= len,
            len == s@.len(),
            trim_start_spec(s@) == trim_start_spec(s@.skip(start as int)),
        ensures
            start <= len,
            trim_start_spec(s@) == s@.skip(start as int),
        decreases len - start,
    {
        if start >= len {
            proof {
                assert(s@.skip(start as int) =~= Seq::<char>::empty());
            }
            break;
        }
        if !is_space(s.get_char(start)) {
            proof {
                assert(s@.skip(start as int)[0] == s@[start as int]);
            }
            break;
        }
        proof {
            assert(s@.skip(start as int)[0] == s@[start as int]);
            assert(s@.skip(start as int).skip(1) =~= s@.skip(start as int + 1));
        }
        start = start + 1;
    }
    let r = s.substring_char(start, len);
    proof {
        assert(s@.subrange(start as int, len as int) =~= s@.skip(start as int));
    }
    r
}

/// Remove leading and trailing whitespace, as a subslice.
pub fn str_trim(s: &str) -> (r: &str)
    ensures
        r@ == trim_spec(s@),
{
    let len = s.unicode_len();
    let mut start: usize = 0;
    proof {
        assert(s@.skip(0) =~= s@);
    }
    loop
        invariant
            start <= len,
            len == s@.len(),
            trim_start_spec(s@) == trim_start_spec(s@.skip(start as int)),
        ensures
            start <= len,
            trim_start_spec(s@) == s@.skip(start as int),
        decreases len - start,
    {
        if start >= len {
            proof {
                assert(s@.skip(start as int) =~= Seq::<char>::empty());
            }
            break;
        }
        if !is_space(s.get_char(start)) {
            proof {
                assert(s@.skip(start as int)[0] == s@[start as int]);
            }
            break;
        }
        proof {
            assert(s@.skip(start as int)[0] == s@[start as int]);
            assert(s@.skip(start as int).skip(1) =~= s@.skip(start as int + 1));
        }
        start = start + 1;
    }
    let mut end: usize = len;
    loop
        invariant
            start <= end <= len,
            len == s@.len(),
            trim_start_spec(s@) == s@.skip(start as int),
            trim_end_spec(s@.skip(start as int)) == trim_end_spec(
                s@.subrange(start as int, end as int),
            ),
        ensures
            start <= end <= len,
            trim_end_spec(s@.skip(start as int)) == s@.subrange(start as int, end as int),
        decreases end,
    {
        if end <= start {
            proof {
                assert(s@.subrange(start as int, end as int) =~= Seq::<char>::empty());
            }
            break;
        }
        if !is_space(s.get_char(end - 1)) {
            proof {
                let t = s@.subrange(start as int, end as int);
                assert(t.last() == s@[end - 1]);
            }
            break;
        }
        proof {
            let t = s@.subrange(start as int, end as int);
            assert(t.last() == s@[end - 1]);
            assert(t.drop_last() =~= s@.subrange(start as int, end as int - 1));
        }
        end = end - 1;
    }
    s.substring_char(start, end)
}

pub open spec fn dec_digit(d: int) -> char {
    if d == 0 {
        '0'
    } else if d == 1 {
        '1'
    } else if d == 2 {
        '2'
    } else if d == 3 {
        '3'
    } else if d == 4 {
        '4'
    } else if d == 5 {
        '5'
    } else if d == 6 {
        '6'
    } else if d == 7 {
        '7'
    } else if d == 8 {
        '8'
    } else {
        '9'
    }
}

/// The decimal rendering of a natural number, without leading zeros
/// (except for zero itself).
pub open spec fn dec_str(n: nat) -> Seq<char>
    decreases n,
{
    if n < 10 {
        seq![dec_digit(n as int)]
    } else {
        dec_str(n / 10).push(dec_digit((n % 10) as int))
    }
}

fn digit_str(d: u64) -> (r: &'static str)
    requires
        d < 10,
    ensures
        r@ == seq![dec_digit(d as int)],
{
    if d == 0 {
        proof {
            reveal_strlit("0");
            assert("0"@ =~= seq![dec_digit(0)]);
        }
        "0"
    } else if d == 1 {
        proof {
            reveal_strlit("1");
            assert("1"@ =~= seq![dec_digit(1)]);
        }
        "1"
    } else if d == 2 {
        proof {
            reveal_strlit("2");
            assert("2"@ =~= seq![dec_digit(2)]);
        }
        "2"
    } else if d == 3 {
        proof {
            reveal_strlit("3");
            assert("3"@ =~= seq![dec_digit(3)]);
        }
        "3"
    } else if d == 4 {
        proof {
            reveal_strlit("4");
            assert("4"@ =~= seq![dec_digit(4)]);
        }
        "4"
    } else if d == 5 {
        proof {
            reveal_strlit("5");
            assert("5"@ =~= seq![dec_digit(5)]);
        }
        "5"
    } else if d == 6 {
        proof {
            reveal_strlit("6");
            assert("6"@ =~= seq![dec_digit(6)]);
        }
        "6"
    } else if d == 7 {
        proof {
            reveal_strlit("7");
            assert("7"@ =~= seq![dec_digit(7)]);
        }
        "7"
    } else if d == 8 {
        proof {
            reveal_strlit("8");
            assert("8"@ =~= seq![dec_digit(8)]);
        }
        "8"
    } else {
        proof {
            reveal_strlit("9");
            assert("9"@ =~= seq![dec_digit(9)]);
        }
        "9"
    }
}

pub fn u64_to_dec_string(n: u64) -> (r: String)
    ensures
        r@ == dec_str(n as nat),
    decreases n,
{
    if n < 10 {
        digit_str(n).to_owned()
    } else {
        proof {
            vstd::arithmetic::div_mod::lemma_div_decreases(n as int, 10);
        }
        let mut s = u64_to_dec_string(n / 10);
        s.append(digit_str(n % 10));
        proof {
            assert(dec_str((n / 10) as nat) + seq![dec_digit((n % 10) as int)] =~= dec_str(
                (n / 10) as nat,
            ).push(dec_digit((n % 10) as int)));
        }
        s
    }
}

/// The digits after the decimal point for a fraction of `f` thousandths,
/// `1 <= f <= 999`, with trailing zeros trimmed.
pub open spec fn frac3_digits(f: int) -> Seq<char> {
    let d1 = dec_digit(f / 100);
    let d2 = dec_digit(f / 10 % 10);
    let d3 = dec_digit(f % 10);
    if f % 10 != 0 {
        seq![d1, d2, d3]
    } else if f / 10 % 10 != 0 {
        seq![d1, d2]
    } else {
        seq![d1]
    }
}

/// A value of `n` thousandths rendered as a decimal number, with the
/// fractional part omitted when zero and its trailing zeros trimmed.
pub open spec fn fixed3_str(n: nat) -> Seq<char> {
    if n % 1000 == 0 {
        dec_str(n / 1000)
    } else {
        dec_str(n / 1000) + seq!['.'] + frac3_digits((n % 1000) as int)
    }
}

/// The digits after the decimal point for a fraction of `f` hundredths,
/// `1 <= f <= 99`, with a trailing zero trimmed.
pub open spec fn frac2_digits(f: int) -> Seq<char> {
    let d1 = dec_digit(f / 10);
    let d2 = dec_digit(f % 10);
    if f % 10 != 0 {
        seq![d1, d2]
    } else {
        seq![d1]
    }
}

/// A value of `h` hundredths rendered as a decimal number, with the
/// fractional part omitted when zero and a trailing zero trimmed, and a
/// minus sign for negative values.
pub open spec fn fixed2_str(h: int) -> Seq<char> {
    if h < 0 {
        seq!['-'] + fixed2_nonneg_str((-h) as nat)
    } else {
        fixed2_nonneg_str(h as nat)
    }
}

pub open spec fn fixed2_nonneg_str(h: nat) -> Seq<char> {
    if h % 100 == 0 {
        dec_str(h / 100)
    } else {
        dec_str(h / 100) + seq!['.'] + frac2_digits((h % 100) as int)
    }
}

fn dot_str() -> (r: &'static str)
    ensures
        r@ == seq!['.'],
{
    proof {
        reveal_strlit(".");
        assert("."@ =~= seq!['.']);
    }
    "."
}

pub fn u64_fixed3_string(n: u64) -> (r: String)
    ensures
        r@ == fixed3_str(n as nat),
{
    let whole = n / 1000;
    let f = n % 1000;
    let mut s = u64_to_dec_string(whole);
    if f != 0 {
        s.append(dot_str());
        s.append(digit_str(f / 100));
        if f % 10 != 0 {
            s.append(digit_str(f / 10 % 10));
            s.append(digit_str(f % 10));
            proof {
                assert(s@ =~= fixed3_str(n as nat));
            }
        } else if f / 10 % 10 != 0 {
            s.append(digit_str(f / 10 % 10));
            proof {
                assert(s@ =~= fixed3_str(n as nat));
            }
        } else {
            proof {
                assert(s@ =~= fixed3_str(n as nat));
            }
        }
    }
    s
}

pub fn u64_fixed2_string(h: u64) -> (r: String)
    ensures
        r@ == fixed2_nonneg_str(h as nat),
{
    let whole = h / 100;
    let f = h % 100;
    let mut s = u64_to_dec_string(whole);
    if f != 0 {
        s.append(dot_str());
        s.append(digit_str(f / 10));
        if f % 10 != 0 {
            s.append(digit_str(f % 10));
            proof {
                assert(s@ =~= fixed2_nonneg_str(h as nat));
            }
        } else {
            proof {
                assert(s@ =~= fixed2_nonneg_str(h as nat));
            }
        }
    }
    s
}

pub fn i64_fixed2_string(h: i64) -> (r: String)
    ensures
        r@ == fixed2_str(h as int),
{
    if h >= 0 {
        u64_fixed2_string(h as u64)
    } else {
        let magnitude: u64 = (-(h as i128)) as u64;
        let mut s = String::from_str("-");
        s.append(u64_fixed2_string(magnitude).as_str());
        proof {
            reveal_strlit("-");
            assert("-"@ =~= seq!['-']);
        }
        s
    }
}

} // verus!
