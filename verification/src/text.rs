use vstd::prelude::*;
use vstd::string::StrSliceExecFns;
use vstd::string::StringExecFns;

verus! {

/// The ten decimal digit characters.
pub open spec fn is_ascii_digit(c: char) -> bool {
    48 <= c as u32 && c as u32 <= 57
}

/// Numeric value of a digit character ('0' is 0, ... '9' is 9).
pub open spec fn digit_val(c: char) -> int {
    c as u32 - 48
}

/// The digit character for a value between 0 and 9.
pub open spec fn digit_char(d: int) -> char {
    if d == 0 {
        '0'
    } else if d == 1 {
        '1'
    } else if d == 2 {
        '2'
    } else if d == 3 {
        '3'
    } else if d == 4 {
        '4'
    } else if d == 5 {
        '5'
    } else if d == 6 {
        '6'
    } else if d == 7 {
        '7'
    } else if d == 8 {
        '8'
    } else {
        '9'
    }
}

/// The decimal rendering of `n`, without leading zeros (a single '0' for 0).
pub open spec fn dec_digits(n: nat) -> Seq<char>
    decreases n,
{
    if n < 10 {
        seq![digit_char(n as int)]
    } else {
        dec_digits(n / 10).push(digit_char((n % 10) as int))
    }
}

/// The decimal rendering of `n` in exactly `width` digits, zero-padded on the
/// left (truncating high digits if `n` needs more than `width`).
pub open spec fn padded_digits(n: nat, width: nat) -> Seq<char>
    decreases width,
{
    if width == 0 {
        Seq::empty()
    } else {
        padded_digits(n / 10, (width - 1) as nat).push(digit_char((n % 10) as int))
    }
}

/// The numeric value of a digit string, most significant digit first.
pub open spec fn digits_val(s: Seq<char>) -> int
    decreases s.len(),
{
    if s.len() == 0 {
        0
    } else {
        digits_val(s.drop_last()) * 10 + digit_val(s.last())
    }
}

/// How many times character `c` occurs in `s`.
pub open spec fn count_char(s: Seq<char>, c: char) -> int
    decreases s.len(),
{
    if s.len() == 0 {
        0
    } else {
        count_char(s.drop_last(), c) + if s.last() == c {
            1int
        } else {
            0int
        }
    }
}

/// `pat` occurs in `s` starting at position `i`.
pub open spec fn contains_at(s: Seq<char>, pat: Seq<char>, i: int) -> bool {
    0 <= i && i + pat.len() <= s.len() && s.subrange(i, i + pat.len() as int) == pat
}

/// `pat` occurs somewhere in `s`.
pub open spec fn contains_seq(s: Seq<char>, pat: Seq<char>) -> bool {
    exists|i: int| contains_at(s, pat, i)
}

/// `i` is the first position at which `pat` occurs in `s`.
pub open spec fn is_first_match(s: Seq<char>, pat: Seq<char>, i: int) -> bool {
    contains_at(s, pat, i) && forall|j: int| 0 <= j < i ==> !contains_at(s, pat, j)
}

/// The first position at which `pat` occurs in `s` (meaningful only when
/// `contains_seq(s, pat)` holds).
pub open spec fn first_match_idx(s: Seq<char>, pat: Seq<char>) -> int {
    choose|i: int| is_first_match(s, pat, i)
}

/// A first match position is unique, so it is the chosen one.
pub proof fn lemma_first_match_unique(s: Seq<char>, pat: Seq<char>, i: int)
    requires
        is_first_match(s, pat, i),
    ensures
        first_match_idx(s, pat) == i,
{
    assert(exists|j: int| is_first_match(s, pat, j));
    let j = first_match_idx(s, pat);
    assert(is_first_match(s, pat, j));
    if j < i {
        assert(contains_at(s, pat, j));
        assert(!contains_at(s, pat, j));
    } else if i < j {
        assert(contains_at(s, pat, i));
        assert(!contains_at(s, pat, i));
    }
}

/// Occurrences of a character in a concatenation split over the two parts.
pub proof fn lemma_count_char_concat(a: Seq<char>, b: Seq<char>, c: char)
    ensures
        count_char(a + b, c) == count_char(a, c) + count_char(b, c),
    decreases b.len(),
{
    if b.len() == 0 {
        assert(a + b =~= a);
    } else {
        lemma_count_char_concat(a, b.drop_last(), c);
        assert((a + b).drop_last() =~= a + b.drop_last());
        assert((a + b).last() == b.last());
    }
}

/// A string containing `c` at some position has a positive count of it.
pub proof fn lemma_count_char_one(s: Seq<char>, c: char, k: int)
    requires
        0 <= k < s.len(),
        s[k] == c,
    ensures
        count_char(s, c) >= 1,
    decreases s.len(),
{
    if k < s.len() - 1 {
        lemma_count_char_one(s.drop_last(), c, k);
    } else {
        lemma_count_char_nonneg(s.drop_last(), c);
    }
}

/// A one-character string counts 1 for its character and 0 otherwise.
pub proof fn lemma_count_char_singleton(x: char, c: char)
    ensures
        count_char(seq![x], c) == if x == c {
            1int
        } else {
            0int
        },
{
    assert(seq![x].drop_last() =~= Seq::<char>::empty());
    assert(seq![x].last() == x);
    assert(count_char(Seq::<char>::empty(), c) == 0);
    assert(count_char(seq![x], c) == count_char(seq![x].drop_last(), c) + if seq![x].last() == c {
        1int
    } else {
        0int
    });
}

/// Character counts are never negative.
pub proof fn lemma_count_char_nonneg(s: Seq<char>, c: char)
    ensures
        count_char(s, c) >= 0,
    decreases s.len(),
{
    if s.len() > 0 {
        lemma_count_char_nonneg(s.drop_last(), c);
    }
}

/// A digit character carries the digit value it was made from.
pub proof fn lemma_digit_char_val(d: int)
    requires
        0 <= d <= 9,
    ensures
        is_ascii_digit(digit_char(d)),
        digit_val(digit_char(d)) == d,
{
    assert('0' as u32 == 48);
    assert('1' as u32 == 49);
    assert('2' as u32 == 50);
    assert('3' as u32 == 51);
    assert('4' as u32 == 52);
    assert('5' as u32 == 53);
    assert('6' as u32 == 54);
    assert('7' as u32 == 55);
    assert('8' as u32 == 56);
    assert('9' as u32 == 57);
}

/// Rendered decimal digits are digits, at least one of them, and they parse
/// back to the rendered value.
pub proof fn lemma_dec_digits_props(n: nat)
    ensures
        dec_digits(n).len() >= 1,
        forall|k: int| 0 <= k < dec_digits(n).len() ==> is_ascii_digit(#[trigger] dec_digits(n)[k]),
        digits_val(dec_digits(n)) == n,
    decreases n,
{
    if n < 10 {
        lemma_digit_char_val(n as int);
        assert(dec_digits(n) =~= seq![digit_char(n as int)]);
        assert(dec_digits(n).drop_last() =~= Seq::empty());
        assert(dec_digits(n).last() == digit_char(n as int));
        assert(digits_val(dec_digits(n).drop_last()) == 0);
        assert(digits_val(dec_digits(n)) == digits_val(dec_digits(n).drop_last()) * 10
            + digit_val(dec_digits(n).last()));
        assert(digits_val(dec_digits(n)) == digit_val(digit_char(n as int)));
    } else {
        lemma_dec_digits_props(n / 10);
        lemma_digit_char_val((n % 10) as int);
        vstd::arithmetic::div_mod::lemma_fundamental_div_mod(n as int, 10);
        assert(dec_digits(n).drop_last() =~= dec_digits(n / 10));
        assert(dec_digits(n).last() == digit_char((n % 10) as int));
        assert(digits_val(dec_digits(n)) == (n / 10) * 10 + (n % 10));
    }
}

/// A zero-padded rendering has exactly the requested width, all digits.
pub proof fn lemma_padded_digits_props(n: nat, width: nat)
    ensures
        padded_digits(n, width).len() == width,
        forall|k: int|
            0 <= k < width ==> is_ascii_digit(#[trigger] padded_digits(n, width)[k]),
    decreases width,
{
    if width > 0 {
        lemma_padded_digits_props(n / 10, (width - 1) as nat);
        assert(padded_digits(n, width).drop_last() =~= padded_digits(n / 10, (width - 1) as nat));
    }
}

/// The one-character string for a decimal digit value.
pub fn digit_to_str(d: u64) -> (r: &'static str)
    requires
        d <= 9,
    ensures
        r@ == seq![digit_char(d as int)],
{
    proof {
        reveal_strlit("0");
        reveal_strlit("1");
        reveal_strlit("2");
        reveal_strlit("3");
        reveal_strlit("4");
        reveal_strlit("5");
        reveal_strlit("6");
        reveal_strlit("7");
        reveal_strlit("8");
        reveal_strlit("9");
    }
    if d == 0 {
        proof {
            assert("0"@ =~= seq![digit_char(0int)]);
        }
        "0"
    } else if d == 1 {
        proof {
            assert("1"@ =~= seq![digit_char(1int)]);
        }
        "1"
    } else if d == 2 {
        proof {
            assert("2"@ =~= seq![digit_char(2int)]);
        }
        "2"
    } else if d == 3 {
        proof {
            assert("3"@ =~= seq![digit_char(3int)]);
        }
        "3"
    } else if d == 4 {
        proof {
            assert("4"@ =~= seq![digit_char(4int)]);
        }
        "4"
    } else if d == 5 {
        proof {
            assert("5"@ =~= seq![digit_char(5int)]);
        }
        "5"
    } else if d == 6 {
        proof {
            assert("6"@ =~= seq![digit_char(6int)]);
        }
        "6"
    } else if d == 7 {
        proof {
            assert("7"@ =~= seq![digit_char(7int)]);
        }
        "7"
    } else if d == 8 {
        proof {
            assert("8"@ =~= seq![digit_char(8int)]);
        }
        "8"
    } else {
        proof {
            assert("9"@ =~= seq![digit_char(9int)]);
        }
        "9"
    }
}

/// Renders `n` in decimal without leading zeros.
pub fn u64_to_dec(n: u64) -> (r: String)
    ensures
        r@ == dec_digits(n as nat),
    decreases n,
{
    if n < 10 {
        let r = String::from_str(digit_to_str(n));
        proof {
            assert(r@ =~= dec_digits(n as nat));
        }
        r
    } else {
        let prefix = u64_to_dec(n / 10);
        let r = prefix.concat(digit_to_str(n % 10));
        proof {
            assert(r@ =~= dec_digits(n as nat));
        }
        r
    }
}

/// Renders `n` in exactly `width` decimal digits, zero-padded.
pub fn padded_dec(n: u64, width: usize) -> (r: String)
    ensures
        r@ == padded_digits(n as nat, width as nat),
    decreases width,
{
    if width == 0 {
        let r = String::new();
        proof {
            assert(r@ =~= padded_digits(n as nat, 0));
        }
        r
    } else {
        let prefix = padded_dec(n / 10, width - 1);
        let r = prefix.concat(digit_to_str(n % 10));
        proof {
            assert(r@ =~= padded_digits(n as nat, width as nat));
        }
        r
    }
}

/// Tests whether a character is a decimal digit.
pub fn char_is_digit(c: char) -> (r: bool)
    ensures
        r == is_ascii_digit(c),
{
    let u = c as u32;
    48 <= u && u <= 57
}

/// Counts the occurrences of `c` in `s`.
pub fn count_char_str(s: &str, c: char) -> (r: usize)
    ensures
        r == count_char(s@, c),
{
    let len = s.unicode_len();
    let mut i: usize = 0;
    let mut cnt: usize = 0;
    while i < len
        invariant
            i <= len,
            len == s@.len(),
            cnt <= i,
            cnt == count_char(s@.subrange(0, i as int), c),
        decreases len - i,
    {
        let ci = s.get_char(i);
        proof {
            assert(s@.subrange(0, i + 1).drop_last() =~= s@.subrange(0, i as int));
            assert(s@.subrange(0, i + 1).last() == s@[i as int]);
        }
        if ci == c {
            cnt += 1;
        }
        i += 1;
    }
    proof {
        assert(s@.subrange(0, len as int) =~= s@);
    }
    cnt
}

/// Tests whether `pat` occurs in `s` at position `i`.
pub fn match_at(s: &str, pat: &str, i: usize) -> (r: bool)
    requires
        i + pat@.len() <= s@.len(),
    ensures
        r == contains_at(s@, pat@, i as int),
{
    let slen = s.unicode_len();
    let plen = pat.unicode_len();
    let mut k: usize = 0;
    while k < plen
        invariant
            k <= plen,
            slen == s@.len(),
            plen == pat@.len(),
            i + plen <= slen,
            forall|m: int| 0 <= m < k ==> s@[i + m] == pat@[m],
        decreases plen - k,
    {
        let sc = s.get_char(i + k);
        let pc = pat.get_char(k);
        if sc != pc {
            proof {
                assert(s@.subrange(i as int, i + plen)[k as int] == s@[i + k]);
            }
            return false;
        }
        k += 1;
    }
    proof {
        assert(s@.subrange(i as int, i + plen) =~= pat@);
    }
    true
}

/// Finds the first occurrence of `pat` in `s`, if any.
pub fn find_first_str(s: &str, pat: &str) -> (r: Option<usize>)
    ensures
        r matches Some(i) ==> is_first_match(s@, pat@, i as int),
        r is None ==> !contains_seq(s@, pat@),
{
    let slen = s.unicode_len();
    let plen = pat.unicode_len();
    if plen > slen {
        proof {
            assert forall|j: int| !contains_at(s@, pat@, j) by {}
        }
        return None;
    }
    let bound = slen - plen;
    let mut i: usize = 0;
    loop
        invariant
            slen == s@.len(),
            plen == pat@.len(),
            plen <= slen,
            bound == slen - plen,
            i <= bound,
            forall|j: int| 0 <= j < i ==> !contains_at(s@, pat@, j),
        decreases bound - i,
    {
        if match_at(s, pat, i) {
            return Some(i);
        }
        if i == bound {
            proof {
                assert forall|j: int| !contains_at(s@, pat@, j) by {
                    if 0 <= j < i as int {
                        assert(!contains_at(s@, pat@, j));
                    }
                }
            }
            return None;
        }
        i += 1;
    }
}

/// Tests whether `pat` occurs anywhere in `s`.
pub fn contains_str(s: &str, pat: &str) -> (r: bool)
    ensures
        r == contains_seq(s@, pat@),
{
    match find_first_str(s, pat) {
        Some(i) => {
            proof {
                assert(contains_at(s@, pat@, i as int));
            }
            true
        },
        None => false,
    }
}

} // verus!
