//! Small verified string helpers the statement builders lean on: appending a
//! single character, locale-independent decimal rendering of integers,
//! zero-padded fields for dates, substring search and string equality.
use vstd::prelude::*;

verus! {

/// Relies on String::push: appends exactly one character to the string.
#[verifier::external_body]
pub(crate) fn push_char(s: &mut String, c: char)
    ensures
        final(s)@ == old(s)@ + seq![c],
{
    s.push(c)
}

/// The decimal digit character for `d`, defined for `d < 10`.
pub open spec fn digit_char(d: nat) -> char {
    if d == 0 {
        '0'
    } else if d == 1 {
        '1'
    } else if d == 2 {
        '2'
    } else if d == 3 {
        '3'
    } else if d == 4 {
        '4'
    } else if d == 5 {
        '5'
    } else if d == 6 {
        '6'
    } else if d == 7 {
        '7'
    } else if d == 8 {
        '8'
    } else {
        '9'
    }
}

/// The usual decimal rendering of `n`, most significant digit first, with no
/// leading zeros (a single `0` for zero).
pub open spec fn dec_of(n: nat) -> Seq<char>
    decreases n,
{
    if n < 10 {
        seq![digit_char(n)]
    } else {
        dec_of(n / 10) + seq![digit_char(n % 10)]
    }
}

/// The decimal rendering of the integer `n`, a minus sign first when it is
/// negative.
pub open spec fn dec_of_int(n: int) -> Seq<char> {
    if n >= 0 {
        dec_of(n as nat)
    } else {
        seq!['-'] + dec_of((-n) as nat)
    }
}

fn digit_to_char(d: u128) -> (c: char)
    requires
        d < 10,
    ensures
        c == digit_char(d as nat),
{
    match d {
        0 => '0',
        1 => '1',
        2 => '2',
        3 => '3',
        4 => '4',
        5 => '5',
        6 => '6',
        7 => '7',
        8 => '8',
        _ => '9',
    }
}

/// Renders `n` in decimal.
pub fn u128_to_dec(n: u128) -> (r: String)
    ensures
        r@ == dec_of(n as nat),
    decreases n,
{
    if n < 10 {
        let mut s = String::new();
        push_char(&mut s, digit_to_char(n));
        assert(s@ =~= dec_of(n as nat));
        s
    } else {
        let mut s = u128_to_dec(n / 10);
        push_char(&mut s, digit_to_char(n % 10));
        assert(s@ =~= dec_of(n as nat));
        s
    }
}

/// Renders `n` in decimal.
pub fn u64_to_dec(n: u64) -> (r: String)
    ensures
        r@ == dec_of(n as nat),
{
    u128_to_dec(n as u128)
}

/// Renders the signed integer `n` in decimal, with a leading minus sign when
/// it is negative.
pub fn i128_to_dec(n: i128) -> (r: String)
    ensures
        r@ == dec_of_int(n as int),
{
    if n >= 0 {
        u128_to_dec(n as u128)
    } else {
        let magnitude: u128 = ((-(n + 1)) as u128) + 1;
        assert(magnitude == (-(n as int)) as nat);
        let mut s = String::new();
        s.append("-");
        let digits = u128_to_dec(magnitude);
        s.append(digits.as_str());
        proof {
            reveal_strlit("-");
            assert(s@ =~= dec_of_int(n as int));
        }
        s
    }
}

/// Renders the signed integer `n` in decimal.
pub fn i64_to_dec(n: i64) -> (r: String)
    ensures
        r@ == dec_of_int(n as int),
{
    i128_to_dec(n as i128)
}

/// `n` rendered in decimal, left-padded with zeros to `width` digits.
/// Defined for values that fit the width.
pub open spec fn padded_dec(n: nat, width: nat) -> Seq<char>
    decreases width,
{
    if width <= 1 {
        seq![digit_char(n % 10)]
    } else {
        padded_dec(n / 10, (width - 1) as nat) + seq![digit_char(n % 10)]
    }
}

/// Renders `n` zero-padded to `width` digits; `n` must fit in the width.
pub fn to_padded_dec(n: u64, width: u64) -> (r: String)
    requires
        1 <= width <= 12,
        n < pow10(width as nat),
    ensures
        r@ == padded_dec(n as nat, width as nat),
    decreases width,
{
    if width <= 1 {
        let mut s = String::new();
        push_char(&mut s, digit_to_char((n % 10) as u128));
        assert(s@ =~= padded_dec(n as nat, width as nat));
        s
    } else {
        proof {
            lemma_pow10_div(n as nat, width as nat);
        }
        let mut s = to_padded_dec(n / 10, width - 1);
        push_char(&mut s, digit_to_char((n % 10) as u128));
        assert(s@ =~= padded_dec(n as nat, width as nat));
        s
    }
}

/// Ten to the `w`.
pub open spec fn pow10(w: nat) -> nat
    decreases w,
{
    if w == 0 {
        1
    } else {
        10 * pow10((w - 1) as nat)
    }
}

/// The concrete values of the small powers of ten the padded renderings
/// use.
pub proof fn lemma_pow10_small()
    ensures
        pow10(1) == 10,
        pow10(2) == 100,
        pow10(3) == 1000,
        pow10(4) == 10000,
        pow10(9) == 1000000000,
{
    assert(pow10(0) == 1);
    assert(pow10(1) == 10);
    assert(pow10(2) == 100);
    assert(pow10(3) == 1000);
    assert(pow10(4) == 10000);
    assert(pow10(5) == 100000);
    assert(pow10(6) == 1000000);
    assert(pow10(7) == 10000000);
    assert(pow10(8) == 100000000);
    assert(pow10(9) == 1000000000);
}

proof fn lemma_pow10_div(n: nat, w: nat)
    requires
        w >= 1,
        n < pow10(w),
    ensures
        n / 10 < pow10((w - 1) as nat),
{
    assert(pow10(w) == 10 * pow10((w - 1) as nat));
}

/// `c` with an ASCII capital letter lowered, other characters unchanged.
pub open spec fn lower_char(c: char) -> char {
    if 'A' <= c <= 'Z' {
        ((c as u8) + 32) as char
    } else {
        c
    }
}

/// `s` with every ASCII capital letter lowered.
pub open spec fn lower_seq(s: Seq<char>) -> Seq<char> {
    s.map_values(|c: char| lower_char(c))
}

/// Lowers the ASCII capital letters of `s`; other characters pass through
/// unchanged.
pub fn to_ascii_lower(s: &str) -> (r: String)
    ensures
        r@ == lower_seq(s@),
{
    let len = s.unicode_len();
    let mut out = String::new();
    let mut i: usize = 0;
    while i < len
        invariant
            len == s@.len(),
            0 <= i <= len,
            out@ == lower_seq(s@.subrange(0, i as int)),
        decreases len - i,
    {
        let c = s.get_char(i);
        let lowered: char = if 'A' <= c && c <= 'Z' {
            (((c as u8) + 32) as char)
        } else {
            c
        };
        assert(lowered == lower_char(s@[i as int]));
        push_char(&mut out, lowered);
        proof {
            assert(s@.subrange(0, i + 1) =~= s@.subrange(0, i as int).push(s@[i as int]));
            assert(out@ =~= lower_seq(s@.subrange(0, i + 1)));
        }
        i += 1;
    }
    assert(s@.subrange(0, len as int) =~= s@);
    out
}

/// Whether `needle` occurs as a contiguous subsequence of `hay`.
pub open spec fn contains_seq(hay: Seq<char>, needle: Seq<char>) -> bool {
    exists|i: int|
        0 <= i && i + needle.len() <= hay.len() && #[trigger] hay.subrange(
            i,
            i + needle.len() as int,
        ) =~= needle
}

/// Whether `hay` starting at position `at` reads exactly `needle`.
fn matches_at(hay: &str, hay_len: usize, at: usize, needle: &str, needle_len: usize) -> (r: bool)
    requires
        hay_len == hay@.len(),
        needle_len == needle@.len(),
        at + needle_len <= hay_len,
    ensures
        r == (hay@.subrange(at as int, at + needle_len as int) =~= needle@),
{
    let mut j: usize = 0;
    while j < needle_len
        invariant
            hay_len == hay@.len(),
            needle_len == needle@.len(),
            at + needle_len <= hay_len,
            0 <= j <= needle_len,
            forall|k: int| 0 <= k < j ==> hay@[at + k] == needle@[k],
        decreases needle_len - j,
    {
        if hay.get_char(at + j) != needle.get_char(j) {
            assert(hay@.subrange(at as int, at + needle_len as int)[j as int] != needle@[j as int]);
            return false;
        }
        j += 1;
    }
    assert forall|k: int| 0 <= k < needle_len implies hay@.subrange(
        at as int,
        at + needle_len as int,
    )[k] == needle@[k] by {
        assert(hay@[at + k] == needle@[k]);
    }
    true
}

/// Whether the string `needle` occurs anywhere inside `hay`.
pub fn str_contains(hay: &str, needle: &str) -> (r: bool)
    ensures
        r == contains_seq(hay@, needle@),
{
    let hay_len = hay.unicode_len();
    let needle_len = needle.unicode_len();
    if needle_len > hay_len {
        return false;
    }
    let mut i: usize = 0;
    while i <= hay_len - needle_len
        invariant
            hay_len == hay@.len(),
            needle_len == needle@.len(),
            needle_len <= hay_len,
            0 <= i <= hay_len - needle_len + 1,
            forall|k: int|
                0 <= k < i ==> !(#[trigger] hay@.subrange(k, k + needle.view().len() as int)
                    =~= needle@),
        decreases hay_len + 1 - i,
    {
        if matches_at(hay, hay_len, i, needle, needle_len) {
            return true;
        }
        i += 1;
    }
    false
}

/// Whether two string slices hold the same characters.
pub fn str_eq(a: &str, b: &str) -> (r: bool)
    ensures
        r == (a@ == b@),
{
    let sa = String::from_str(a);
    let sb = String::from_str(b);
    if sa == sb {
        true
    } else {
        assert(a@ != b@);
        false
    }
}

/// Whether the two optional strings hold the same contents.
pub fn opt_str_eq(a: &Option<String>, b: &Option<String>) -> (r: bool)
    ensures
        r == match (a, b) {
            (Some(x), Some(y)) => x@ == y@,
            (None, None) => true,
            _ => false,
        },
{
    match (a, b) {
        (Some(x), Some(y)) => str_eq(x.as_str(), y.as_str()),
        (None, None) => true,
        _ => false,
    }
}

} // verus!
