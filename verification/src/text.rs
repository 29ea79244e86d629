//! Reading numbers and separated pairs out of decoded text, and writing
//! numbers back as decimal text. Every function here states its result
//! exactly over the character sequences involved.

use vstd::prelude::*;
use crate::CoreError;

verus! {

/// A decimal digit.
pub open spec fn is_digit(c: char) -> bool {
    48 <= c as int <= 57
}

/// The value of one decimal digit.
pub open spec fn digit_val(c: char) -> int {
    c as int - 48
}

/// Every character of `s` is a decimal digit.
pub open spec fn all_digits(s: Seq<char>) -> bool {
    forall|i: int| 0 <= i < s.len() ==> is_digit(s[i])
}

/// The number the digit string `s` denotes, most significant digit first.
pub open spec fn digits_val(s: Seq<char>) -> int
    decreases s.len(),
{
    if s.len() == 0 {
        0
    } else {
        10 * digits_val(s.drop_last()) + digit_val(s.last())
    }
}

/// The number a digit string denotes, where it has at least one digit,
/// nothing but digits, and fits the range.
pub open spec fn u16_of_text(s: Seq<char>) -> Option<u16> {
    if s.len() > 0 && all_digits(s) && digits_val(s) <= u16::MAX {
        Some(digits_val(s) as u16)
    } else {
        None
    }
}

/// As `u16_of_text`, over the narrower range.
pub open spec fn u8_of_text(s: Seq<char>) -> Option<u8> {
    if s.len() > 0 && all_digits(s) && digits_val(s) <= u8::MAX {
        Some(digits_val(s) as u8)
    } else {
        None
    }
}

proof fn lemma_digits_val_nonneg(s: Seq<char>)
    requires
        all_digits(s),
    ensures
        digits_val(s) >= 0,
    decreases s.len(),
{
    if s.len() > 0 {
        assert(all_digits(s.drop_last()));
        lemma_digits_val_nonneg(s.drop_last());
    }
}

/// A digit string denotes at least as much as any of its prefixes.
proof fn lemma_digits_val_prefix(s: Seq<char>, i: int)
    requires
        all_digits(s),
        0 <= i <= s.len(),
    ensures
        digits_val(s.subrange(0, i)) <= digits_val(s),
    decreases s.len() - i,
{
    if i == s.len() {
        assert(s.subrange(0, i) =~= s);
    } else {
        lemma_digits_val_prefix(s, i + 1);
        let p = s.subrange(0, i + 1);
        assert(p.drop_last() =~= s.subrange(0, i));
        assert(all_digits(s.subrange(0, i)));
        lemma_digits_val_nonneg(s.subrange(0, i));
        assert(digits_val(p) == 10 * digits_val(s.subrange(0, i)) + digit_val(s[i]));
        assert(digits_val(s.subrange(0, i)) <= digits_val(p));
    }
}

/// Reads an unsigned number from `s`: defined exactly when `s` is one or
/// more decimal digits denoting a value within range.
pub fn parse_u16(s: &str) -> (r: Result<u16, CoreError>)
    ensures
        (r == match u16_of_text(s@) {
            Some(n) => Result::<u16, CoreError>::Ok(n),
            None => Result::<u16, CoreError>::Err(CoreError::BadFormat),
        }),
{
    let n = s.unicode_len();
    if n == 0 {
        return Err(CoreError::BadFormat);
    }
    let mut acc: u32 = 0;
    let mut i: usize = 0;
    while i < n
        invariant
            0 <= i <= n,
            n == s@.len(),
            all_digits(s@.subrange(0, i as int)),
            acc == digits_val(s@.subrange(0, i as int)),
            acc <= u16::MAX,
        decreases n - i,
    {
        let c = s.get_char(i);
        let cv: u32 = c as u32;
        if cv < 48 || cv > 57 {
            return Err(CoreError::BadFormat);
        }
        let next: u32 = acc * 10 + (cv - 48);
        proof {
            let p = s@.subrange(0, i as int + 1);
            assert(p.drop_last() =~= s@.subrange(0, i as int));
            assert(digits_val(p) == 10 * digits_val(s@.subrange(0, i as int)) + digit_val(s@[i as int]));
        }
        if next > 65535 {
            proof {
                if all_digits(s@) {
                    lemma_digits_val_prefix(s@, i as int + 1);
                    assert(digits_val(s@) >= digits_val(s@.subrange(0, i as int + 1)));
                }
            }
            return Err(CoreError::BadFormat);
        }
        acc = next;
        i = i + 1;
    }
    proof {
        assert(s@.subrange(0, n as int) =~= s@);
    }
    Ok(acc as u16)
}

/// Reads an unsigned number as `parse_u16`, within the narrower range.
pub fn parse_u8(s: &str) -> (r: Result<u8, CoreError>)
    ensures
        (r == match u8_of_text(s@) {
            Some(n) => Result::<u8, CoreError>::Ok(n),
            None => Result::<u8, CoreError>::Err(CoreError::BadFormat),
        }),
{
    proof {
        if all_digits(s@) {
            lemma_digits_val_nonneg(s@);
        }
    }
    match parse_u16(s) {
        Ok(n) => {
            if n <= 255 {
                Ok(n as u8)
            } else {
                Err(CoreError::BadFormat)
            }
        },
        Err(e) => Err(CoreError::BadFormat),
    }
}

/// The position of the first `sep` in `s`, or the length of `s` where the
/// separator does not occur.
pub open spec fn first_index(s: Seq<char>, sep: char) -> int
    decreases s.len(),
{
    if s.len() == 0 {
        0
    } else if s[0] == sep {
        0
    } else {
        1 + first_index(s.drop_first(), sep)
    }
}

proof fn lemma_first_index(s: Seq<char>, sep: char)
    ensures
        0 <= first_index(s, sep) <= s.len(),
        first_index(s, sep) < s.len() ==> s[first_index(s, sep)] == sep,
        forall|j: int| 0 <= j < first_index(s, sep) ==> s[j] != sep,
    decreases s.len(),
{
    if s.len() > 0 && s[0] != sep {
        lemma_first_index(s.drop_first(), sep);
        let r = first_index(s, sep);
        assert forall|j: int| 0 <= j < r implies s[j] != sep by {
            if j > 0 {
                assert(s.drop_first()[j - 1] == s[j]);
            }
        }
    }
}

/// The two fields of `s` around its first `sep`: the text before the first
/// `sep`, and the text from there to the second `sep` or the end. Nothing
/// where `s` holds no separator at all.
pub open spec fn split_two(s: Seq<char>, sep: char) -> Option<(Seq<char>, Seq<char>)> {
    let i = first_index(s, sep);
    if i == s.len() {
        None
    } else {
        let rest = s.subrange(i + 1, s.len() as int);
        let j = first_index(rest, sep);
        Some((s.subrange(0, i), rest.subrange(0, j)))
    }
}

/// Finds the first `sep` in `s` at or after `from`.
fn find_from(s: &str, n: usize, sep: char, from: usize) -> (r: usize)
    requires
        n == s@.len(),
        0 <= from <= n,
    ensures
        from <= r <= n,
        r < n ==> s@[r as int] == sep,
        forall|j: int| from <= j < r ==> s@[j] != sep,
    decreases n - from,
{
    let mut i: usize = from;
    while i < n
        invariant
            from <= i <= n,
            n == s@.len(),
            forall|j: int| from <= j < i ==> s@[j] != sep,
        decreases n - i,
    {
        if s.get_char(i) == sep {
            return i;
        }
        i = i + 1;
    }
    i
}

/// Relates a scan that found the first `sep` to `first_index`.
proof fn lemma_first_index_unique(s: Seq<char>, sep: char, i: int)
    requires
        0 <= i <= s.len(),
        i < s.len() ==> s[i] == sep,
        forall|j: int| 0 <= j < i ==> s[j] != sep,
    ensures
        first_index(s, sep) == i,
{
    lemma_first_index(s, sep);
    let r = first_index(s, sep);
    if r < i {
        assert(s[r] == sep);
    } else if i < r {
        assert(i < s.len());
    }
}

/// Splits `s` at its first `sep` into the two leading fields, as
/// `split_two` says; text without the separator is refused.
pub fn split_pair<'a>(s: &'a str, sep: char) -> (r: Option<(&'a str, &'a str)>)
    ensures
        (match split_two(s@, sep) {
            Some((a, b)) => r is Some && (r->0).0@ == a && (r->0).1@ == b,
            None => r is None,
        }),
{
    let n = s.unicode_len();
    let i = find_from(s, n, sep, 0);
    proof {
        lemma_first_index_unique(s@, sep, i as int);
    }
    if i == n {
        return None;
    }
    let j = find_from(s, n, sep, i + 1);
    let head = s.substring_char(0, i);
    let mid = s.substring_char(i + 1, j);
    proof {
        let rest = s@.subrange(i as int + 1, s@.len() as int);
        assert forall|k: int| 0 <= k < (j - i - 1) implies rest[k] != sep by {
            assert(rest[k] == s@[i + 1 + k]);
        }
        if j < n {
            assert(rest[j - i - 1] == s@[j as int]);
        }
        lemma_first_index_unique(rest, sep, j - i - 1);
        assert(mid@ =~= rest.subrange(0, j - i - 1));
    }
    Some((head, mid))
}

/// The `i`th column of a split row, reading a missing column as empty
/// text.
pub open spec fn row_field(row: Seq<String>, i: int) -> Seq<char> {
    if 0 <= i < row.len() {
        row[i]@
    } else {
        Seq::empty()
    }
}

/// Borrows the `i`th column of a split row, or empty text where the row
/// is too short.
pub fn row_field_str(row: &Vec<String>, i: usize) -> (s: &str)
    ensures
        s@ == row_field(row@, i as int),
{
    if i < row.len() {
        row[i].as_str()
    } else {
        proof {
            reveal_strlit("");
            assert(""@ =~= Seq::<char>::empty());
        }
        ""
    }
}

/// The character of one decimal digit.
pub open spec fn digit_char(d: int) -> char {
    if d == 0 {
        '0'
    } else if d == 1 {
        '1'
    } else if d == 2 {
        '2'
    } else if d == 3 {
        '3'
    } else if d == 4 {
        '4'
    } else if d == 5 {
        '5'
    } else if d == 6 {
        '6'
    } else if d == 7 {
        '7'
    } else if d == 8 {
        '8'
    } else {
        '9'
    }
}

/// The decimal text of `n`, most significant digit first, no padding.
pub open spec fn dec_text(n: nat) -> Seq<char>
    decreases n,
{
    if n < 10 {
        seq![digit_char(n as int)]
    } else {
        dec_text(n / 10).push(digit_char((n % 10) as int))
    }
}

/// The decimal text of `n` padded with zeros to at least two places.
pub open spec fn pad2_text(n: nat) -> Seq<char> {
    if n < 10 {
        seq!['0', digit_char(n as int)]
    } else {
        dec_text(n)
    }
}

/// The decimal text of `n` padded with zeros to at least four places.
pub open spec fn pad4_text(n: nat) -> Seq<char> {
    if n >= 1000 {
        dec_text(n)
    } else if n >= 100 {
        seq!['0'] + dec_text(n)
    } else if n >= 10 {
        seq!['0', '0'] + dec_text(n)
    } else {
        seq!['0', '0', '0'] + dec_text(n)
    }
}

/// One digit as text.
pub fn digit_str(d: u16) -> (r: &'static str)
    requires
        d < 10,
    ensures
        r@ == seq![digit_char(d as int)],
{
    proof {
        reveal_strlit("0");
        reveal_strlit("1");
        reveal_strlit("2");
        reveal_strlit("3");
        reveal_strlit("4");
        reveal_strlit("5");
        reveal_strlit("6");
        reveal_strlit("7");
        reveal_strlit("8");
        reveal_strlit("9");
        assert("0"@ =~= seq!['0']);
        assert("1"@ =~= seq!['1']);
        assert("2"@ =~= seq!['2']);
        assert("3"@ =~= seq!['3']);
        assert("4"@ =~= seq!['4']);
        assert("5"@ =~= seq!['5']);
        assert("6"@ =~= seq!['6']);
        assert("7"@ =~= seq!['7']);
        assert("8"@ =~= seq!['8']);
        assert("9"@ =~= seq!['9']);
    }
    if d == 0 {
        "0"
    } else if d == 1 {
        "1"
    } else if d == 2 {
        "2"
    } else if d == 3 {
        "3"
    } else if d == 4 {
        "4"
    } else if d == 5 {
        "5"
    } else if d == 6 {
        "6"
    } else if d == 7 {
        "7"
    } else if d == 8 {
        "8"
    } else {
        "9"
    }
}

/// The decimal text of a number.
pub fn u16_text(n: u16) -> (r: String)
    ensures
        r@ == dec_text(n as nat),
    decreases n,
{
    if n < 10 {
        String::from_str(digit_str(n))
    } else {
        let mut s = u16_text(n / 10);
        s.append(digit_str(n % 10));
        proof {
            assert(s@ =~= dec_text((n / 10) as nat).push(digit_char((n % 10) as int)));
        }
        s
    }
}

/// The decimal text of a number, zero-padded to two places.
pub fn pad2(n: u16) -> (r: String)
    ensures
        r@ == pad2_text(n as nat),
{
    if n < 10 {
        let mut s = String::from_str("0");
        s.append(digit_str(n));
        proof {
            reveal_strlit("0");
            assert(s@ =~= pad2_text(n as nat));
        }
        s
    } else {
        u16_text(n)
    }
}

/// The decimal text of a number, zero-padded to four places.
pub fn pad4(n: u16) -> (r: String)
    ensures
        r@ == pad4_text(n as nat),
{
    if n >= 1000 {
        u16_text(n)
    } else if n >= 100 {
        let mut s = String::from_str("0");
        s.append(u16_text(n).as_str());
        proof {
            reveal_strlit("0");
            assert("0"@ =~= seq!['0']);
            assert(s@ =~= pad4_text(n as nat));
        }
        s
    } else if n >= 10 {
        let mut s = String::from_str("00");
        s.append(u16_text(n).as_str());
        proof {
            reveal_strlit("00");
            assert("00"@ =~= seq!['0', '0']);
            assert(s@ =~= pad4_text(n as nat));
        }
        s
    } else {
        let mut s = String::from_str("000");
        s.append(u16_text(n).as_str());
        proof {
            reveal_strlit("000");
            assert("000"@ =~= seq!['0', '0', '0']);
            assert(s@ =~= pad4_text(n as nat));
        }
        s
    }
}

/// `s` with every occurrence of `from` replaced by `to`.
pub open spec fn replaced(s: Seq<char>, from: char, to: char) -> Seq<char> {
    Seq::new(s.len(), |i: int| if s[i] == from { to } else { s[i] })
}

/// Replaces every occurrence of one character, handing back the text
/// otherwise unchanged.
pub fn replace_char(s: &str, from: char, to: &str) -> (r: String)
    requires
        to@.len() == 1,
    ensures
        r@ == replaced(s@, from, to@[0]),
{
    let n = s.unicode_len();
    let mut out = String::new();
    let mut seg_start: usize = 0;
    let mut i: usize = 0;
    while i < n
        invariant
            0 <= seg_start <= i <= n,
            n == s@.len(),
            to@.len() == 1,
            forall|j: int| seg_start <= j < i ==> s@[j] != from,
            out@ =~= replaced(s@.subrange(0, seg_start as int), from, to@[0]),
        decreases n - i,
    {
        if s.get_char(i) == from {
            let seg = s.substring_char(seg_start, i);
            out.append(seg);
            out.append(to);
            proof {
                assert(out@ =~= replaced(s@.subrange(0, i as int + 1), from, to@[0]));
            }
            seg_start = i + 1;
        }
        i = i + 1;
    }
    let seg = s.substring_char(seg_start, n);
    out.append(seg);
    proof {
        assert(out@ =~= replaced(s@, from, to@[0]));
    }
    out
}

/// Character-for-character equality of two pieces of text.
pub fn str_eq(a: &str, b: &str) -> (r: bool)
    ensures
        r == (a@ == b@),
{
    let n = a.unicode_len();
    let m = b.unicode_len();
    if n != m {
        return false;
    }
    let mut i: usize = 0;
    while i < n
        invariant
            0 <= i <= n,
            n == a@.len(),
            n == b@.len(),
            forall|j: int| 0 <= j < i ==> a@[j] == b@[j],
        decreases n - i,
    {
        if a.get_char(i) != b.get_char(i) {
            return false;
        }
        i = i + 1;
    }
    proof {
        assert(a@ =~= b@);
    }
    true
}

} // verus!
