//! Character and string helpers shared by the formatting code.

use vstd::prelude::*;

verus! {

/// The decimal digit `d` (0..=9) as a character.
pub open spec fn digit_char(d: nat) -> char {
    if d == 0 { '0' }
    else if d == 1 { '1' }
    else if d == 2 { '2' }
    else if d == 3 { '3' }
    else if d == 4 { '4' }
    else if d == 5 { '5' }
    else if d == 6 { '6' }
    else if d == 7 { '7' }
    else if d == 8 { '8' }
    else { '9' }
}

/// The decimal representation of `n`, without sign or leading zeros.
pub open spec fn decimal(n: nat) -> Seq<char>
    decreases n,
{
    if n < 10 {
        seq![digit_char(n)]
    } else {
        decimal(n / 10).push(digit_char(n % 10))
    }
}

/// Appends `c` to `s` by `String::push`.
#[verifier::external_body]
pub(crate) fn push_char(s: &mut String, c: char)
    ensures
        final(s)@ == old(s)@.push(c),
{
    s.push(c);
}

fn digit(d: u64) -> (c: char)
    requires
        d < 10,
    ensures
        c == digit_char(d as nat),
{
    match d {
        0 => '0',
        1 => '1',
        2 => '2',
        3 => '3',
        4 => '4',
        5 => '5',
        6 => '6',
        7 => '7',
        8 => '8',
        _ => '9',
    }
}

/// Appends the decimal representation of `n` to `s`.
pub fn push_decimal(s: &mut String, n: u64)
    ensures
        final(s)@ == old(s)@ + decimal(n as nat),
    decreases n,
{
    if n >= 10 {
        push_decimal(s, n / 10);
        push_char(s, digit(n % 10));
        assert(s@ =~= old(s)@ + decimal(n as nat));
    } else {
        push_char(s, digit(n));
        assert(s@ =~= old(s)@ + decimal(n as nat));
    }
}


/// Number of bytes of the UTF-8 encoding of `c`.
pub open spec fn utf8_width(c: char) -> nat {
    if (c as u32) <= 0x7F {
        1
    } else if (c as u32) <= 0x7FF {
        2
    } else if (c as u32) <= 0xFFFF {
        3
    } else {
        4
    }
}

/// Number of bytes of the UTF-8 encoding of `s` (what `str::len` reports).
pub open spec fn byte_len(s: Seq<char>) -> nat
    decreases s.len(),
{
    if s.len() == 0 {
        0
    } else {
        byte_len(s.drop_last()) + utf8_width(s.last())
    }
}

pub proof fn lemma_byte_len_add(a: Seq<char>, b: Seq<char>)
    ensures
        byte_len(a + b) == byte_len(a) + byte_len(b),
    decreases b.len(),
{
    if b.len() == 0 {
        assert(a + b =~= a);
    } else {
        lemma_byte_len_add(a, b.drop_last());
        assert((a + b).drop_last() =~= a + b.drop_last());
    }
}

/// `byte_len` is the length of vstd's UTF-8 encoding, which `str::len` reports.
pub proof fn lemma_byte_len_is_encoding_len(s: Seq<char>)
    ensures
        byte_len(s) == vstd::utf8::encode_utf8(s).len(),
    decreases s.len(),
{
    if s.len() > 0 {
        lemma_byte_len_is_encoding_len(s.drop_first());
        lemma_byte_len_add(seq![s[0]], s.drop_first());
        assert(seq![s[0]] + s.drop_first() =~= s);
        assert(seq![s[0]].drop_last() =~= Seq::<char>::empty());
        vstd::utf8::char_is_scalar(s[0]);
        let v = s[0] as u32;
        assert(byte_len(seq![s[0]]) == utf8_width(s[0])) by {
            reveal_with_fuel(byte_len, 2);
            assert(seq![s[0]].last() == s[0]);
        }
        assert(vstd::utf8::encode_scalar(v).len() == utf8_width(s[0]));
        assert(vstd::utf8::encode_utf8(s) == vstd::utf8::encode_scalar(v) + vstd::utf8::encode_utf8(
            s.drop_first(),
        ));
    }
}

/// Bytes of the UTF-8 encoding of `c`, as `char::len_utf8` counts them.
pub fn char_width(c: char) -> (n: usize)
    ensures
        n == utf8_width(c),
{
    let v = c as u32;
    if v <= 0x7F {
        1
    } else if v <= 0x7FF {
        2
    } else if v <= 0xFFFF {
        3
    } else {
        4
    }
}

/// Unicode's White_Space property.
pub open spec fn is_white_space(c: char) -> bool {
    let v = c as u32;
    ||| 0x09 <= v <= 0x0D
    ||| v == 0x20
    ||| v == 0x85
    ||| v == 0xA0
    ||| v == 0x1680
    ||| 0x2000 <= v <= 0x200A
    ||| v == 0x2028
    ||| v == 0x2029
    ||| v == 0x202F
    ||| v == 0x205F
    ||| v == 0x3000
}

/// Whether `c` has Unicode's White_Space property, as `char::is_whitespace`
/// decides it.
pub(crate) fn is_whitespace(c: char) -> (b: bool)
    ensures
        b == is_white_space(c),
{
    let v = c as u32;
    (0x09 <= v && v <= 0x0D) || v == 0x20 || v == 0x85 || v == 0xA0 || v == 0x1680 || (0x2000
        <= v && v <= 0x200A) || v == 0x2028 || v == 0x2029 || v == 0x202F || v == 0x205F || v
        == 0x3000
}

/// `n` capped at `usize::MAX`.
pub open spec fn sat(n: nat) -> usize {
    if n <= usize::MAX { n as usize } else { usize::MAX }
}


/// Some prefix of `s` is exactly `b` bytes long (cutting `s` at byte `b`
/// does not split a character).
pub open spec fn has_byte_prefix(s: Seq<char>, b: nat) -> bool {
    exists|k: int| 0 <= k <= s.len() && byte_len(s.take(k)) == b
}

/// Number of characters of the prefix of `s` that is `b` bytes long.
pub open spec fn byte_prefix_chars(s: Seq<char>, b: nat) -> int {
    choose|k: int| 0 <= k <= s.len() && byte_len(s.take(k)) == b
}

proof fn lemma_prefix_bytes_step(s: Seq<char>, k: int)
    requires
        0 < k <= s.len(),
    ensures
        byte_len(s.take(k)) == byte_len(s.take(k - 1)) + utf8_width(s[k - 1]),
{
    assert(s.take(k).drop_last() =~= s.take(k - 1));
}

/// Longer prefixes have more bytes.
pub proof fn lemma_prefix_bytes_increasing(s: Seq<char>, j: int, k: int)
    requires
        0 <= j < k <= s.len(),
    ensures
        byte_len(s.take(j)) < byte_len(s.take(k)),
    decreases k - j,
{
    lemma_prefix_bytes_step(s, k);
    if j < k - 1 {
        lemma_prefix_bytes_increasing(s, j, k - 1);
    }
}

/// Reads characters of `s` until `b` bytes are covered or `s` ends; returns
/// how many characters it read and their byte count.
pub fn scan_bytes(s: &str, b: usize) -> (res: (usize, usize))
    requires
        b <= usize::MAX - 4,
    ensures
        res.0 <= s@.len(),
        res.1 == byte_len(s@.take(res.0 as int)),
        res.1 < b ==> res.0 == s@.len(),
        res.0 > 0 ==> byte_len(s@.take(res.0 - 1)) < b,
        has_byte_prefix(s@, b as nat) && res.1 >= b ==> res.1 == b && res.0 == byte_prefix_chars(
            s@,
            b as nat,
        ),
{
    let n = s.unicode_len();
    let mut k: usize = 0;
    let mut bytes: usize = 0;
    while k < n && bytes < b
        invariant
            n == s@.len(),
            k <= n,
            bytes == byte_len(s@.take(k as int)),
            b <= usize::MAX - 4,
            bytes <= b + 3,
            k > 0 ==> byte_len(s@.take(k - 1)) < b,
            k == 0 ==> bytes == 0,
        decreases n - k,
    {
        let c = s.get_char(k);
        proof {
            lemma_prefix_bytes_step(s@, k + 1);
        }
        bytes = bytes + char_width(c);
        k = k + 1;
    }
    assert(s@.take(0) =~= Seq::<char>::empty());
    proof {
        if has_byte_prefix(s@, b as nat) && bytes >= b {
            let j = byte_prefix_chars(s@, b as nat);
            if j < k - 1 {
                lemma_prefix_bytes_increasing(s@, j, k - 1);
            }
            if k < j {
                lemma_prefix_bytes_increasing(s@, k as int, j);
            }
        }
    }
    (k, bytes)
}


/// Whether two strings hold the same characters.
pub fn same_text(a: &str, b: &str) -> (r: bool)
    ensures
        r == (a@ == b@),
{
    let n = a.unicode_len();
    if n != b.unicode_len() {
        return false;
    }
    let mut i: usize = 0;
    while i < n
        invariant
            n == a@.len(),
            n == b@.len(),
            i <= n,
            forall|j: int| 0 <= j < i ==> a@[j] == b@[j],
        decreases n - i,
    {
        if a.get_char(i) != b.get_char(i) {
            return false;
        }
        i = i + 1;
    }
    assert(a@ =~= b@);
    true
}

} // verus!
