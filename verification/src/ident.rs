//! Canonical record identifiers: 24 hexadecimal characters, the canonical
//! string form of a 12-byte store key. Holds the validity predicate that the
//! id-scoped routes check, and a verified generator of fresh identifiers from
//! a counter, with the injectivity proof that makes generated ids unique.

use vstd::prelude::*;

verus! {

/// A hexadecimal digit character, either case.
pub open spec fn is_hex_char(c: char) -> bool {
    (48 <= c as u32 && c as u32 <= 57)  // '0' ..= '9'
    || (97 <= c as u32 && c as u32 <= 102)  // 'a' ..= 'f'
    || (65 <= c as u32 && c as u32 <= 70)  // 'A' ..= 'F'
}

/// A well-formed identifier: exactly 24 hexadecimal characters.
pub open spec fn is_valid_id(s: Seq<char>) -> bool {
    s.len() == 24 && forall|i: int| 0 <= i < 24 ==> is_hex_char(s[i])
}

/// Whether a character is a hexadecimal digit.
fn hex_char(c: char) -> (r: bool)
    ensures
        r == is_hex_char(c),
{
    let u = c as u32;
    (48 <= u && u <= 57) || (97 <= u && u <= 102) || (65 <= u && u <= 70)
}

/// Whether a string is a well-formed identifier.
pub fn validate_id(s: &str) -> (r: bool)
    ensures
        r == is_valid_id(s@),
{
    let n = s.unicode_len();
    if n != 24 {
        return false;
    }
    let mut i: usize = 0;
    while i < 24
        invariant
            i <= 24,
            s@.len() == 24,
            forall|j: int| 0 <= j < i ==> is_hex_char(s@[j]),
        decreases 24 - i,
    {
        if !hex_char(s.get_char(i)) {
            return false;
        }
        i += 1;
    }
    true
}

/// Sixteen to the power `n`.
pub open spec fn pow16(n: nat) -> nat
    decreases n,
{
    if n == 0 {
        1
    } else {
        16 * pow16((n - 1) as nat)
    }
}

/// The lowercase hexadecimal digit for a value below sixteen.
pub open spec fn hex_digit(d: nat) -> char {
    if d == 0 {
        '0'
    } else if d == 1 {
        '1'
    } else if d == 2 {
        '2'
    } else if d == 3 {
        '3'
    } else if d == 4 {
        '4'
    } else if d == 5 {
        '5'
    } else if d == 6 {
        '6'
    } else if d == 7 {
        '7'
    } else if d == 8 {
        '8'
    } else if d == 9 {
        '9'
    } else if d == 10 {
        'a'
    } else if d == 11 {
        'b'
    } else if d == 12 {
        'c'
    } else if d == 13 {
        'd'
    } else if d == 14 {
        'e'
    } else {
        'f'
    }
}

/// The value of a lowercase hexadecimal digit character.
pub open spec fn hex_val(c: char) -> nat {
    if c == '0' {
        0
    } else if c == '1' {
        1
    } else if c == '2' {
        2
    } else if c == '3' {
        3
    } else if c == '4' {
        4
    } else if c == '5' {
        5
    } else if c == '6' {
        6
    } else if c == '7' {
        7
    } else if c == '8' {
        8
    } else if c == '9' {
        9
    } else if c == 'a' {
        10
    } else if c == 'b' {
        11
    } else if c == 'c' {
        12
    } else if c == 'd' {
        13
    } else if c == 'e' {
        14
    } else {
        15
    }
}

/// The `len`-digit lowercase hexadecimal rendering of `k`, most significant
/// digit first.
pub open spec fn hex_repr(k: nat, len: nat) -> Seq<char>
    decreases len,
{
    if len == 0 {
        Seq::empty()
    } else {
        hex_repr(k / 16, (len - 1) as nat).push(hex_digit(k % 16))
    }
}

/// The numeric value of a sequence of lowercase hexadecimal digits.
pub open spec fn hex_decode(s: Seq<char>) -> nat
    decreases s.len(),
{
    if s.len() == 0 {
        0
    } else {
        hex_decode(s.drop_last()) * 16 + hex_val(s.last())
    }
}

pub proof fn lemma_hex_repr_len(k: nat, len: nat)
    ensures
        hex_repr(k, len).len() == len,
    decreases len,
{
    if len > 0 {
        lemma_hex_repr_len(k / 16, (len - 1) as nat);
    }
}

/// Every digit of a hexadecimal rendering is a hexadecimal character.
pub proof fn lemma_hex_repr_valid(k: nat, len: nat)
    ensures
        forall|i: int| 0 <= i < len ==> is_hex_char(#[trigger] hex_repr(k, len)[i]),
    decreases len,
{
    lemma_hex_repr_len(k, len);
    if len > 0 {
        lemma_hex_repr_len(k / 16, (len - 1) as nat);
        lemma_hex_repr_valid(k / 16, (len - 1) as nat);
        assert(is_hex_char(hex_digit(k % 16)));
        assert forall|i: int| 0 <= i < len implies is_hex_char(#[trigger] hex_repr(k, len)[i]) by {
            if i < len - 1 {
                assert(hex_repr(k, len)[i] == hex_repr(k / 16, (len - 1) as nat)[i]);
            } else {
                assert(hex_repr(k, len)[i] == hex_digit(k % 16));
            }
        }
    }
}

/// Rendering then decoding gives the number back, for numbers that fit.
pub proof fn lemma_hex_repr_decode(k: nat, len: nat)
    requires
        k < pow16(len),
    ensures
        hex_decode(hex_repr(k, len)) == k,
    decreases len,
{
    if len == 0 {
        assert(k == 0);
    } else {
        let rest = hex_repr(k / 16, (len - 1) as nat);
        let whole = rest.push(hex_digit(k % 16));
        lemma_hex_repr_len(k / 16, (len - 1) as nat);
        assert(whole.drop_last() =~= rest);
        assert(whole.last() == hex_digit(k % 16));
        vstd::arithmetic::div_mod::lemma_fundamental_div_mod(k as int, 16);
        vstd::arithmetic::div_mod::lemma_mod_bound(k as int, 16);
        if k / 16 >= pow16((len - 1) as nat) {
            assert(16 * (k / 16) >= 16 * pow16((len - 1) as nat)) by (nonlinear_arith)
                requires
                    k / 16 >= pow16((len - 1) as nat),
            ;
            assert(false);
        }
        lemma_hex_repr_decode(k / 16, (len - 1) as nat);
        assert(hex_val(hex_digit(k % 16)) == k % 16);
        assert(hex_decode(whole) == (k / 16) * 16 + k % 16);
    }
}

/// Two different numbers that fit in `len` digits render differently.
pub proof fn lemma_hex_repr_injective(k1: nat, k2: nat, len: nat)
    requires
        k1 < pow16(len),
        k2 < pow16(len),
        hex_repr(k1, len) == hex_repr(k2, len),
    ensures
        k1 == k2,
{
    lemma_hex_repr_decode(k1, len);
    lemma_hex_repr_decode(k2, len);
}

/// Every 64-bit number fits in 24 hexadecimal digits.
pub proof fn lemma_u64_fits_24_digits(k: u64)
    ensures
        (k as nat) < pow16(24),
{
    assert(pow16(0) == 1);
    assert(pow16(1) == 0x10);
    assert(pow16(2) == 0x100);
    assert(pow16(3) == 0x1000);
    assert(pow16(4) == 0x10000);
    assert(pow16(5) == 0x100000);
    assert(pow16(6) == 0x1000000);
    assert(pow16(7) == 0x10000000);
    assert(pow16(8) == 0x100000000);
    assert(pow16(9) == 0x1000000000);
    assert(pow16(10) == 0x10000000000);
    assert(pow16(11) == 0x100000000000);
    assert(pow16(12) == 0x1000000000000);
    assert(pow16(13) == 0x10000000000000);
    assert(pow16(14) == 0x100000000000000);
    assert(pow16(15) == 0x1000000000000000);
    assert(pow16(16) == 0x10000000000000000);
    assert(pow16(17) == 0x100000000000000000);
    assert(pow16(18) == 0x1000000000000000000);
    assert(pow16(19) == 0x10000000000000000000);
    assert(pow16(20) == 0x100000000000000000000);
    assert(pow16(21) == 0x1000000000000000000000);
    assert(pow16(22) == 0x10000000000000000000000);
    assert(pow16(23) == 0x100000000000000000000000);
    assert(pow16(24) == 0x1000000000000000000000000);
}

/// The `len`-digit lowercase hexadecimal string for `k`.
pub fn hex_str(k: u64, len: usize) -> (r: String)
    ensures
        r@ == hex_repr(k as nat, len as nat),
    decreases len,
{
    if len == 0 {
        String::new()
    } else {
        let mut s = hex_str(k / 16, len - 1);
        let d = (k % 16) as usize;
        let digits: &str = "0123456789abcdef";
        proof {
            reveal_strlit("0123456789abcdef");
        }
        let c: &str = digits.substring_char(d, d + 1);
        s.append(c);
        proof {
            assert(c@ =~= seq![digits@[d as int]]);
            assert(digits@[d as int] == hex_digit((k % 16) as nat));
            assert(s@ =~= hex_repr(k as nat, len as nat));
        }
        s
    }
}

} // verus!
