//! Parsing hexadecimal text into machine words.

use vstd::prelude::*;

verus! {

/// Whether `c` is a hexadecimal digit.
pub open spec fn is_hex_digit(c: char) -> bool {
    ('0' as int <= c as int && c as int <= '9' as int) || ('a' as int <= c as int && c as int
        <= 'f' as int) || ('A' as int <= c as int && c as int <= 'F' as int)
}

/// The value of one hexadecimal digit.
pub open spec fn hex_digit_value(c: char) -> int {
    if '0' as int <= c as int && c as int <= '9' as int {
        c as int - '0' as int
    } else if 'a' as int <= c as int && c as int <= 'f' as int {
        c as int - 'a' as int + 10
    } else {
        c as int - 'A' as int + 10
    }
}

/// The value of a sequence of hexadecimal digits, most significant first.
pub open spec fn hex_value(s: Seq<char>) -> int
    decreases s.len(),
{
    if s.len() == 0 {
        0
    } else {
        hex_value(s.drop_last()) * 16 + hex_digit_value(s.last())
    }
}

/// Whether `s` is a well-formed hexadecimal numeral.
pub open spec fn is_hex_string(s: Seq<char>) -> bool {
    s.len() > 0 && forall|k: int| 0 <= k < s.len() ==> is_hex_digit(#[trigger] s[k])
}

/// Sixteen raised to a power.
pub open spec fn pow16(e: int) -> int
    decreases e,
{
    if e <= 0 {
        1
    } else {
        16 * pow16(e - 1)
    }
}

proof fn lemma_pow16_pos(e: int)
    ensures
        pow16(e) >= 1,
    decreases e,
{
    if e > 0 {
        lemma_pow16_pos(e - 1);
    }
}

/// Every prefix of a hexadecimal numeral, read as a numeral of its own,
/// stays between zero and the value of the whole numeral.
proof fn lemma_hex_prefix_bounds(s: Seq<char>, k: int)
    requires
        is_hex_string(s),
        0 <= k <= s.len(),
    ensures
        0 <= hex_value(s.subrange(0, k)) <= hex_value(s),
    decreases s.len() - k,
{
    if k == s.len() {
        assert(s.subrange(0, k) =~= s);
        lemma_hex_nonneg(s, k);
    } else {
        lemma_hex_prefix_bounds(s, k + 1);
        lemma_hex_nonneg(s, k);
        assert(s.subrange(0, k + 1).drop_last() =~= s.subrange(0, k));
        assert(s.subrange(0, k + 1).last() == s[k]);
        let vk = hex_value(s.subrange(0, k));
        let vk1 = hex_value(s.subrange(0, k + 1));
        let d = hex_digit_value(s[k]);
        assert(vk1 == vk * 16 + d);
        assert(0 <= d);
        assert(vk <= vk * 16) by (nonlinear_arith)
            requires
                vk >= 0,
        ;
    }
}

proof fn lemma_hex_nonneg(s: Seq<char>, k: int)
    requires
        is_hex_string(s),
        0 <= k <= s.len(),
    ensures
        hex_value(s.subrange(0, k)) >= 0,
    decreases k,
{
    if k > 0 {
        lemma_hex_nonneg(s, k - 1);
        assert(s.subrange(0, k).drop_last() =~= s.subrange(0, k - 1));
        let vk1 = hex_value(s.subrange(0, k - 1));
        let d = hex_digit_value(s[k - 1]);
        assert(vk1 * 16 >= 0) by (nonlinear_arith)
            requires
                vk1 >= 0,
        ;
        assert(d >= 0);
    }
}

/// The value of one hexadecimal digit character.
fn hex_digit(c: char) -> (r: u8)
    requires
        is_hex_digit(c),
    ensures
        r == hex_digit_value(c),
        r < 16,
{
    let u = c as u32;
    if 0x30 <= u && u <= 0x39 {
        (u - 0x30) as u8
    } else if 0x61 <= u && u <= 0x66 {
        (u - 0x61 + 10) as u8
    } else {
        (u - 0x41 + 10) as u8
    }
}

/// Reads `string` as a hexadecimal numeral whose value fits in a byte.
pub fn str_to_u8(string: &str) -> (r: u8)
    requires
        is_hex_string(string@),
        hex_value(string@) < 256,
    ensures
        r == hex_value(string@),
{
    let w = str_to_u16(string);
    w as u8
}

/// Reads `string` as a hexadecimal numeral whose value fits in a 16-bit word.
pub fn str_to_u16(string: &str) -> (r: u16)
    requires
        is_hex_string(string@),
        hex_value(string@) < 65536,
    ensures
        r == hex_value(string@),
{
    let n = string.unicode_len();
    let mut acc: u16 = 0;
    let mut k: usize = 0;
    while k < n
        invariant
            n == string@.len(),
            is_hex_string(string@),
            hex_value(string@) < 65536,
            k <= n,
            acc == hex_value(string@.subrange(0, k as int)),
        decreases n - k,
    {
        let c = string.get_char(k);
        let d = hex_digit(c);
        proof {
            assert(string@.subrange(0, k + 1 as int).drop_last() =~= string@.subrange(
                0,
                k as int,
            ));
            assert(string@.subrange(0, k + 1 as int).last() == string@[k as int]);
            lemma_hex_prefix_bounds(string@, k + 1 as int);
        }
        acc = acc * 16 + (d as u16);
        k += 1;
    }
    proof {
        assert(string@.subrange(0, n as int) =~= string@);
    }
    acc
}

} // verus!
