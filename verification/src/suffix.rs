//! The hostname suffix: the octets of the address and the prefix length, each
//! XOR-ed with a byte of the key and written as two upper-case hex digits.
use vstd::prelude::*;
use crate::text::{copy_range, find_char, find_from, lemma_find_char};

verus! {

pub open spec fn is_digit(c: char) -> bool {
    '0' <= c && c <= '9'
}

pub open spec fn digit_value(c: char) -> nat {
    (c as int - '0' as int) as nat
}

/// The value of a string of decimal digits.
pub open spec fn decimal_value(s: Seq<char>) -> nat
    decreases s.len(),
{
    if s.len() == 0 {
        0
    } else {
        decimal_value(s.drop_last()) * 10 + digit_value(s.last())
    }
}

/// The part of a number's text after an optional leading `+`.
pub open spec fn unsigned_digits(s: Seq<char>) -> Seq<char> {
    if s.len() > 0 && s[0] == '+' {
        s.drop_first()
    } else {
        s
    }
}

pub open spec fn all_digits(d: Seq<char>) -> bool {
    forall|i: int| 0 <= i < d.len() ==> is_digit(#[trigger] d[i])
}

/// What `str::parse::<u8>` gives: an optional `+`, then one or more ASCII
/// digits whose value is at most 255.
pub open spec fn parse_u8(s: Seq<char>) -> Option<u8> {
    let d = unsigned_digits(s);
    if d.len() > 0 && all_digits(d) && decimal_value(d) <= 255 {
        Some(decimal_value(d) as u8)
    } else {
        None
    }
}

pub open spec fn opt_seq(o: Option<u8>) -> Seq<u8> {
    match o {
        Some(x) => seq![x],
        None => seq![],
    }
}

/// The octets of a dotted address, starting at the piece that begins at `p`:
/// the address is split at every `.`, and the pieces that are not a `u8` are dropped.
pub open spec fn octets_from(s: Seq<char>, p: int) -> Seq<u8>
    decreases s.len() - p,
{
    if p < 0 || p > s.len() {
        seq![]
    } else {
        let e = find_char(s, p, '.');
        proof {
            lemma_find_char(s, p, '.');
        }
        let head = opt_seq(parse_u8(s.subrange(p, e)));
        if e >= s.len() {
            head
        } else {
            head + octets_from(s, e + 1)
        }
    }
}

/// The bytes that the suffix encodes: the address octets, then the prefix length if it is a `u8`.
pub open spec fn suffix_bytes(ip: Seq<char>, mask: Seq<char>) -> Seq<u8> {
    octets_from(ip, 0) + opt_seq(parse_u8(mask))
}

pub open spec fn hex_digit(d: u8) -> char {
    if d < 10 {
        ((d + 48) as u8) as char
    } else {
        ((d + 55) as u8) as char
    }
}

/// `format!("{:02X}", b)`.
pub open spec fn hex2(b: u8) -> Seq<char> {
    seq![hex_digit(b / 16), hex_digit(b % 16)]
}

/// The first `n` bytes of `data`, each XOR-ed with the key byte at its index
/// modulo the key length, in hex.
pub open spec fn xor_hex(data: Seq<u8>, key: Seq<u8>, n: nat) -> Seq<char>
    decreases n,
{
    if n == 0 || key.len() == 0 {
        seq![]
    } else {
        let i = (n - 1) as int;
        xor_hex(data, key, (n - 1) as nat) + hex2(data[i] ^ key[i % (key.len() as int)])
    }
}

pub proof fn lemma_decimal_grows(s: Seq<char>, j: int)
    requires
        0 <= j <= s.len(),
    ensures
        decimal_value(s.subrange(0, j)) <= decimal_value(s),
    decreases s.len() - j,
{
    if j < s.len() {
        lemma_decimal_grows(s, j + 1);
        assert(s.subrange(0, j + 1).drop_last() =~= s.subrange(0, j));
    } else {
        assert(s.subrange(0, j) =~= s);
    }
}

fn digit_of(c: char) -> (r: Option<u8>)
    ensures
        match r {
            Some(d) => is_digit(c) && d == digit_value(c),
            None => !is_digit(c),
        },
{
    if '0' <= c && c <= '9' {
        Some(((c as u32) - 48) as u8)
    } else {
        None
    }
}

/// `s.parse::<u8>().ok()`.
pub fn parse_u8_exec(s: &[char]) -> (r: Option<u8>)
    ensures
        r == parse_u8(s@),
{
    let start: usize = if s.len() > 0 && s[0] == '+' {
        1
    } else {
        0
    };
    let ghost d = unsigned_digits(s@);
    assert(d =~= s@.subrange(start as int, s@.len() as int));
    if start >= s.len() {
        return None;
    }
    let mut value: u32 = 0;
    let mut i = start;
    while i < s.len()
        invariant
            start <= i <= s.len(),
            start < s.len(),
            d == s@.subrange(start as int, s@.len() as int),
            d == unsigned_digits(s@),
            value <= 255,
            value == decimal_value(d.subrange(0, i - start)),
            forall|k: int| 0 <= k < i - start ==> is_digit(#[trigger] d[k]),
        decreases s.len() - i,
    {
        let dg = digit_of(s[i]);
        assert(d[i - start] == s@[i as int]);
        match dg {
            None => {
                assert(!is_digit(d[i - start]));
                return None;
            },
            Some(x) => {
                let ghost pre = d.subrange(0, i - start);
                let ghost post = d.subrange(0, i + 1 - start);
                assert(post.drop_last() =~= pre);
                assert(post.last() == s@[i as int]);
                assert(decimal_value(post) == decimal_value(pre) * 10 + digit_value(post.last()));
                value = value * 10 + x as u32;
                i = i + 1;
                if value > 255 {
                    proof {
                        lemma_decimal_grows(d, i - start);
                    }
                    return None;
                }
            },
        }
    }
    assert(d.subrange(0, i - start) =~= d);
    Some(value as u8)
}

/// The octets of a dotted address (see `octets_from`).
pub fn octets(s: &[char]) -> (r: Vec<u8>)
    ensures
        r@ == octets_from(s@, 0),
{
    let mut r: Vec<u8> = Vec::new();
    let mut p: usize = 0;
    loop
        invariant
            p <= s.len(),
            octets_from(s@, 0) == r@ + octets_from(s@, p as int),
        decreases s.len() - p,
    {
        let e = find_from(s, p, '.');
        proof {
            lemma_find_char(s@, p as int, '.');
        }
        let piece = copy_range(s, p, e);
        let ghost before = r@;
        match parse_u8_exec(piece.as_slice()) {
            Some(x) => r.push(x),
            None => {},
        }
        assert(r@ == before + opt_seq(parse_u8(s@.subrange(p as int, e as int))));
        if e >= s.len() {
            assert(octets_from(s@, p as int) == opt_seq(parse_u8(s@.subrange(p as int, e as int))));
            return r;
        }
        assert(r@ + octets_from(s@, e + 1) =~= before + octets_from(s@, p as int));
        p = e + 1;
    }
}

fn hex_digit_exec(d: u8) -> (c: char)
    requires
        d < 16,
    ensures
        c == hex_digit(d),
{
    if d < 10 {
        (d + 48) as char
    } else {
        (d + 55) as char
    }
}

/// The hex text of `data` XOR-ed with a repeating `key`.
pub fn xor_hex_exec(data: &[u8], key: &[u8]) -> (r: Vec<char>)
    requires
        data.len() > 0 ==> key.len() > 0,
    ensures
        r@ == xor_hex(data@, key@, data@.len()),
{
    let mut r: Vec<char> = Vec::new();
    let mut i: usize = 0;
    while i < data.len()
        invariant
            i <= data.len(),
            data.len() > 0 ==> key.len() > 0,
            r@ == xor_hex(data@, key@, i as nat),
        decreases data.len() - i,
    {
        let x = data[i] ^ key[i % key.len()];
        let hi = hex_digit_exec(x / 16);
        let lo = hex_digit_exec(x % 16);
        r.push(hi);
        r.push(lo);
        i = i + 1;
        assert(r@ =~= xor_hex(data@, key@, (i - 1) as nat) + hex2(x));
    }
    r
}

} // verus!
