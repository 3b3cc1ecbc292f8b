use vstd::prelude::*;
use crate::text::string_push;

verus! {

/// The lower-case hex character for a nibble value.
pub open spec fn hex_digit(n: int) -> char {
    if n == 0 { '0' }
    else if n == 1 { '1' }
    else if n == 2 { '2' }
    else if n == 3 { '3' }
    else if n == 4 { '4' }
    else if n == 5 { '5' }
    else if n == 6 { '6' }
    else if n == 7 { '7' }
    else if n == 8 { '8' }
    else if n == 9 { '9' }
    else if n == 10 { 'a' }
    else if n == 11 { 'b' }
    else if n == 12 { 'c' }
    else if n == 13 { 'd' }
    else if n == 14 { 'e' }
    else { 'f' }
}

/// The nibble value of a hex character; 16 marks a character that is no
/// hex digit.
pub open spec fn nibble_of(c: char) -> int {
    if c == '0' { 0 }
    else if c == '1' { 1 }
    else if c == '2' { 2 }
    else if c == '3' { 3 }
    else if c == '4' { 4 }
    else if c == '5' { 5 }
    else if c == '6' { 6 }
    else if c == '7' { 7 }
    else if c == '8' { 8 }
    else if c == '9' { 9 }
    else if c == 'a' { 10 }
    else if c == 'b' { 11 }
    else if c == 'c' { 12 }
    else if c == 'd' { 13 }
    else if c == 'e' { 14 }
    else if c == 'f' { 15 }
    else { 16 }
}

pub open spec fn is_hex_digit(c: char) -> bool {
    nibble_of(c) < 16
}

pub proof fn lemma_digit_roundtrip(n: int)
    requires
        0 <= n < 16,
    ensures
        nibble_of(hex_digit(n)) == n,
{
}

/// The lower-case hex encoding of a byte string, two digits per byte.
pub open spec fn hex_of(bs: Seq<u8>) -> Seq<char>
    decreases bs.len(),
{
    if bs.len() == 0 {
        Seq::empty()
    } else {
        seq![
            hex_digit((bs.first() >> 4) as int),
            hex_digit((bs.first() & 0x0f) as int),
        ] + hex_of(bs.drop_first())
    }
}

/// Decodes a hex character string back to bytes; `None` on odd length or on
/// any character that is no hex digit.
pub open spec fn unhex(cs: Seq<char>) -> Option<Seq<u8>>
    decreases cs.len(),
{
    if cs.len() == 0 {
        Option::Some(Seq::empty())
    } else if cs.len() == 1 {
        Option::None
    } else if is_hex_digit(cs[0]) && is_hex_digit(cs[1]) {
        match unhex(cs.skip(2)) {
            Option::Some(rest) => Option::Some(
                seq![((nibble_of(cs[0]) as u8) << 4) | (nibble_of(cs[1]) as u8)] + rest,
            ),
            Option::None => Option::None,
        }
    } else {
        Option::None
    }
}

pub proof fn lemma_hex_of_len(bs: Seq<u8>)
    ensures
        hex_of(bs).len() == 2 * bs.len(),
    decreases bs.len(),
{
    if bs.len() > 0 {
        lemma_hex_of_len(bs.drop_first());
    }
}

pub proof fn lemma_hex_of_digits(bs: Seq<u8>)
    ensures
        forall|i: int| 0 <= i < hex_of(bs).len() ==> is_hex_digit(#[trigger] hex_of(bs)[i]),
    decreases bs.len(),
{
    if bs.len() > 0 {
        lemma_hex_of_digits(bs.drop_first());
        let b = bs.first();
        assert((b >> 4) < 16 && (b & 0x0f) < 16) by (bit_vector);
        lemma_hex_of_len(bs.drop_first());
    }
}

/// Decoding inverts encoding.
pub proof fn lemma_unhex_hex(bs: Seq<u8>)
    ensures
        unhex(hex_of(bs)) == Option::Some(bs),
    decreases bs.len(),
{
    if bs.len() == 0 {
        assert(hex_of(bs).len() == 0);
    } else {
        let b = bs.first();
        lemma_unhex_hex(bs.drop_first());
        lemma_hex_of_len(bs.drop_first());
        let cs = hex_of(bs);
        assert(b >> 4 < 16 && (b & 0x0f) < 16) by (bit_vector);
        lemma_digit_roundtrip((b >> 4) as int);
        lemma_digit_roundtrip((b & 0x0f) as int);
        assert(cs.skip(2) =~= hex_of(bs.drop_first()));
        assert((((b >> 4) as u8) << 4) | ((b & 0x0f) as u8) == b) by (bit_vector);
        assert(seq![b] + bs.drop_first() =~= bs);
    }
}

/// A hex string of odd length decodes to nothing.
pub proof fn lemma_unhex_odd(cs: Seq<char>)
    requires
        cs.len() % 2 == 1,
    ensures
        unhex(cs) is None,
    decreases cs.len(),
{
    if cs.len() > 1 {
        lemma_unhex_odd(cs.skip(2));
    }
}

/// The hex character for a nibble.
fn hex_digit_char(n: u8) -> (c: char)
    requires
        n < 16,
    ensures
        c == hex_digit(n as int),
{
    if n == 0 { '0' }
    else if n == 1 { '1' }
    else if n == 2 { '2' }
    else if n == 3 { '3' }
    else if n == 4 { '4' }
    else if n == 5 { '5' }
    else if n == 6 { '6' }
    else if n == 7 { '7' }
    else if n == 8 { '8' }
    else if n == 9 { '9' }
    else if n == 10 { 'a' }
    else if n == 11 { 'b' }
    else if n == 12 { 'c' }
    else if n == 13 { 'd' }
    else if n == 14 { 'e' }
    else { 'f' }
}

/// The nibble value of a character, or 16 when it is no hex digit.
fn nibble_val(c: char) -> (n: u8)
    ensures
        n as int == nibble_of(c),
{
    if c == '0' { 0 }
    else if c == '1' { 1 }
    else if c == '2' { 2 }
    else if c == '3' { 3 }
    else if c == '4' { 4 }
    else if c == '5' { 5 }
    else if c == '6' { 6 }
    else if c == '7' { 7 }
    else if c == '8' { 8 }
    else if c == '9' { 9 }
    else if c == 'a' { 10 }
    else if c == 'b' { 11 }
    else if c == 'c' { 12 }
    else if c == 'd' { 13 }
    else if c == 'e' { 14 }
    else if c == 'f' { 15 }
    else { 16 }
}

/// Hex-encodes a byte string.
pub fn to_hex(data: &[u8]) -> (r: String)
    ensures
        r@ == hex_of(data@),
{
    let n: usize = data.len();
    let mut r = String::new();
    proof {
        assert(data@.skip(0) =~= data@);
    }
    let mut i: usize = 0;
    while i < n
        invariant
            n == data@.len(),
            0 <= i <= n,
            hex_of(data@) =~= r@ + hex_of(data@.skip(i as int)),
        decreases n - i,
    {
        let b = data[i];
        proof {
            assert(b >> 4 < 16 && (b & 0x0f) < 16) by (bit_vector);
            assert(data@.skip(i as int).first() == b);
            assert(data@.skip(i as int).drop_first() =~= data@.skip(i as int + 1));
        }
        string_push(&mut r, hex_digit_char(b >> 4));
        string_push(&mut r, hex_digit_char(b & 0x0f));
        i += 1;
    }
    proof {
        assert(data@.skip(n as int) =~= Seq::<u8>::empty());
        assert(r@ =~= hex_of(data@));
    }
    r
}

/// Hex-decodes a character range of a string.
pub fn from_hex(s: &str) -> (r: Option<Vec<u8>>)
    ensures
        match r {
            Option::Some(v) => unhex(s@) == Option::Some(v@),
            Option::None => unhex(s@) is None,
        },
{
    let n: usize = s.unicode_len();
    if n % 2 == 1 {
        proof {
            lemma_unhex_odd(s@);
        }
        return Option::None;
    }
    let mut out: Vec<u8> = Vec::new();
    proof {
        assert(s@.skip(0) =~= s@);
    }
    let mut i: usize = 0;
    while i < n
        invariant
            n == s@.len(),
            n % 2 == 0,
            i % 2 == 0,
            0 <= i <= n,
            forall|w: Seq<u8>|
                unhex(s@.skip(i as int)) == Option::Some(w) ==> unhex(s@) == Option::Some(
                    out@ + w,
                ),
            (unhex(s@.skip(i as int)) is None) ==> (unhex(s@) is None),
        decreases n - i,
    {
        let c0 = s.get_char(i);
        let c1 = s.get_char(i + 1);
        let n0 = nibble_val(c0);
        let n1 = nibble_val(c1);
        proof {
            let suf = s@.skip(i as int);
            assert(suf.len() >= 2);
            assert(suf[0] == s@[i as int]);
            assert(suf[1] == s@[i as int + 1]);
            assert(suf.skip(2) =~= s@.skip(i as int + 2));
        }
        if n0 >= 16 || n1 >= 16 {
            return Option::None;
        }
        let ghost prev = out@;
        let b: u8 = (n0 << 4) | n1;
        out.push(b);
        proof {
            let suf = s@.skip(i as int);
            assert(b == ((nibble_of(suf[0]) as u8) << 4) | (nibble_of(suf[1]) as u8));
            assert forall|w2: Seq<u8>|
                unhex(s@.skip(i as int + 2)) == Option::Some(w2) implies unhex(s@)
                == Option::Some(out@ + w2) by {
                assert(unhex(suf) == Option::Some(seq![b] + w2));
                assert(prev + (seq![b] + w2) =~= out@ + w2);
            }
        }
        i += 2;
    }
    proof {
        assert(s@.skip(n as int) =~= Seq::<char>::empty());
        assert(out@ + Seq::<u8>::empty() =~= out@);
    }
    Option::Some(out)
}

/// The eight bytes of a 64-bit integer, most significant first.
pub open spec fn be_bytes_of_u64(x: u64) -> Seq<u8> {
    seq![
        (x >> 56) as u8,
        (x >> 48) as u8,
        (x >> 40) as u8,
        (x >> 32) as u8,
        (x >> 24) as u8,
        (x >> 16) as u8,
        (x >> 8) as u8,
        x as u8,
    ]
}

/// Reassembles a 64-bit integer from its eight bytes, most significant first.
pub open spec fn u64_of_be_bytes(bs: Seq<u8>) -> u64
    recommends
        bs.len() == 8,
{
    ((bs[0] as u64) << 56) | ((bs[1] as u64) << 48) | ((bs[2] as u64) << 40) | ((bs[3] as u64)
        << 32) | ((bs[4] as u64) << 24) | ((bs[5] as u64) << 16) | ((bs[6] as u64) << 8) | (
    bs[7] as u64)
}

pub proof fn lemma_u64_bytes_roundtrip(x: u64)
    ensures
        u64_of_be_bytes(be_bytes_of_u64(x)) == x,
{
    assert((((x >> 56) as u8 as u64) << 56) | (((x >> 48) as u8 as u64) << 48) | (((x >> 40) as u8
        as u64) << 40) | (((x >> 32) as u8 as u64) << 32) | (((x >> 24) as u8 as u64) << 24) | (((x
        >> 16) as u8 as u64) << 16) | (((x >> 8) as u8 as u64) << 8) | (x as u8 as u64) == x)
        by (bit_vector);
}

/// Hex-encodes a 64-bit integer as sixteen digits, most significant first.
pub fn u64_to_hex(x: u64) -> (r: String)
    ensures
        r@ == hex_of(be_bytes_of_u64(x)),
{
    let mut bytes: Vec<u8> = Vec::new();
    bytes.push((x >> 56) as u8);
    bytes.push((x >> 48) as u8);
    bytes.push((x >> 40) as u8);
    bytes.push((x >> 32) as u8);
    bytes.push((x >> 24) as u8);
    bytes.push((x >> 16) as u8);
    bytes.push((x >> 8) as u8);
    bytes.push(x as u8);
    proof {
        assert(bytes@ =~= be_bytes_of_u64(x));
    }
    to_hex(bytes.as_slice())
}

/// Decodes sixteen hex digits back to a 64-bit integer.
pub fn u64_from_hex(s: &str) -> (r: Option<u64>)
    ensures
        match r {
            Option::Some(x) => unhex(s@) matches Option::Some(v) && v.len() == 8
                && u64_of_be_bytes(v) == x,
            Option::None => !(unhex(s@) matches Option::Some(v) && v.len() == 8),
        },
{
    let bytes = match from_hex(s) {
        Option::Some(v) => v,
        Option::None => {
            return Option::None;
        },
    };
    if bytes.len() != 8 {
        return Option::None;
    }
    let x: u64 = ((bytes[0] as u64) << 56) | ((bytes[1] as u64) << 48) | ((bytes[2] as u64) << 40)
        | ((bytes[3] as u64) << 32) | ((bytes[4] as u64) << 24) | ((bytes[5] as u64) << 16) | ((
    bytes[6] as u64) << 8) | (bytes[7] as u64);
    Option::Some(x)
}

} // verus!
