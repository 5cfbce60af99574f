//! Hex encoding and decoding of byte strings.
//!
//! Keys, signatures and ciphertext cross the wire as lowercase hex strings.
//! Encoding emits two lowercase digits per byte; decoding accepts either case
//! and rejects anything else, including odd-length input.

use vstd::prelude::*;
use crate::strutil::chars_to_string;

verus! {

/// The lowercase hex digit of a nibble.
pub open spec fn hex_char_of_nibble(n: u8) -> char {
    if n == 0 { '0' } else if n == 1 { '1' } else if n == 2 { '2' } else if n == 3 { '3' }
    else if n == 4 { '4' } else if n == 5 { '5' } else if n == 6 { '6' } else if n == 7 { '7' }
    else if n == 8 { '8' } else if n == 9 { '9' } else if n == 10 { 'a' } else if n == 11 { 'b' }
    else if n == 12 { 'c' } else if n == 13 { 'd' } else if n == 14 { 'e' } else if n == 15 { 'f' }
    else { '0' }
}

/// The value of a hex digit, either case; `None` for any other character.
pub open spec fn nibble_of_hex_char(c: char) -> Option<u8> {
    let v = c as u32;
    if 48 <= v && v <= 57 {
        Some((v - 48) as u8)
    } else if 97 <= v && v <= 102 {
        Some((v - 97 + 10) as u8)
    } else if 65 <= v && v <= 70 {
        Some((v - 65 + 10) as u8)
    } else {
        None
    }
}

/// Hex encoding of a byte string: two lowercase digits per byte, in order.
pub open spec fn spec_hex_encode(b: Seq<u8>) -> Seq<char>
    decreases b.len(),
{
    if b.len() == 0 {
        Seq::empty()
    } else {
        seq![hex_char_of_nibble(b[0] / 16), hex_char_of_nibble(b[0] % 16)] + spec_hex_encode(
            b.skip(1),
        )
    }
}

/// Hex decoding: `Some` exactly on even-length strings of hex digits.
pub open spec fn spec_hex_decode(s: Seq<char>) -> Option<Seq<u8>>
    decreases s.len(),
{
    if s.len() == 0 {
        Some(Seq::empty())
    } else if s.len() == 1 {
        None
    } else {
        match (nibble_of_hex_char(s[0]), nibble_of_hex_char(s[1]), spec_hex_decode(s.skip(2))) {
            (Some(h), Some(l), Some(rest)) => Some(seq![(h * 16 + l) as u8] + rest),
            _ => None,
        }
    }
}

/// Decoding inverts encoding: every byte string survives a hex round trip.
pub proof fn lemma_hex_round_trip(b: Seq<u8>)
    ensures
        spec_hex_decode(spec_hex_encode(b)) == Some(b),
    decreases b.len(),
{
    if b.len() == 0 {
        assert(spec_hex_encode(b) =~= Seq::<char>::empty());
    } else {
        lemma_hex_round_trip(b.skip(1));
        let e = spec_hex_encode(b);
        let h = b[0] / 16;
        let l = b[0] % 16;
        assert(nibble_of_hex_char(hex_char_of_nibble(h)) == Some(h));
        assert(nibble_of_hex_char(hex_char_of_nibble(l)) == Some(l));
        assert(e.skip(2) =~= spec_hex_encode(b.skip(1)));
        assert((h * 16 + l) as u8 == b[0]);
        assert(spec_hex_decode(e) == Some(seq![b[0]] + b.skip(1)));
        assert(seq![b[0]] + b.skip(1) =~= b);
    }
}

/// Appending a byte extends the encoding by its two digits.
pub proof fn lemma_hex_encode_push(b: Seq<u8>, x: u8)
    ensures
        spec_hex_encode(b.push(x)) == spec_hex_encode(b) + seq![
            hex_char_of_nibble(x / 16),
            hex_char_of_nibble(x % 16),
        ],
    decreases b.len(),
{
    let pair = seq![hex_char_of_nibble(x / 16), hex_char_of_nibble(x % 16)];
    if b.len() == 0 {
        assert(b.push(x)[0] == x);
        assert(b.push(x).skip(1) =~= Seq::<u8>::empty());
        assert(spec_hex_encode(b.push(x)) == pair + spec_hex_encode(Seq::<u8>::empty()));
        assert(pair + spec_hex_encode(Seq::<u8>::empty()) =~= pair);
        assert(spec_hex_encode(b) + pair =~= pair);
    } else {
        lemma_hex_encode_push(b.skip(1), x);
        let head = seq![hex_char_of_nibble(b[0] / 16), hex_char_of_nibble(b[0] % 16)];
        assert(b.push(x)[0] == b[0]);
        assert(b.push(x).skip(1) =~= b.skip(1).push(x));
        assert(spec_hex_encode(b.push(x)) == head + spec_hex_encode(b.skip(1).push(x)));
        assert(head + (spec_hex_encode(b.skip(1)) + pair) =~= (head + spec_hex_encode(b.skip(1)))
            + pair);
        assert(spec_hex_encode(b.push(x)) =~= spec_hex_encode(b) + pair);
    }
}

/// The lowercase hex digit of a nibble.
pub(crate) fn nibble_to_hex_char(n: u8) -> (c: char)
    requires
        n < 16,
    ensures
        c == hex_char_of_nibble(n),
{
    match n {
        0 => '0', 1 => '1', 2 => '2', 3 => '3', 4 => '4', 5 => '5', 6 => '6', 7 => '7',
        8 => '8', 9 => '9', 10 => 'a', 11 => 'b', 12 => 'c', 13 => 'd', 14 => 'e', _ => 'f',
    }
}

/// The value of a hex digit, either case.
pub fn hex_char_to_nibble(c: char) -> (r: Option<u8>)
    ensures
        r == nibble_of_hex_char(c),
{
    let v = c as u32;
    if 48 <= v && v <= 57 {
        Some((v - 48) as u8)
    } else if 97 <= v && v <= 102 {
        Some((v - 97 + 10) as u8)
    } else if 65 <= v && v <= 70 {
        Some((v - 65 + 10) as u8)
    } else {
        None
    }
}

/// Hex-encode bytes as characters.
pub fn hex_encode_chars(bytes: &Vec<u8>) -> (r: Vec<char>)
    ensures
        r@ == spec_hex_encode(bytes@),
{
    let mut out: Vec<char> = Vec::new();
    let mut i: usize = 0;
    while i < bytes.len()
        invariant
            i <= bytes@.len(),
            out@ == spec_hex_encode(bytes@.take(i as int)),
        decreases bytes@.len() - i,
    {
        let b = bytes[i];
        proof {
            lemma_hex_encode_push(bytes@.take(i as int), b);
            assert(bytes@.take(i as int).push(b) =~= bytes@.take(i + 1 as int));
        }
        out.push(nibble_to_hex_char(b / 16));
        out.push(nibble_to_hex_char(b % 16));
        i = i + 1;
    }
    proof {
        assert(bytes@.take(bytes@.len() as int) =~= bytes@);
    }
    out
}

/// Hex-encode bytes as a lowercase hex string.
pub fn hex_encode(bytes: &Vec<u8>) -> (r: String)
    ensures
        r@ == spec_hex_encode(bytes@),
{
    let chars = hex_encode_chars(bytes);
    chars_to_string(&chars)
}

/// Decode a hex character sequence; `None` on odd length or a non-digit.
pub fn hex_decode_chars(s: &Vec<char>) -> (r: Option<Vec<u8>>)
    ensures
        match r {
            Some(b) => spec_hex_decode(s@) == Some(b@),
            None => spec_hex_decode(s@) is None,
        },
{
    let mut out: Vec<u8> = Vec::new();
    let mut i: usize = 0;
    if s.len() % 2 != 0 {
        proof {
            lemma_hex_decode_odd(s@);
        }
        return None;
    }
    proof {
        assert(s@.skip(0) =~= s@);
        if spec_hex_decode(s@) is Some {
            assert(out@ + spec_hex_decode(s@)->0 =~= spec_hex_decode(s@)->0);
        }
    }
    while i < s.len()
        invariant
            i <= s@.len(),
            i % 2 == 0,
            s@.len() % 2 == 0,
            spec_hex_decode(s@) == match spec_hex_decode(s@.skip(i as int)) {
                Some(rest) => Some(out@ + rest),
                None => None::<Seq<u8>>,
            },
        decreases s@.len() - i,
    {
        let h = hex_char_to_nibble(s[i]);
        let l = hex_char_to_nibble(s[i + 1]);
        proof {
            assert(s@.skip(i as int).len() >= 2);
            assert(s@.skip(i as int)[0] == s@[i as int]);
            assert(s@.skip(i as int)[1] == s@[i as int + 1]);
            assert(s@.skip(i as int).skip(2) =~= s@.skip(i as int + 2));
        }
        match (h, l) {
            (Some(hv), Some(lv)) => {
                out.push(hv * 16 + lv);
                proof {
                    let rest2 = spec_hex_decode(s@.skip(i as int + 2));
                    if rest2 is Some {
                        assert(out@ + rest2->0 =~= out@.drop_last() + (seq![(hv * 16 + lv) as u8]
                            + rest2->0));
                    }
                }
                i = i + 2;
            },
            _ => {
                return None;
            },
        }
    }
    proof {
        assert(s@.skip(s@.len() as int) =~= Seq::<char>::empty());
        assert(out@ + Seq::<u8>::empty() =~= out@);
    }
    Some(out)
}

/// An odd-length string never decodes.
proof fn lemma_hex_decode_odd(s: Seq<char>)
    requires
        s.len() % 2 == 1,
    ensures
        spec_hex_decode(s) is None,
    decreases s.len(),
{
    if s.len() > 1 {
        lemma_hex_decode_odd(s.skip(2));
    }
}

/// Decode a hex string; `None` on odd length or a non-digit.
pub fn hex_decode(s: &String) -> (r: Option<Vec<u8>>)
    ensures
        match r {
            Some(b) => spec_hex_decode(s@) == Some(b@),
            None => spec_hex_decode(s@) is None,
        },
{
    let chars = crate::strutil::str_to_chars(s.as_str());
    hex_decode_chars(&chars)
}

} // verus!
