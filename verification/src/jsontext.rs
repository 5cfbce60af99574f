//! The textual building blocks of the wire format: JSON string literals with
//! escaping, fixed literal text, and booleans.
//!
//! The codec emits one canonical form (no whitespace, lowercase hex escapes
//! for control characters) and the scanners accept exactly that form; decoding
//! inverts encoding for every value.

use vstd::prelude::*;
use crate::hexcode::{hex_char_of_nibble, nibble_of_hex_char, nibble_to_hex_char};
use crate::strutil::str_to_chars;

verus! {

/// How one character appears inside a JSON string literal: quote and backslash
/// are escaped, control characters become `\u00XX`, everything else stands as
/// itself.
pub open spec fn esc_char(c: char) -> Seq<char> {
    if c == '"' {
        seq!['\\', '"']
    } else if c == '\\' {
        seq!['\\', '\\']
    } else if (c as u32) < 32 {
        seq![
            '\\',
            'u',
            '0',
            '0',
            hex_char_of_nibble(((c as u32) / 16) as u8),
            hex_char_of_nibble(((c as u32) % 16) as u8),
        ]
    } else {
        seq![c]
    }
}

/// A string's characters, each escaped.
pub open spec fn escape_string(s: Seq<char>) -> Seq<char>
    decreases s.len(),
{
    if s.len() == 0 {
        Seq::empty()
    } else {
        esc_char(s[0]) + escape_string(s.skip(1))
    }
}

/// A full JSON string literal: quote, escaped content, quote.
pub open spec fn quoted(s: Seq<char>) -> Seq<char> {
    seq!['"'] + escape_string(s) + seq!['"']
}

/// Consume an exact literal prefix, returning the rest.
pub open spec fn scan_lit(s: Seq<char>, lit: Seq<char>) -> Option<Seq<char>> {
    if lit.len() <= s.len() && s.take(lit.len() as int) == lit {
        Some(s.skip(lit.len() as int))
    } else {
        None
    }
}

/// Scan a string literal's content after its opening quote, undoing the
/// escapes, up to and over the closing quote. Returns the content and the
/// rest.
pub open spec fn scan_string_body(s: Seq<char>) -> Option<(Seq<char>, Seq<char>)>
    decreases s.len(),
{
    if s.len() == 0 {
        None
    } else if s[0] == '"' {
        Some((Seq::empty(), s.skip(1)))
    } else if s[0] == '\\' {
        if s.len() >= 2 && (s[1] == '"' || s[1] == '\\') {
            match scan_string_body(s.skip(2)) {
                Some((content, rest)) => Some((seq![s[1]] + content, rest)),
                None => None,
            }
        } else if s.len() >= 6 && s[1] == 'u' && s[2] == '0' && s[3] == '0' && nibble_of_hex_char(
            s[4],
        ) is Some && nibble_of_hex_char(s[5]) is Some && nibble_of_hex_char(s[4])->0 * 16
            + nibble_of_hex_char(s[5])->0 < 32 {
            match scan_string_body(s.skip(6)) {
                Some((content, rest)) => Some(
                    (
                        seq![
                            (((nibble_of_hex_char(s[4])->0 * 16 + nibble_of_hex_char(s[5])->0)
                                as u8) as char),
                        ] + content,
                        rest,
                    ),
                ),
                None => None,
            }
        } else {
            None
        }
    } else if (s[0] as u32) < 32 {
        None
    } else {
        match scan_string_body(s.skip(1)) {
            Some((content, rest)) => Some((seq![s[0]] + content, rest)),
            None => None,
        }
    }
}

/// Scan a full string literal from its opening quote.
pub open spec fn scan_quoted(s: Seq<char>) -> Option<(Seq<char>, Seq<char>)> {
    if s.len() >= 1 && s[0] == '"' {
        scan_string_body(s.skip(1))
    } else {
        None
    }
}

/// Scan a JSON boolean.
pub open spec fn scan_bool(s: Seq<char>) -> Option<(bool, Seq<char>)> {
    match scan_lit(s, "true"@) {
        Some(rest) => Some((true, rest)),
        None => match scan_lit(s, "false"@) {
            Some(rest) => Some((false, rest)),
            None => None,
        },
    }
}

/// A literal scans off the front of its own concatenation.
pub proof fn lemma_scan_lit(lit: Seq<char>, rest: Seq<char>)
    ensures
        scan_lit(lit + rest, lit) == Some(rest),
{
    assert((lit + rest).take(lit.len() as int) =~= lit);
    assert((lit + rest).skip(lit.len() as int) =~= rest);
}

/// Appending a character extends the escaped text by its escape.
pub proof fn lemma_escape_snoc(s: Seq<char>, c: char)
    ensures
        escape_string(s.push(c)) == escape_string(s) + esc_char(c),
    decreases s.len(),
{
    if s.len() == 0 {
        assert(s.push(c)[0] == c);
        assert(s.push(c).skip(1) =~= Seq::<char>::empty());
        assert(esc_char(c) + escape_string(Seq::<char>::empty()) =~= esc_char(c));
        assert(escape_string(s) + esc_char(c) =~= esc_char(c));
    } else {
        lemma_escape_snoc(s.skip(1), c);
        assert(s.push(c)[0] == s[0]);
        assert(s.push(c).skip(1) =~= s.skip(1).push(c));
        assert(esc_char(s[0]) + (escape_string(s.skip(1)) + esc_char(c)) =~= (esc_char(s[0])
            + escape_string(s.skip(1))) + esc_char(c));
    }
}

/// Scanning undoes escaping: the body scanner applied to an escaped string,
/// its closing quote and any tail yields exactly the string and the tail.
pub proof fn lemma_scan_string_round_trip(s: Seq<char>, rest: Seq<char>)
    ensures
        scan_string_body(escape_string(s) + seq!['"'] + rest) == Some((s, rest)),
    decreases s.len(),
{
    broadcast use vstd::utf8::char_u32_cast;

    let whole = escape_string(s) + seq!['"'] + rest;
    if s.len() == 0 {
        assert(whole[0] == '"');
        assert(whole.skip(1) =~= rest);
    } else {
        lemma_scan_string_round_trip(s.skip(1), rest);
        let c = s[0];
        let tail = escape_string(s.skip(1)) + seq!['"'] + rest;
        assert(whole =~= esc_char(c) + tail);
        if c == '"' {
            assert(whole[0] == '\\' && whole[1] == '"');
            assert(whole.skip(2) =~= tail);
            assert(seq![c] + s.skip(1) =~= s);
        } else if c == '\\' {
            assert(whole[0] == '\\' && whole[1] == '\\');
            assert(whole.skip(2) =~= tail);
            assert(seq![c] + s.skip(1) =~= s);
        } else if (c as u32) < 32 {
            let v = c as u32;
            let h = (v / 16) as u8;
            let l = (v % 16) as u8;
            assert(whole[0] == '\\' && whole[1] == 'u' && whole[2] == '0' && whole[3] == '0');
            assert(whole[4] == hex_char_of_nibble(h));
            assert(whole[5] == hex_char_of_nibble(l));
            assert(nibble_of_hex_char(hex_char_of_nibble(h)) == Some(h));
            assert(nibble_of_hex_char(hex_char_of_nibble(l)) == Some(l));
            assert(h * 16 + l == v);
            assert(whole.skip(6) =~= tail);
            assert((((h * 16 + l) as u8) as char) == c) by {
                assert(h * 16 + l == v);
                assert(((v as u8) as char) as u32 == v);
                vstd::utf8::char_u32_cast((v as u8) as char, v);
                vstd::utf8::char_u32_cast(c, v);
            }
            assert(seq![c] + s.skip(1) =~= s);
        } else {
            assert(whole[0] == c);
            assert(whole.skip(1) =~= tail);
            assert(seq![c] + s.skip(1) =~= s);
        }
    }
}

/// Append literal text.
pub fn push_lit(out: &mut Vec<char>, lit: &str)
    ensures
        final(out)@ == old(out)@ + lit@,
{
    let mut chars = str_to_chars(lit);
    out.append(&mut chars);
}

/// Append a string as a JSON string literal, escaping as `esc_char` says.
pub fn push_quoted(out: &mut Vec<char>, s: &str)
    ensures
        final(out)@ == old(out)@ + quoted(s@),
{
    let ghost base = out@;
    out.push('"');
    let chars = str_to_chars(s);
    let mut i: usize = 0;
    while i < chars.len()
        invariant
            i <= chars@.len(),
            chars@ == s@,
            out@ == base + seq!['"'] + escape_string(s@.take(i as int)),
        decreases chars@.len() - i,
    {
        let c = chars[i];
        let v = c as u32;
        if c == '"' {
            out.push('\\');
            out.push('"');
        } else if c == '\\' {
            out.push('\\');
            out.push('\\');
        } else if v < 32 {
            out.push('\\');
            out.push('u');
            out.push('0');
            out.push('0');
            out.push(nibble_to_hex_char((v / 16) as u8));
            out.push(nibble_to_hex_char((v % 16) as u8));
        } else {
            out.push(c);
        }
        proof {
            lemma_escape_snoc(s@.take(i as int), c);
            assert(s@.take(i as int).push(c) =~= s@.take(i + 1 as int));
            assert(out@ =~= base + seq!['"'] + escape_string(s@.take(i + 1 as int)));
        }
        i = i + 1;
    }
    out.push('"');
    proof {
        assert(s@.take(s@.len() as int) =~= s@);
        assert(out@ =~= base + quoted(s@));
    }
}

/// Match literal text at a position; `Some` holds the position after it.
pub fn parse_lit(input: &Vec<char>, pos: usize, lit: &str) -> (r: Option<usize>)
    requires
        pos <= input@.len(),
    ensures
        match r {
            Some(p) => pos <= p <= input@.len() && p == pos + lit@.len() && scan_lit(
                input@.skip(pos as int),
                lit@,
            ) == Some(input@.skip(p as int)),
            None => scan_lit(input@.skip(pos as int), lit@) is None,
        },
{
    let chars = str_to_chars(lit);
    let n = chars.len();
    let total = input.len();
    if total - pos < n {
        return None;
    }
    let mut j: usize = 0;
    while j < n
        invariant
            j <= n,
            n == lit@.len(),
            chars@ == lit@,
            total == input@.len(),
            pos + n <= total,
            forall|k: int| 0 <= k < j ==> input@.skip(pos as int)[k] == lit@[k],
        decreases n - j,
    {
        if input[pos + j] != chars[j] {
            proof {
                let s = input@.skip(pos as int);
                assert(s[j as int] != lit@[j as int]);
                assert(s.take(lit@.len() as int) != lit@) by {
                    if s.take(lit@.len() as int) == lit@ {
                        assert(s.take(lit@.len() as int)[j as int] == s[j as int]);
                    }
                }
            }
            return None;
        }
        j = j + 1;
    }
    proof {
        let s = input@.skip(pos as int);
        assert(s.take(lit@.len() as int) =~= lit@);
        assert(s.skip(lit@.len() as int) =~= input@.skip(pos + lit@.len()));
    }
    Some(pos + n)
}

/// Parse a JSON boolean at a position.
pub fn parse_bool(input: &Vec<char>, pos: usize) -> (r: Option<(bool, usize)>)
    requires
        pos <= input@.len(),
    ensures
        match r {
            Some((b, p)) => pos <= p <= input@.len() && scan_bool(input@.skip(pos as int))
                == Some((b, input@.skip(p as int))),
            None => scan_bool(input@.skip(pos as int)) is None,
        },
{
    match parse_lit(input, pos, "true") {
        Some(p) => Some((true, p)),
        None => match parse_lit(input, pos, "false") {
            Some(p) => Some((false, p)),
            None => None,
        },
    }
}

/// Parse a full JSON string literal at a position, undoing the escapes.
pub fn parse_quoted(input: &Vec<char>, pos: usize) -> (r: Option<(String, usize)>)
    requires
        pos <= input@.len(),
    ensures
        match r {
            Some((s, p)) => pos <= p <= input@.len() && scan_quoted(input@.skip(pos as int))
                == Some((s@, input@.skip(p as int))),
            None => scan_quoted(input@.skip(pos as int)) is None,
        },
{
    if pos >= input.len() || input[pos] != '"' {
        return None;
    }
    proof {
        assert(input@.skip(pos as int)[0] == '"');
        assert(input@.skip(pos as int).skip(1) =~= input@.skip(pos + 1));
    }
    match parse_string_body(input, pos + 1) {
        Some((s, p)) => Some((s, p)),
        None => None,
    }
}

/// Parse a string literal's content after the opening quote, through the
/// closing quote.
fn parse_string_body(input: &Vec<char>, pos: usize) -> (r: Option<(String, usize)>)
    requires
        pos <= input@.len(),
    ensures
        match r {
            Some((s, p)) => pos <= p <= input@.len() && scan_string_body(input@.skip(pos as int))
                == Some((s@, input@.skip(p as int))),
            None => scan_string_body(input@.skip(pos as int)) is None,
        },
{
    let mut acc: Vec<char> = Vec::new();
    let mut cur: usize = pos;
    loop
        invariant
            pos <= cur <= input@.len(),
            match scan_string_body(input@.skip(cur as int)) {
                Some((content, rest)) => scan_string_body(input@.skip(pos as int)) == Some(
                    (acc@ + content, rest),
                ),
                None => scan_string_body(input@.skip(pos as int)) is None,
            },
        decreases input@.len() - cur,
    {
        let ghost rem = input@.skip(cur as int);
        if cur >= input.len() {
            return None;
        }
        let c = input[cur];
        proof {
            assert(rem[0] == c);
        }
        if c == '"' {
            proof {
                assert(rem.skip(1) =~= input@.skip(cur + 1));
                assert(scan_string_body(rem) == Some(
                    (Seq::<char>::empty(), input@.skip(cur + 1)),
                ));
                assert(acc@ + Seq::<char>::empty() =~= acc@);
            }
            let s = crate::strutil::chars_to_string(&acc);
            return Some((s, cur + 1));
        }
        if c == '\\' {
            if cur + 1 >= input.len() {
                proof {
                    assert(rem.len() == 1);
                    assert(scan_string_body(rem) is None);
                }
                return None;
            }
            let e = input[cur + 1];
            proof {
                assert(rem[1] == e);
            }
            if e == '"' || e == '\\' {
                let ghost acc_pre = acc@;
                acc.push(e);
                proof {
                    assert(rem.skip(2) =~= input@.skip(cur + 2));
                    if scan_string_body(input@.skip(cur + 2)) is Some {
                        let (c2, rest) = scan_string_body(input@.skip(cur + 2))->0;
                        assert(scan_string_body(rem) == Some((seq![e] + c2, rest)));
                        assert(acc@ + c2 =~= acc_pre + (seq![e] + c2));
                    } else {
                        assert(scan_string_body(rem) is None);
                    }
                }
                cur = cur + 2;
            } else if e == 'u' {
                if input.len() - cur < 6 {
                    proof {
                        assert(rem.len() < 6);
                        assert(scan_string_body(rem) is None);
                    }
                    return None;
                }
                let d2 = input[cur + 2];
                let d3 = input[cur + 3];
                let h = crate::hexcode::hex_char_to_nibble(input[cur + 4]);
                let l = crate::hexcode::hex_char_to_nibble(input[cur + 5]);
                proof {
                    assert(rem[2] == d2 && rem[3] == d3);
                    assert(rem[4] == input@[cur + 4] && rem[5] == input@[cur + 5]);
                }
                match (h, l) {
                    (Some(hv), Some(lv)) if d2 == '0' && d3 == '0' && hv * 16 + lv < 32 => {
                        let ch = ((hv * 16 + lv) as u8) as char;
                        let ghost acc_pre = acc@;
                        acc.push(ch);
                        proof {
                            assert(rem.skip(6) =~= input@.skip(cur + 6));
                            if scan_string_body(input@.skip(cur + 6)) is Some {
                                let (c2, rest) = scan_string_body(input@.skip(cur + 6))->0;
                                assert(scan_string_body(rem) == Some((seq![ch] + c2, rest)));
                                assert(acc@ + c2 =~= acc_pre + (seq![ch] + c2));
                            } else {
                                assert(scan_string_body(rem) is None);
                            }
                        }
                        cur = cur + 6;
                    },
                    _ => {
                        proof {
                            assert(scan_string_body(rem) is None);
                        }
                        return None;
                    },
                }
            } else {
                proof {
                    assert(scan_string_body(rem) is None);
                }
                return None;
            }
        } else {
            let v = c as u32;
            if v < 32 {
                proof {
                    assert(scan_string_body(rem) is None);
                }
                return None;
            }
            let ghost acc_pre = acc@;
            acc.push(c);
            proof {
                assert(rem.skip(1) =~= input@.skip(cur + 1));
                if scan_string_body(input@.skip(cur + 1)) is Some {
                    let (c2, rest) = scan_string_body(input@.skip(cur + 1))->0;
                    assert(scan_string_body(rem) == Some((seq![c] + c2, rest)));
                    assert(acc@ + c2 =~= acc_pre + (seq![c] + c2));
                } else {
                    assert(scan_string_body(rem) is None);
                }
            }
            cur = cur + 1;
        }
    }
}

} // verus!
