//! Standard base64 (RFC 4648, section 4: the standard alphabet with `=`
//! padding), as a specification, and the fact that decoding gives the bytes
//! back.
use vstd::prelude::*;

verus! {

/// The character for the 6-bit value `v` in the standard base64 alphabet:
/// `A`–`Z`, `a`–`z`, `0`–`9`, `+`, `/`.
pub open spec fn base64_digit(v: int) -> char {
    if v < 26 {
        (65 + v) as char
    } else if v < 52 {
        (97 + (v - 26)) as char
    } else if v < 62 {
        (48 + (v - 52)) as char
    } else if v == 62 {
        '+'
    } else {
        '/'
    }
}

/// The 6-bit value of a character of the standard base64 alphabet.
pub open spec fn base64_value(c: char) -> int {
    let u = c as int;
    if 65 <= u <= 90 {
        u - 65
    } else if 97 <= u <= 122 {
        u - 71
    } else if 48 <= u <= 57 {
        u + 4
    } else if c == '+' {
        62
    } else {
        63
    }
}

/// The standard base64 text of `bytes`: each group of three bytes becomes
/// four characters, six bits each, most significant first; a last group of
/// one or two bytes is filled up with zero bits and padded with `=` to four
/// characters.
pub open spec fn base64_standard(bytes: Seq<u8>) -> Seq<char>
    decreases bytes.len(),
{
    if bytes.len() == 0 {
        seq![]
    } else if bytes.len() == 1 {
        let a = bytes[0];
        seq![base64_digit((a / 4) as int), base64_digit((a % 4) * 16), '=', '=']
    } else if bytes.len() == 2 {
        let a = bytes[0];
        let b = bytes[1];
        seq![
            base64_digit((a / 4) as int),
            base64_digit((a % 4) * 16 + b / 16),
            base64_digit((b % 16) * 4),
            '=',
        ]
    } else {
        let a = bytes[0];
        let b = bytes[1];
        let c = bytes[2];
        seq![
            base64_digit((a / 4) as int),
            base64_digit((a % 4) * 16 + b / 16),
            base64_digit((b % 16) * 4 + c / 64),
            base64_digit((c % 64) as int),
        ] + base64_standard(bytes.subrange(3, bytes.len() as int))
    }
}

/// The bytes that the standard base64 text `text` stands for.
pub open spec fn base64_decode(text: Seq<char>) -> Seq<u8>
    decreases text.len(),
{
    if text.len() < 4 {
        seq![]
    } else {
        let v0 = base64_value(text[0]);
        let v1 = base64_value(text[1]);
        let v2 = base64_value(text[2]);
        let v3 = base64_value(text[3]);
        let b0 = (v0 * 4 + v1 / 16) as u8;
        let b1 = ((v1 % 16) * 16 + v2 / 4) as u8;
        let b2 = ((v2 % 4) * 64 + v3) as u8;
        if text[2] == '=' {
            seq![b0]
        } else if text[3] == '=' {
            seq![b0, b1]
        } else {
            seq![b0, b1, b2] + base64_decode(text.subrange(4, text.len() as int))
        }
    }
}

proof fn lemma_digit(v: int)
    requires
        0 <= v < 64,
    ensures
        base64_value(base64_digit(v)) == v,
        base64_digit(v) != '=',
{
}

proof fn lemma_group(a: u8, b: u8, c: u8)
    ensures
        (a / 4) * 4 + ((a % 4) * 16 + b / 16) / 16 == a,
        (((a % 4) * 16 + b / 16) % 16) * 16 + ((b % 16) * 4 + c / 64) / 4 == b,
        (((b % 16) * 4 + c / 64) % 4) * 64 + c % 64 == c,
        (a % 4) * 16 + b / 16 < 64,
        (b % 16) * 4 + c / 64 < 64,
{
    assert((a / 4) * 4 + ((a % 4) * 16 + b / 16) / 16 == a) by (bit_vector);
    assert((((a % 4) * 16 + b / 16) % 16) * 16 + ((b % 16) * 4 + c / 64) / 4 == b) by (bit_vector);
    assert((((b % 16) * 4 + c / 64) % 4) * 64 + c % 64 == c) by (bit_vector);
    assert((a % 4) * 16 + b / 16 < 64) by (bit_vector);
    assert((b % 16) * 4 + c / 64 < 64) by (bit_vector);
}

/// Decoding the standard base64 text of some bytes gives those bytes back.
pub proof fn base64_round_trip(bytes: Seq<u8>)
    ensures
        base64_decode(base64_standard(bytes)) == bytes,
    decreases bytes.len(),
{
    let t = base64_standard(bytes);
    if bytes.len() == 0 {
    } else if bytes.len() == 1 {
        let a = bytes[0];
        lemma_group(a, 0, 0);
        lemma_digit((a / 4) as int);
        lemma_digit((a % 4) * 16);
        assert(base64_decode(t) =~= bytes);
    } else if bytes.len() == 2 {
        let a = bytes[0];
        let b = bytes[1];
        lemma_group(a, b, 0);
        lemma_digit((a / 4) as int);
        lemma_digit((a % 4) * 16 + b / 16);
        lemma_digit((b % 16) * 4);
        assert(base64_decode(t) =~= bytes);
    } else {
        let a = bytes[0];
        let b = bytes[1];
        let c = bytes[2];
        let rest = bytes.subrange(3, bytes.len() as int);
        lemma_group(a, b, c);
        lemma_digit((a / 4) as int);
        lemma_digit((a % 4) * 16 + b / 16);
        lemma_digit((b % 16) * 4 + c / 64);
        lemma_digit((c % 64) as int);
        base64_round_trip(rest);
        assert(t.subrange(4, t.len() as int) =~= base64_standard(rest));
        assert(base64_decode(t) =~= seq![a, b, c] + rest);
        assert(seq![a, b, c] + rest =~= bytes);
    }
}

} // verus!
