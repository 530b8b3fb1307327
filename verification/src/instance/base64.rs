//! Standard base64, with `=` padding.

use vstd::prelude::*;
use vstd::utf8;

use crate::text;

verus! {

// ---------------------------------------------------------------------------
// The alphabet
// ---------------------------------------------------------------------------

/// The character of a six-bit value.
pub open spec fn digit_of(v: int) -> char {
    if v < 26 {
        (65 + v) as char
    } else if v < 52 {
        (97 + (v - 26)) as char
    } else if v < 62 {
        (48 + (v - 52)) as char
    } else if v == 62 {
        '+'
    } else {
        '/'
    }
}

/// The six-bit value of a byte of base64 text, if it has one.
pub open spec fn sextet_of(b: u8) -> Option<u8> {
    if 65 <= b <= 90 {
        Some((b - 65) as u8)
    } else if 97 <= b <= 122 {
        Some((b - 97 + 26) as u8)
    } else if 48 <= b <= 57 {
        Some((b - 48 + 52) as u8)
    } else if b == 43 {
        Some(62)
    } else if b == 47 {
        Some(63)
    } else {
        None
    }
}

fn digit(v: u8) -> (r: char)
    requires
        v < 64,
    ensures
        r == digit_of(v as int),
{
    if v < 26 {
        (65u8 + v) as char
    } else if v < 52 {
        (97u8 + (v - 26)) as char
    } else if v < 62 {
        (48u8 + (v - 52)) as char
    } else if v == 62 {
        '+'
    } else {
        '/'
    }
}

fn sextet(b: u8) -> (r: Option<u8>)
    ensures
        r == sextet_of(b),
{
    if 65 <= b && b <= 90 {
        Some(b - 65)
    } else if 97 <= b && b <= 122 {
        Some(b - 97 + 26)
    } else if 48 <= b && b <= 57 {
        Some(b - 48 + 52)
    } else if b == 43 {
        Some(62)
    } else if b == 47 {
        Some(63)
    } else {
        None
    }
}

// ---------------------------------------------------------------------------
// Encoding
// ---------------------------------------------------------------------------

/// The four characters of up to three bytes.
pub open spec fn quad(bytes: Seq<u8>) -> Seq<char> {
    let b0 = bytes[0] as int;
    let b1 = if bytes.len() > 1 {
        bytes[1] as int
    } else {
        0
    };
    let b2 = if bytes.len() > 2 {
        bytes[2] as int
    } else {
        0
    };
    seq![
        digit_of(b0 / 4),
        digit_of(b0 % 4 * 16 + b1 / 16),
        if bytes.len() > 1 {
            digit_of(b1 % 16 * 4 + b2 / 64)
        } else {
            '='
        },
        if bytes.len() > 2 {
            digit_of(b2 % 64)
        } else {
            '='
        },
    ]
}

/// The base64 text of bytes: four characters for each group of three, the last group padded.
pub open spec fn encoded(bytes: Seq<u8>) -> Seq<char>
    decreases bytes.len(),
{
    if bytes.len() == 0 {
        Seq::empty()
    } else if bytes.len() <= 3 {
        quad(bytes)
    } else {
        quad(bytes.take(3)) + encoded(bytes.skip(3))
    }
}

/// The base64 text of bytes.
pub fn base64_encode(bytes: &[u8]) -> (r: String)
    ensures
        r@ == encoded(bytes@),
{
    let mut out = String::new();
    let mut i: usize = 0;
    assert(bytes@.skip(0) =~= bytes@);
    assert(out@ =~= Seq::empty());
    while i < bytes.len()
        invariant
            i <= bytes@.len(),
            out@ + encoded(bytes@.skip(i as int)) =~= encoded(bytes@),
        decreases bytes@.len() - i,
    {
        let ghost rest = bytes@.skip(i as int);
        let ghost before = out@;
        let n: usize = bytes.len() - i;
        let b0 = bytes[i];
        let b1 = if n > 1 {
            bytes[i + 1]
        } else {
            0u8
        };
        let b2 = if n > 2 {
            bytes[i + 2]
        } else {
            0u8
        };
        out.push(digit(b0 / 4));
        out.push(digit(b0 % 4 * 16 + b1 / 16));
        out.push(
            if n > 1 {
                digit(b1 % 16 * 4 + b2 / 64)
            } else {
                '='
            },
        );
        out.push(
            if n > 2 {
                digit(b2 % 64)
            } else {
                '='
            },
        );
        if n <= 3 {
            assert(out@ =~= before + quad(rest));
            assert(out@ =~= encoded(bytes@));
            return out;
        }
        assert(out@ =~= before + quad(rest.take(3)));
        assert(rest.skip(3) =~= bytes@.skip(i + 3));
        i = i + 3;
        assert(out@ + encoded(bytes@.skip(i as int)) =~= before + encoded(rest));
    }
    assert(out@ =~= encoded(bytes@));
    out
}

// ---------------------------------------------------------------------------
// Decoding
// ---------------------------------------------------------------------------

/// White space that is ignored in base64 text.
pub open spec fn is_ignored(b: u8) -> bool {
    b == 10 || b == 13 || b == 32 || b == 9
}

/// Base64 text without its white space.
pub open spec fn stripped(bytes: Seq<u8>) -> Seq<u8>
    decreases bytes.len(),
{
    if bytes.len() == 0 {
        bytes
    } else if is_ignored(bytes.last()) {
        stripped(bytes.drop_last())
    } else {
        stripped(bytes.drop_last()).push(bytes.last())
    }
}

/// How many bytes come before the padding.
pub open spec fn body_len(bytes: Seq<u8>) -> nat
    decreases bytes.len(),
{
    if bytes.len() == 0 || bytes[0] == 61 {
        0
    } else {
        1 + body_len(bytes.skip(1))
    }
}

/// Something other than padding comes after the padding.
pub open spec fn has_trailing_junk(bytes: Seq<u8>) -> bool {
    exists|i: int| body_len(bytes) <= i < bytes.len() && #[trigger] bytes[i] != 61
}

/// The first byte that is no base64 digit.
pub open spec fn first_invalid(body: Seq<u8>) -> Option<u8>
    decreases body.len(),
{
    if body.len() == 0 {
        None
    } else if sextet_of(body[0]) is None {
        Some(body[0])
    } else {
        first_invalid(body.skip(1))
    }
}

/// The six-bit values of base64 digits.
pub open spec fn sextets(body: Seq<u8>) -> Seq<u8> {
    body.map_values(|b: u8| sextet_of(b)->0)
}

/// The whole bytes that six-bit values spell.
pub open spec fn spelled(vals: Seq<u8>) -> Seq<u8>
    decreases vals.len(),
{
    if vals.len() < 2 {
        Seq::empty()
    } else {
        let first = (vals[0] * 4 + vals[1] / 16) as u8;
        if vals.len() == 2 {
            seq![first]
        } else {
            let second = (vals[1] % 16 * 16 + vals[2] / 4) as u8;
            if vals.len() == 3 {
                seq![first, second]
            } else {
                let third = (vals[2] % 4 * 64 + vals[3]) as u8;
                seq![first, second, third] + spelled(vals.skip(4))
            }
        }
    }
}

/// A hexadecimal digit.
pub open spec fn hex_digit(v: int) -> char {
    if v < 10 {
        (48 + v) as char
    } else {
        (97 + (v - 10)) as char
    }
}

/// A byte in two hexadecimal digits.
pub open spec fn hex_byte(b: u8) -> Seq<char> {
    seq![hex_digit(b as int / 16), hex_digit(b as int % 16)]
}

fn hex(v: u8) -> (r: char)
    requires
        v < 16,
    ensures
        r == hex_digit(v as int),
{
    if v < 10 {
        (48u8 + v) as char
    } else {
        (97u8 + (v - 10)) as char
    }
}

fn hex_text(b: u8) -> (r: String)
    ensures
        r@ == hex_byte(b),
{
    let mut out = String::new();
    out.push(hex(b / 16));
    out.push(hex(b % 16));
    assert(out@ =~= hex_byte(b));
    out
}

/// The bytes of base64 text, or why it is refused.
pub open spec fn decoded(text: Seq<u8>) -> Result<Seq<u8>, Seq<char>> {
    let bytes = stripped(text);
    let body = bytes.take(body_len(bytes) as int);
    if has_trailing_junk(bytes) {
        Err("Invalid base64 in write_serial data: unexpected characters after padding."@)
    } else if first_invalid(body) is Some {
        Err(
            "Invalid base64 in write_serial data (byte 0x"@ + hex_byte(first_invalid(body)->0)
                + "). Use format: utf8 for raw text."@,
        )
    } else if body.len() % 4 == 1 {
        Err(
            "Invalid base64 in write_serial data: a dangling sextet (the input is not a valid base64 length)."@,
        )
    } else {
        Ok(spelled(sextets(body)))
    }
}

fn strip(text: &[u8]) -> (r: Vec<u8>)
    ensures
        r@ == stripped(text@),
{
    let mut out: Vec<u8> = Vec::new();
    let mut i: usize = 0;
    assert(text@.take(0) =~= Seq::empty());
    while i < text.len()
        invariant
            i <= text@.len(),
            out@ == stripped(text@.take(i as int)),
        decreases text@.len() - i,
    {
        let b = text[i];
        assert(text@.take(i + 1).drop_last() =~= text@.take(i as int));
        if !(b == 10 || b == 13 || b == 32 || b == 9) {
            out.push(b);
        }
        i = i + 1;
    }
    assert(text@.take(text@.len() as int) =~= text@);
    out
}

fn spell(vals: &Vec<u8>) -> (r: Vec<u8>)
    requires
        vals@.len() % 4 != 1,
        forall|i: int| 0 <= i < vals@.len() ==> #[trigger] vals@[i] < 64,
    ensures
        r@ == spelled(vals@),
{
    let mut out: Vec<u8> = Vec::new();
    let mut i: usize = 0;
    assert(vals@.skip(0) =~= vals@);
    while i < vals.len()
        invariant
            i <= vals@.len(),
            i % 4 == 0,
            vals@.len() % 4 != 1,
            forall|i: int| 0 <= i < vals@.len() ==> #[trigger] vals@[i] < 64,
            out@ + spelled(vals@.skip(i as int)) =~= spelled(vals@),
        decreases vals@.len() - i,
    {
        let ghost rest = vals@.skip(i as int);
        let ghost before = out@;
        let n: usize = vals.len() - i;
        assert(n != 1);
        assert(rest[0] == vals@[i as int]);
        assert(rest[1] == vals@[i + 1]);
        let v0 = vals[i];
        let v1 = vals[i + 1];
        let first: u8 = v0 * 4 + v1 / 16;
        out.push(first);
        if n == 2 {
            assert(out@ =~= before + spelled(rest));
            return out;
        }
        assert(rest[2] == vals@[i + 2]);
        let v2 = vals[i + 2];
        let second: u8 = v1 % 16 * 16 + v2 / 4;
        out.push(second);
        if n == 3 {
            assert(out@ =~= before + spelled(rest));
            return out;
        }
        assert(rest[3] == vals@[i + 3]);
        let v3 = vals[i + 3];
        let third: u8 = v2 % 4 * 64 + v3;
        out.push(third);
        assert(rest.skip(4) =~= vals@.skip(i + 4));
        assert(out@ =~= before + seq![first, second, third]);
        i = i + 4;
        assert(out@ + spelled(vals@.skip(i as int)) =~= before + spelled(rest));
    }
    assert(out@ =~= spelled(vals@));
    out
}

/// The bytes of base64 text. White space is ignored; a character outside the alphabet, text
/// after the padding and a length that spells no whole bytes are refused.
pub fn base64_decode(s: &str) -> (r: Result<Vec<u8>, String>)
    ensures
        match decoded(utf8::encode_utf8(s@)) {
            Ok(b) => r matches Ok(v) && v@ == b,
            Err(m) => r matches Err(e) && e@ == m,
        },
{
    let bytes = strip(s.as_bytes());
    let ghost all = bytes@;
    let mut end: usize = 0;
    assert(all.skip(0) =~= all);
    while end < bytes.len() && bytes[end] != 61
        invariant
            bytes@ == all,
            end <= bytes@.len(),
            body_len(all) == end + body_len(all.skip(end as int)),
        decreases bytes@.len() - end,
    {
        assert(all.skip(end as int)[0] == all[end as int]);
        assert(all.skip(end as int).skip(1) =~= all.skip(end + 1));
        end = end + 1;
    }
    assert(end < all.len() ==> all.skip(end as int)[0] == all[end as int]);
    assert(body_len(all) == end);
    let mut i: usize = end;
    while i < bytes.len()
        invariant
            bytes@ == all,
            all == stripped(utf8::encode_utf8(s@)),
            body_len(all) == end,
            end <= i <= bytes@.len(),
            forall|j: int| end <= j < i ==> #[trigger] all[j] == 61,
        decreases bytes@.len() - i,
    {
        if bytes[i] != 61 {
            assert(has_trailing_junk(all));
            return Err(
                "Invalid base64 in write_serial data: unexpected characters after padding.".to_string(),
            );
        }
        i = i + 1;
    }
    assert(!has_trailing_junk(all));
    let ghost body = all.take(end as int);
    let mut vals: Vec<u8> = Vec::new();
    let mut k: usize = 0;
    assert(body.skip(0) =~= body);
    while k < end
        invariant
            bytes@ == all,
            all == stripped(utf8::encode_utf8(s@)),
            body_len(all) == end,
            !has_trailing_junk(all),
            body == all.take(end as int),
            k <= end <= bytes@.len(),
            first_invalid(body) == first_invalid(body.skip(k as int)),
            vals@.len() == k,
            forall|j: int|
                0 <= j < k ==> #[trigger] vals@[j] == sextets(body)[j] && vals@[j] < 64,
        decreases end - k,
    {
        assert(body.skip(k as int)[0] == bytes@[k as int]);
        assert(body.skip(k as int).skip(1) =~= body.skip(k + 1));
        let b = bytes[k];
        match sextet(b) {
            Some(v) => vals.push(v),
            None => {
                let code = hex_text(b);
                return Err(
                    text::cat3(
                        "Invalid base64 in write_serial data (byte 0x",
                        code.as_str(),
                        "). Use format: utf8 for raw text.",
                    ),
                );
            },
        }
        k = k + 1;
    }
    assert(body.skip(k as int) =~= Seq::empty());
    assert(vals@ =~= sextets(body));
    if end % 4 == 1 {
        return Err(
            "Invalid base64 in write_serial data: a dangling sextet (the input is not a valid base64 length).".to_string(),
        );
    }
    Ok(spell(&vals))
}

// ---------------------------------------------------------------------------
// Laws
// ---------------------------------------------------------------------------

proof fn lemma_digit_reads_back(v: int)
    requires
        0 <= v < 64,
    ensures
        '\0' <= digit_of(v) <= '\u{7f}',
        sextet_of(digit_of(v) as u8) == Some(v as u8),
        digit_of(v) as u8 != 61,
        !is_ignored(digit_of(v) as u8),
{
}

/// The bytes of a text whose characters are all ASCII.
spec fn ascii_bytes(s: Seq<char>) -> Seq<u8> {
    s.map_values(|c: char| c as u8)
}

/// How many digits come before the padding in the text of `n` bytes.
pub open spec fn digits_for(n: nat) -> nat {
    n / 3 * 4 + (if n % 3 == 0 {
        0nat
    } else {
        n % 3 + 1
    })
}

proof fn lemma_encoded_shape(bytes: Seq<u8>)
    ensures
        encoded(bytes).len() == (bytes.len() + 2) / 3 * 4,
        digits_for(bytes.len()) <= encoded(bytes).len(),
        forall|i: int|
            0 <= i < digits_for(bytes.len()) ==> {
                let c = #[trigger] encoded(bytes)[i];
                '\0' <= c <= '\u{7f}' && sextet_of(c as u8) is Some && c as u8 != 61 && !is_ignored(
                    c as u8,
                )
            },
        forall|i: int|
            digits_for(bytes.len()) <= i < encoded(bytes).len() ==> (#[trigger] encoded(bytes)[i])
                == '=',
    decreases bytes.len(),
{
    if bytes.len() > 0 {
        let head = if bytes.len() <= 3 {
            bytes
        } else {
            bytes.take(3)
        };
        lemma_quad(head);
        if bytes.len() > 3 {
            let rest = bytes.skip(3);
            lemma_encoded_shape(rest);
            let all = encoded(bytes);
            assert(digits_for(bytes.len()) == 4 + digits_for(rest.len()));
            assert forall|i: int| 0 <= i < digits_for(bytes.len()) implies {
                let c = #[trigger] all[i];
                '\0' <= c <= '\u{7f}' && sextet_of(c as u8) is Some && c as u8 != 61 && !is_ignored(
                    c as u8,
                )
            } by {
                if i < 4 {
                    assert(all[i] == quad(head)[i]);
                } else {
                    assert(all[i] == encoded(rest)[i - 4]);
                }
            }
            assert forall|i: int| digits_for(bytes.len()) <= i < all.len() implies (
            #[trigger] all[i]) == '=' by {
                assert(all[i] == encoded(rest)[i - 4]);
            }
        }
    }
}

proof fn lemma_quad(bytes: Seq<u8>)
    requires
        1 <= bytes.len() <= 3,
    ensures
        quad(bytes).len() == 4,
        forall|i: int|
            0 <= i <= bytes.len() ==> {
                let c = #[trigger] quad(bytes)[i];
                '\0' <= c <= '\u{7f}' && sextet_of(c as u8) is Some && c as u8 != 61 && !is_ignored(
                    c as u8,
                )
            },
        forall|i: int| bytes.len() < i < 4 ==> (#[trigger] quad(bytes)[i]) == '=',
        spelled(sextets(ascii_bytes(quad(bytes)).take(bytes.len() as int + 1))) == bytes,
{
    let b0 = bytes[0] as int;
    let b1 = if bytes.len() > 1 {
        bytes[1] as int
    } else {
        0
    };
    let b2 = if bytes.len() > 2 {
        bytes[2] as int
    } else {
        0
    };
    lemma_digit_reads_back(b0 / 4);
    lemma_digit_reads_back(b0 % 4 * 16 + b1 / 16);
    lemma_digit_reads_back(b1 % 16 * 4 + b2 / 64);
    lemma_digit_reads_back(b2 % 64);
    let q = quad(bytes);
    let vals = sextets(ascii_bytes(q).take(bytes.len() as int + 1));
    assert(vals[0] == b0 / 4);
    assert(vals[1] == b0 % 4 * 16 + b1 / 16);
    if bytes.len() == 1 {
        assert(spelled(vals) =~= bytes);
    } else {
        assert(vals[2] == b1 % 16 * 4 + b2 / 64);
        if bytes.len() == 2 {
            assert(spelled(vals) =~= bytes);
        } else {
            assert(vals[3] == b2 % 64);
            assert(spelled(vals.skip(4)) =~= Seq::empty());
            assert(spelled(vals)[0] == b0);
            assert(spelled(vals)[1] == b1);
            assert(vals[2] as int % 4 == b2 / 64);
            assert(spelled(vals)[2] == b2);
            assert(spelled(vals) =~= bytes);
        }
    }
}

proof fn lemma_spelled_back(bytes: Seq<u8>)
    ensures
        spelled(sextets(ascii_bytes(encoded(bytes)).take(digits_for(bytes.len()) as int))) == bytes,
    decreases bytes.len(),
{
    lemma_encoded_shape(bytes);
    if bytes.len() == 0 {
        assert(spelled(sextets(ascii_bytes(encoded(bytes)).take(0))) =~= bytes);
    } else if bytes.len() <= 3 {
        lemma_quad(bytes);
    } else {
        let head = bytes.take(3);
        let rest = bytes.skip(3);
        lemma_quad(head);
        lemma_encoded_shape(rest);
        lemma_spelled_back(rest);
        let vals = sextets(ascii_bytes(encoded(bytes)).take(digits_for(bytes.len()) as int));
        let first = sextets(ascii_bytes(quad(head)).take(4));
        let later = sextets(ascii_bytes(encoded(rest)).take(digits_for(rest.len()) as int));
        assert(vals =~= first + later);
        assert(vals.skip(4) =~= later);
        assert(first.skip(4) =~= Seq::empty());
        assert(spelled(vals) =~= spelled(first) + spelled(later));
        assert(head + rest =~= bytes);
    }
}

proof fn lemma_stripped_nothing(bytes: Seq<u8>)
    requires
        forall|i: int| 0 <= i < bytes.len() ==> !is_ignored(#[trigger] bytes[i]),
    ensures
        stripped(bytes) == bytes,
    decreases bytes.len(),
{
    if bytes.len() > 0 {
        lemma_stripped_nothing(bytes.drop_last());
        assert(stripped(bytes) =~= bytes);
    }
}

proof fn lemma_body_len(bytes: Seq<u8>, n: nat)
    requires
        n <= bytes.len(),
        forall|i: int| 0 <= i < n ==> #[trigger] bytes[i] != 61,
        n < bytes.len() ==> bytes[n as int] == 61,
    ensures
        body_len(bytes) == n,
    decreases n,
{
    if n > 0 {
        assert forall|i: int| 0 <= i < n - 1 implies #[trigger] bytes.skip(1)[i] != 61 by {
            assert(bytes.skip(1)[i] == bytes[i + 1]);
        }
        lemma_body_len(bytes.skip(1), (n - 1) as nat);
    }
}

proof fn lemma_none_invalid(body: Seq<u8>)
    requires
        forall|i: int| 0 <= i < body.len() ==> sextet_of(#[trigger] body[i]) is Some,
    ensures
        first_invalid(body) is None,
    decreases body.len(),
{
    if body.len() > 0 {
        assert forall|i: int| 0 <= i < body.skip(1).len() implies sextet_of(
            #[trigger] body.skip(1)[i],
        ) is Some by {
            assert(body.skip(1)[i] == body[i + 1]);
        }
        lemma_none_invalid(body.skip(1));
    }
}

/// Decoding undoes encoding: the base64 text of any bytes is accepted, and spells them.
pub proof fn decoding_undoes_encoding(bytes: Seq<u8>)
    ensures
        decoded(utf8::encode_utf8(encoded(bytes))) == Ok::<Seq<u8>, Seq<char>>(bytes),
{
    let chars = encoded(bytes);
    let n = digits_for(bytes.len());
    lemma_encoded_shape(bytes);
    assert forall|i: int| 0 <= i < chars.len() implies '\0' <= #[trigger] chars[i]
        <= '\u{7f}' by {
        if i < n {
            assert(encoded(bytes)[i] <= '\u{7f}');
        } else {
            assert(chars[i] == '=');
        }
    }
    utf8::is_ascii_chars_encode_utf8(chars);
    let text = utf8::encode_utf8(chars);
    assert(text =~= ascii_bytes(chars));
    assert forall|i: int| 0 <= i < text.len() implies !is_ignored(#[trigger] text[i]) by {
        if i < n {
            assert(!is_ignored(chars[i] as u8));
        } else {
            assert(chars[i] == '=');
        }
    }
    lemma_stripped_nothing(text);
    assert forall|i: int| 0 <= i < n implies #[trigger] text[i] != 61 by {
        assert(chars[i] as u8 != 61);
    }
    if n < text.len() {
        assert(chars[n as int] == '=');
    }
    lemma_body_len(text, n);
    let body = text.take(n as int);
    assert(!has_trailing_junk(text)) by {
        assert forall|i: int| n <= i < text.len() implies #[trigger] text[i] == 61 by {
            assert(chars[i] == '=');
        }
    }
    assert forall|i: int| 0 <= i < body.len() implies sextet_of(#[trigger] body[i]) is Some by {
        assert(body[i] == chars[i] as u8);
    }
    lemma_none_invalid(body);
    lemma_spelled_back(bytes);
    assert(body.len() % 4 != 1);
}

/// The text of `n` bytes is the least whole number of groups of four characters.
pub proof fn encoded_lengths_are_whole_groups(bytes: Seq<u8>)
    ensures
        encoded(bytes).len() == (bytes.len() + 2) / 3 * 4,
{
    lemma_encoded_shape(bytes);
}

/// The alphabet is that of base64: capital letters, small letters, digits, plus and slash, in this
/// order. A byte is read as the number of its place in it, and as nothing where it has none.
pub proof fn digits_are_those_of_the_alphabet(v: int, b: u8)
    ensures
        ({
            let alphabet = "ABCDEFGHIJKLMNOPQRSTUVWXYZabcdefghijklmnopqrstuvwxyz0123456789+/"@;
            &&& alphabet.len() == 64
            &&& 0 <= v < 64 ==> digit_of(v) == alphabet[v]
            &&& 0 <= v < 64 ==> (b == alphabet[v] as u8 <==> sextet_of(b) == Some(v as u8))
            &&& sextet_of(b) matches Some(s) ==> s < 64 && b == alphabet[s as int] as u8
        }),
{
    reveal_strlit("ABCDEFGHIJKLMNOPQRSTUVWXYZabcdefghijklmnopqrstuvwxyz0123456789+/");
}

/// Three bytes are written as four digits, six bits each and the highest first. A group of one or
/// two bytes is filled up with zero bits, and padded where a digit would have no bit of a byte.
/// Every group is written, in order.
pub proof fn groups_are_written_in_order(bytes: Seq<u8>, k: int)
    requires
        0 <= k,
        3 * k < bytes.len(),
    ensures
        ({
            let out = encoded(bytes);
            let b0 = bytes[3 * k] as int;
            let b1 = if 3 * k + 1 < bytes.len() {
                bytes[3 * k + 1] as int
            } else {
                0
            };
            let b2 = if 3 * k + 2 < bytes.len() {
                bytes[3 * k + 2] as int
            } else {
                0
            };
            &&& 4 * k + 3 < out.len()
            &&& out[4 * k] == digit_of(b0 / 4)
            &&& out[4 * k + 1] == digit_of(b0 % 4 * 16 + b1 / 16)
            &&& out[4 * k + 2] == if 3 * k + 1 < bytes.len() {
                digit_of(b1 % 16 * 4 + b2 / 64)
            } else {
                '='
            }
            &&& out[4 * k + 3] == if 3 * k + 2 < bytes.len() {
                digit_of(b2 % 64)
            } else {
                '='
            }
            &&& b0 / 4 * 262144 + (b0 % 4 * 16 + b1 / 16) * 4096 + (b1 % 16 * 4 + b2 / 64) * 64 + b2
                % 64 == b0 * 65536 + b1 * 256 + b2
        }),
    decreases bytes.len(),
{
    let out = encoded(bytes);
    if bytes.len() > 3 {
        let head = bytes.take(3);
        let rest = bytes.skip(3);
        assert(out == quad(head) + encoded(rest));
        if k > 0 {
            groups_are_written_in_order(rest, k - 1);
            assert(rest[3 * (k - 1)] == bytes[3 * k]);
            if 3 * k + 1 < bytes.len() {
                assert(rest[3 * (k - 1) + 1] == bytes[3 * k + 1]);
            }
            if 3 * k + 2 < bytes.len() {
                assert(rest[3 * (k - 1) + 2] == bytes[3 * k + 2]);
            }
            let late = encoded(rest);
            assert(out[4 * k] == late[4 * (k - 1)]);
            assert(out[4 * k + 1] == late[4 * (k - 1) + 1]);
            assert(out[4 * k + 2] == late[4 * (k - 1) + 2]);
            assert(out[4 * k + 3] == late[4 * (k - 1) + 3]);
        } else {
            assert(out[0] == quad(head)[0] && out[1] == quad(head)[1] && out[2] == quad(head)[2]
                && out[3] == quad(head)[3]);
        }
    } else {
        assert(k == 0);
    }
}

/// Line breaks, spaces and tabs in a text to decode do not count, wherever they stand, and nothing
/// else is passed over.
pub proof fn white_space_does_not_count(text: Seq<u8>)
    ensures
        stripped(text) == text.filter(|b: u8| b != 10 && b != 13 && b != 32 && b != 9),
        decoded(text) == decoded(stripped(text)),
    decreases text.len(),
{
    reveal(Seq::filter);
    let p = |b: u8| b != 10 && b != 13 && b != 32 && b != 9;
    if text.len() > 0 {
        white_space_does_not_count(text.drop_last());
    }
    lemma_stripped_keeps_none(text);
    lemma_stripped_nothing(stripped(text));
}

proof fn lemma_stripped_keeps_none(text: Seq<u8>)
    ensures
        forall|i: int| 0 <= i < stripped(text).len() ==> !is_ignored(#[trigger] stripped(text)[i]),
    decreases text.len(),
{
    if text.len() > 0 {
        lemma_stripped_keeps_none(text.drop_last());
        let before = stripped(text.drop_last());
        assert forall|i: int| 0 <= i < stripped(text).len() implies !is_ignored(
            #[trigger] stripped(text)[i],
        ) by {
            if i < before.len() {
                assert(stripped(text)[i] == before[i]);
            }
        }
    }
}

proof fn lemma_body_is_before_the_padding(bytes: Seq<u8>)
    ensures
        body_len(bytes) <= bytes.len(),
        body_len(bytes) < bytes.len() ==> bytes[body_len(bytes) as int] == 61,
        forall|i: int| 0 <= i < body_len(bytes) ==> #[trigger] bytes[i] != 61,
    decreases bytes.len(),
{
    if bytes.len() > 0 && bytes[0] != 61 {
        let rest = bytes.skip(1);
        lemma_body_is_before_the_padding(rest);
        assert forall|i: int| 0 <= i < body_len(bytes) implies #[trigger] bytes[i] != 61 by {
            if i > 0 {
                assert(rest[i - 1] == bytes[i]);
            }
        }
    }
}

proof fn lemma_first_invalid(body: Seq<u8>, k: int)
    ensures
        first_invalid(body) is None <==> forall|i: int|
            0 <= i < body.len() ==> sextet_of(#[trigger] body[i]) is Some,
        0 <= k < body.len() && sextet_of(body[k]) is None && (forall|i: int|
            0 <= i < k ==> sextet_of(#[trigger] body[i]) is Some) ==> first_invalid(body) == Some(
            body[k],
        ),
    decreases body.len(),
{
    if body.len() > 0 {
        let rest = body.skip(1);
        lemma_first_invalid(rest, k - 1);
        if forall|i: int| 0 <= i < body.len() ==> sextet_of(#[trigger] body[i]) is Some {
            assert(sextet_of(body[0]) is Some);
            assert forall|i: int| 0 <= i < rest.len() implies sextet_of(#[trigger] rest[i])
                is Some by {
                assert(rest[i] == body[i + 1]);
            }
        }
        if first_invalid(body) is None {
            assert forall|i: int| 0 <= i < body.len() implies sextet_of(#[trigger] body[i])
                is Some by {
                if i > 0 {
                    assert(sextet_of(rest[i - 1]) is Some);
                }
            }
        }
        if 0 < k < body.len() && sextet_of(body[k]) is None && (forall|i: int|
            0 <= i < k ==> sextet_of(#[trigger] body[i]) is Some) {
            assert(sextet_of(body[0]) is Some);
            assert(rest[k - 1] == body[k]);
            assert forall|i: int| 0 <= i < k - 1 implies sextet_of(#[trigger] rest[i])
                is Some by {
                assert(rest[i] == body[i + 1]);
            }
        }
    }
}

/// A text without white space is decoded exactly where it is digits of the alphabet followed by
/// padding alone, and the digits are not one too many. What is refused is refused for characters
/// behind the padding, or else for the first byte that is no digit, or else for the digit too many.
pub proof fn texts_are_decoded_where_they_are_base64(body: Seq<u8>, behind: Seq<u8>, k: int)
    requires
        forall|i: int| 0 <= i < body.len() ==> !is_ignored(#[trigger] body[i]) && body[i] != 61,
        forall|i: int| 0 <= i < behind.len() ==> !is_ignored(#[trigger] behind[i]),
        behind.len() > 0 ==> behind[0] == 61,
    ensures
        ({
            let r = decoded(body + behind);
            let padded = forall|i: int| 0 <= i < behind.len() ==> #[trigger] behind[i] == 61;
            let digits = forall|i: int|
                0 <= i < body.len() ==> sextet_of(#[trigger] body[i]) is Some;
            &&& r is Ok <==> padded && digits && body.len() % 4 != 1
            &&& r matches Ok(bytes) ==> bytes == spelled(
                body.map_values(|b: u8| sextet_of(b)->0),
            )
            &&& !padded ==> r == Err::<Seq<u8>, Seq<char>>(
                "Invalid base64 in write_serial data: unexpected characters after padding."@,
            )
            &&& padded && 0 <= k < body.len() && sextet_of(body[k]) is None && (forall|i: int|
                0 <= i < k ==> sextet_of(#[trigger] body[i]) is Some) ==> r == Err::<
                Seq<u8>,
                Seq<char>,
            >(
                "Invalid base64 in write_serial data (byte 0x"@ + hex_byte(body[k])
                    + "). Use format: utf8 for raw text."@,
            )
            &&& padded && digits && body.len() % 4 == 1 ==> r == Err::<Seq<u8>, Seq<char>>(
                "Invalid base64 in write_serial data: a dangling sextet (the input is not a valid base64 length)."@,
            )
        }),
{
    let text = body + behind;
    assert forall|i: int| 0 <= i < text.len() implies !is_ignored(#[trigger] text[i]) by {
        if i < body.len() {
            assert(text[i] == body[i]);
        } else {
            assert(text[i] == behind[i - body.len()]);
        }
    }
    lemma_stripped_nothing(text);
    assert forall|i: int| 0 <= i < body.len() implies #[trigger] text[i] != 61 by {
        assert(text[i] == body[i]);
    }
    lemma_body_len(text, body.len());
    assert(text.take(body.len() as int) =~= body);
    lemma_first_invalid(body, k);
    if has_trailing_junk(text) {
        let i = choose|i: int| body_len(text) <= i < text.len() && #[trigger] text[i] != 61;
        assert(behind[i - body.len()] != 61);
    } else {
        assert forall|i: int| 0 <= i < behind.len() implies #[trigger] behind[i] == 61 by {
            assert(text[body.len() + i] == behind[i]);
        }
    }
}

/// Every text without white space has a part before its padding and a part from there on.
pub proof fn texts_have_a_body_and_padding(bytes: Seq<u8>)
    ensures
        ({
            let n = body_len(bytes) as int;
            &&& 0 <= n <= bytes.len()
            &&& bytes == bytes.take(n) + bytes.skip(n)
            &&& forall|i: int| 0 <= i < n ==> #[trigger] bytes[i] != 61
            &&& n < bytes.len() ==> bytes[n] == 61
        }),
{
    lemma_body_is_before_the_padding(bytes);
    let n = body_len(bytes) as int;
    assert(bytes =~= bytes.take(n) + bytes.skip(n));
}

/// Four digits spell three bytes, the highest bits first; two spell one byte and three spell two.
/// Every group is read, in order.
pub proof fn groups_are_read_in_order(vals: Seq<u8>, k: int)
    requires
        forall|i: int| 0 <= i < vals.len() ==> #[trigger] vals[i] < 64,
        0 <= k,
    ensures
        ({
            let out = spelled(vals);
            &&& out.len() == vals.len() * 3 / 4
            &&& 4 * k + 1 < vals.len() ==> out[3 * k] == vals[4 * k] * 4 + vals[4 * k + 1] / 16
            &&& 4 * k + 2 < vals.len() ==> out[3 * k + 1] == vals[4 * k + 1] % 16 * 16 + vals[4 * k
                + 2] / 4
            &&& 4 * k + 3 < vals.len() ==> out[3 * k + 2] == vals[4 * k + 2] % 4 * 64 + vals[4 * k
                + 3]
        }),
    decreases vals.len(),
{
    let out = spelled(vals);
    if vals.len() > 0 {
        assert(vals[0] < 64);
    }
    if vals.len() > 1 {
        assert(vals[1] < 64);
    }
    if vals.len() > 2 {
        assert(vals[2] < 64);
    }
    if vals.len() > 3 {
        assert(vals[3] < 64);
        let rest = vals.skip(4);
        assert forall|i: int| 0 <= i < rest.len() implies #[trigger] rest[i] < 64 by {
            assert(rest[i] == vals[i + 4]);
        }
        groups_are_read_in_order(
            rest,
            if k > 0 {
                k - 1
            } else {
                0
            },
        );
        let late = spelled(rest);
        assert(out.len() == 3 + late.len());
        if k > 0 {
            if 4 * k + 1 < vals.len() {
                assert(rest[4 * (k - 1)] == vals[4 * k]);
                assert(rest[4 * (k - 1) + 1] == vals[4 * k + 1]);
                assert(out[3 * k] == late[3 * (k - 1)]);
            }
            if 4 * k + 2 < vals.len() {
                assert(rest[4 * (k - 1) + 2] == vals[4 * k + 2]);
                assert(out[3 * k + 1] == late[3 * (k - 1) + 1]);
            }
            if 4 * k + 3 < vals.len() {
                assert(rest[4 * (k - 1) + 3] == vals[4 * k + 3]);
                assert(out[3 * k + 2] == late[3 * (k - 1) + 2]);
            }
        }
    }
}

/// A byte is reported in two hexadecimal digits, the high one first.
pub proof fn bytes_are_reported_in_hexadecimal(b: u8)
    ensures
        hex_byte(b).len() == 2,
        hex_byte(b)[0] == "0123456789abcdef"@[b as int / 16],
        hex_byte(b)[1] == "0123456789abcdef"@[b as int % 16],
{
    reveal_strlit("0123456789abcdef");
}

} // verus!
