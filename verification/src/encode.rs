//! Text made fit for a URL or for a file name.
use crate::text;
use crate::text::chars_of;
use vstd::prelude::*;
use vstd::utf8;

verus! {

/// Whether a byte stands for itself in a URL.
pub open spec fn unreserved(b: u8) -> bool {
    65 <= b <= 90 || 97 <= b <= 122 || 48 <= b <= 57 || b == 45 || b == 95 || b == 46 || b == 126
}

/// The character of a hexadecimal digit, in capitals.
pub open spec fn hex_char(d: int) -> char {
    if d < 10 {
        (48 + d) as char
    } else {
        (55 + d) as char
    }
}

/// A byte as it stands in a URL.
pub open spec fn encoded_byte(b: u8) -> Seq<char> {
    if unreserved(b) {
        seq![b as char]
    } else {
        seq!['%', hex_char(b as int / 16), hex_char(b as int % 16)]
    }
}

/// Bytes as they stand in a URL.
pub open spec fn percent_encoded(bytes: Seq<u8>) -> Seq<char>
    decreases bytes.len(),
{
    if bytes.len() == 0 {
        Seq::empty()
    } else {
        percent_encoded(bytes.drop_last()) + encoded_byte(bytes.last())
    }
}

/// The value of a hexadecimal digit.
pub open spec fn hex_value(c: char) -> int {
    if '0' <= c <= '9' {
        c as int - 48
    } else {
        c as int - 55
    }
}

/// The bytes that a part of a URL stands for, from index `i` on.
pub open spec fn percent_decoded(s: Seq<char>, i: int) -> Seq<u8>
    decreases s.len() - i,
{
    if i < 0 || i >= s.len() {
        Seq::empty()
    } else if s[i] == '%' && i + 2 < s.len() {
        seq![(hex_value(s[i + 1]) * 16 + hex_value(s[i + 2])) as u8] + percent_decoded(s, i + 3)
    } else {
        seq![s[i] as u8] + percent_decoded(s, i + 1)
    }
}

/// The character of a hexadecimal digit, in capitals.
fn hex_digit(d: u8) -> (r: char)
    requires
        d < 16,
    ensures
        r == hex_char(d as int),
{
    if d < 10 {
        (48 + d) as char
    } else {
        (55 + d) as char
    }
}

/// Percent-encoding of a search term: every byte of its UTF-8 form that is not
/// a letter, a digit or one of `-_.~` as `%` and two hexadecimal digits.
pub fn urlencode(s: &str) -> (r: String)
    ensures
        r@ == percent_encoded(utf8::encode_utf8(s@)),
{
    let bytes = s.as_bytes();
    let mut out = String::new();
    let mut i: usize = 0;
    while i < bytes.len()
        invariant
            0 <= i <= bytes@.len(),
            out@ == percent_encoded(bytes@.subrange(0, i as int)),
        decreases bytes@.len() - i,
    {
        let b = bytes[i];
        let ghost before = out@;
        if (65 <= b && b <= 90) || (97 <= b && b <= 122) || (48 <= b && b <= 57) || b == 45 || b
            == 95 || b == 46 || b == 126 {
            out.push(b as char);
        } else {
            out.push('%');
            out.push(hex_digit(b / 16));
            out.push(hex_digit(b % 16));
        }
        proof {
            assert(out@ == before + encoded_byte(b));
            assert(bytes@.subrange(0, i + 1).drop_last() == bytes@.subrange(0, i as int));
        }
        i = i + 1;
    }
    assert(bytes@.subrange(0, bytes@.len() as int) == bytes@);
    out
}

/// Decoding sees the last byte behind all the others.
proof fn lemma_decode_append(bytes: Seq<u8>, i: int, b: u8)
    requires
        0 <= i <= bytes.len(),
    ensures
        percent_decoded(
            percent_encoded(bytes) + encoded_byte(b),
            percent_encoded(bytes.subrange(0, i)).len() as int,
        ) == bytes.subrange(i, bytes.len() as int).push(b),
    decreases bytes.len() - i,
{
    let front = percent_encoded(bytes);
    let s = front + encoded_byte(b);
    let k = percent_encoded(bytes.subrange(0, i)).len() as int;
    if i == bytes.len() {
        assert(bytes.subrange(0, i) == bytes);
        reveal_with_fuel(percent_decoded, 2);
        assert(s[k] == encoded_byte(b)[0]);
        if !unreserved(b) {
            assert(s[k + 1] == encoded_byte(b)[1]);
            assert(s[k + 2] == encoded_byte(b)[2]);
            assert(hex_value(hex_char(b as int / 16)) * 16 + hex_value(hex_char(b as int % 16))
                == b as int);
        }
        assert(bytes.subrange(i, bytes.len() as int).push(b) == seq![b]);
        assert(percent_decoded(s, k) == seq![b]);
    } else {
        let c = bytes[i];
        let done = bytes.subrange(0, i + 1);
        assert(done.drop_last() == bytes.subrange(0, i));
        assert(percent_encoded(done) == percent_encoded(bytes.subrange(0, i)) + encoded_byte(c));
        lemma_encoded_prefix(bytes, i + 1);
        assert(s[k] == encoded_byte(c)[0]) by {
            assert(front[k] == percent_encoded(done)[k]);
        }
        if !unreserved(c) {
            assert(s[k + 1] == encoded_byte(c)[1]) by {
                assert(front[k + 1] == percent_encoded(done)[k + 1]);
            }
            assert(s[k + 2] == encoded_byte(c)[2]) by {
                assert(front[k + 2] == percent_encoded(done)[k + 2]);
            }
            assert(hex_value(hex_char(c as int / 16)) * 16 + hex_value(hex_char(c as int % 16))
                == c as int);
        }
        lemma_decode_append(bytes, i + 1, b);
        assert(percent_decoded(s, k) == seq![c] + percent_decoded(
            s,
            percent_encoded(done).len() as int,
        ));
        assert(seq![c] + bytes.subrange(i + 1, bytes.len() as int).push(b) == bytes.subrange(
            i,
            bytes.len() as int,
        ).push(b));
    }
}

/// The encoding of the first bytes starts the encoding of all bytes.
proof fn lemma_encoded_prefix(bytes: Seq<u8>, i: int)
    requires
        0 <= i <= bytes.len(),
    ensures
        percent_encoded(bytes.subrange(0, i)).len() <= percent_encoded(bytes).len(),
        forall|k: int|
            0 <= k < percent_encoded(bytes.subrange(0, i)).len() ==> (#[trigger] percent_encoded(
                bytes,
            )[k]) == percent_encoded(bytes.subrange(0, i))[k],
    decreases bytes.len(),
{
    if i < bytes.len() {
        lemma_encoded_prefix(bytes.drop_last(), i);
        assert(bytes.drop_last().subrange(0, i) == bytes.subrange(0, i));
        let short = percent_encoded(bytes.drop_last());
        assert(percent_encoded(bytes) == short + encoded_byte(bytes.last()));
        assert forall|k: int|
            0 <= k < percent_encoded(bytes.subrange(0, i)).len() implies (
        #[trigger] percent_encoded(bytes)[k]) == percent_encoded(bytes.subrange(0, i))[k] by {
            assert(short[k] == percent_encoded(bytes.subrange(0, i))[k]);
        }
    } else {
        assert(bytes.subrange(0, i) == bytes);
    }
}

/// A search term can be read back from its encoding: decoding gives the bytes
/// that were encoded.
pub proof fn law_encoding_reads_back(bytes: Seq<u8>)
    ensures
        percent_decoded(percent_encoded(bytes), 0) == bytes,
{
    if bytes.len() > 0 {
        let front = bytes.drop_last();
        lemma_decode_append(front, 0, bytes.last());
        assert(front.subrange(0, 0) == Seq::<u8>::empty());
        assert(front.subrange(0, front.len() as int).push(bytes.last()) == bytes);
    } else {
        assert(percent_decoded(percent_encoded(bytes), 0) == bytes);
    }
}

/// An encoded term holds no other characters than letters, digits, `-_.~` and
/// the percent sign, so it ends no query parameter.
pub proof fn law_encoding_is_url_safe(bytes: Seq<u8>, k: int)
    requires
        0 <= k < percent_encoded(bytes).len(),
    ensures
        ({
            let c = percent_encoded(bytes)[k];
            text::ascii_alphanumeric(c) || c == '-' || c == '_' || c == '.' || c == '~' || c == '%'
        }),
    decreases bytes.len(),
{
    let front = percent_encoded(bytes.drop_last());
    if k < front.len() {
        law_encoding_is_url_safe(bytes.drop_last(), k);
        assert(percent_encoded(bytes)[k] == front[k]);
    } else {
        assert(percent_encoded(bytes)[k] == encoded_byte(bytes.last())[k - front.len()]);
    }
}

/// Whether `char::is_alphanumeric` holds of a character.
pub uninterp spec fn char_alphanumeric(c: char) -> bool;

/// `char::is_alphanumeric` depends on the character alone. Of the ASCII
/// characters it holds of the letters and the digits.
pub assume_specification[ char::is_alphanumeric ](c: char) -> (r: bool)
    ensures
        r == char_alphanumeric(c),
        (c as int) < 128 ==> r == text::ascii_alphanumeric(c),
;

/// Whether a character may stand in a folder name: ASCII letters and digits,
/// the underscore and the hyphen, and the letters and digits of other scripts.
pub open spec fn folder_char(c: char) -> bool {
    text::code_char(c) || (c as int >= 128 && char_alphanumeric(c))
}

/// `s` without the characters that may not stand in a folder name.
pub open spec fn sanitized(s: Seq<char>) -> Seq<char>
    decreases s.len(),
{
    if s.len() == 0 {
        Seq::empty()
    } else if folder_char(s.last()) {
        sanitized(s.drop_last()).push(s.last())
    } else {
        sanitized(s.drop_last())
    }
}

/// The characters of `s` that may stand in a folder name.
pub fn sanitize(s: &str) -> (r: String)
    ensures
        r@ == sanitized(s@),
{
    let chars = chars_of(s);
    let mut out = String::new();
    let mut i: usize = 0;
    while i < chars.len()
        invariant
            0 <= i <= chars@.len(),
            out@ == sanitized(chars@.subrange(0, i as int)),
        decreases chars@.len() - i,
    {
        let c = chars[i];
        if c.is_alphanumeric() || c == '_' || c == '-' {
            out.push(c);
        }
        i = i + 1;
        assert(chars@.subrange(0, i as int).drop_last() == chars@.subrange(0, i - 1));
    }
    assert(chars@.subrange(0, chars@.len() as int) == chars@);
    out
}

/// A folder name holds no path separator, no dot, and nothing else that a
/// folder name may not hold.
pub proof fn law_sanitized_is_clean(s: Seq<char>, k: int)
    requires
        0 <= k < sanitized(s).len(),
    ensures
        folder_char(sanitized(s)[k]),
        sanitized(s)[k] != '/' && sanitized(s)[k] != '\\' && sanitized(s)[k] != '.',
    decreases s.len(),
{
    let front = sanitized(s.drop_last());
    if k < front.len() {
        law_sanitized_is_clean(s.drop_last(), k);
    }
}

/// What may stand in a folder name anyway is left as it is; so a post code is
/// the name of its own folder.
pub proof fn law_sanitize_keeps_clean_text(s: Seq<char>)
    requires
        forall|i: int| 0 <= i < s.len() ==> folder_char(#[trigger] s[i]),
    ensures
        sanitized(s) == s,
    decreases s.len(),
{
    if s.len() > 0 {
        law_sanitize_keeps_clean_text(s.drop_last());
        assert(s.drop_last().push(s.last()) == s);
    } else {
        assert(sanitized(s) == s);
    }
}

/// Sanitizing twice is the same as sanitizing once.
pub proof fn law_sanitize_idempotent(s: Seq<char>)
    ensures
        sanitized(sanitized(s)) == sanitized(s),
{
    assert forall|i: int| 0 <= i < sanitized(s).len() implies folder_char(
        #[trigger] sanitized(s)[i],
    ) by {
        law_sanitized_is_clean(s, i);
    }
    law_sanitize_keeps_clean_text(sanitized(s));
}

/// Encoding goes byte by byte.
pub proof fn law_encoding_goes_byte_by_byte(a: Seq<u8>, b: Seq<u8>)
    ensures
        percent_encoded(a + b) == percent_encoded(a) + percent_encoded(b),
    decreases b.len(),
{
    if b.len() == 0 {
        assert(a + b == a);
        assert(percent_encoded(a) + percent_encoded(b) == percent_encoded(a));
    } else {
        law_encoding_goes_byte_by_byte(a, b.drop_last());
        assert((a + b).drop_last() == a + b.drop_last());
        assert((a + b).last() == b.last());
        assert(percent_encoded(a + b) == percent_encoded(a) + percent_encoded(b));
    }
}

/// A letter, a digit and each of `-`, `_`, `.` and `~` stands for itself; any other
/// byte is a percent sign and two capital hexadecimal digits.
pub proof fn law_encoding_of_a_byte(b: u8)
    ensures
        65 <= b <= 90 || 97 <= b <= 122 || 48 <= b <= 57 || b == 45 || b == 95 || b == 46 || b
            == 126 ==> percent_encoded(seq![b]) == seq![b as char],
        !(65 <= b <= 90 || 97 <= b <= 122 || 48 <= b <= 57 || b == 45 || b == 95 || b == 46 || b
            == 126) ==> percent_encoded(seq![b]) == seq![
            '%',
            "0123456789ABCDEF"@[b as int / 16],
            "0123456789ABCDEF"@[b as int % 16],
        ],
{
    reveal_strlit("0123456789ABCDEF");
    let one = seq![b];
    assert(one.drop_last() == Seq::<u8>::empty());
    assert(percent_encoded(one.drop_last()) == Seq::<char>::empty());
    assert(one.last() == b);
    assert(Seq::<char>::empty() + encoded_byte(b) == encoded_byte(b));
    assert(percent_encoded(one) == encoded_byte(b));
}

/// A folder name is the text with the characters left out that are neither letters
/// nor digits nor `_` nor `-`.
pub proof fn law_folder_keeps_letters_and_digits(s: Seq<char>)
    ensures
        sanitized(s) == s.filter(
            |c: char|
                'A' <= c <= 'Z' || 'a' <= c <= 'z' || '0' <= c <= '9' || c == '_' || c == '-' || (
                c as int >= 128 && char_alphanumeric(c)),
        ),
    decreases s.len(),
{
    reveal(Seq::filter);
    if s.len() > 0 {
        law_folder_keeps_letters_and_digits(s.drop_last());
    }
}

} // verus!
