//! Post codes: reading one from what a user pastes, and finding the media id
//! that belongs to it.
use crate::error;
use crate::error::{Error, Failure};
use crate::number;
use crate::number::to_decimal;
use crate::pattern;
use crate::pattern::Pattern;
use crate::text;
use crate::text::{is_code_char, owned, trimmed_chars, whole_string};
use vstd::prelude::*;
use vstd::utf8;

verus! {

/// Whether all characters of `s` may stand in a post code.
pub open spec fn all_code_chars(s: Seq<char>) -> bool {
    forall|i: int| 0 <= i < s.len() ==> text::code_char(#[trigger] s[i])
}

/// Whether `s` could be a post code pasted on its own.
pub open spec fn plausible_code(s: Seq<char>) -> bool {
    5 <= s.len() <= 64 && all_code_chars(s)
}

/// The post code in what a user pasted: the one in the first post, reel or tv
/// path, or else the whole of it, if that could be a code.
pub open spec fn post_code(input: Seq<char>) -> Result<Seq<char>, Failure<Seq<char>>> {
    let s = text::trim(input);
    match Pattern::Shortcode.first_group(s) {
        Some(code) => Ok(code),
        None => if plausible_code(s) {
            Ok(s)
        } else {
            Err(Failure::UnreadablePost)
        },
    }
}

/// The place of a byte in the alphabet of post codes, which is base64url.
pub open spec fn alphabet_index(b: u8) -> Option<int> {
    if 65 <= b <= 90 {
        Some(b - 65)
    } else if 97 <= b <= 122 {
        Some(b - 97 + 26)
    } else if 48 <= b <= 57 {
        Some(b - 48 + 52)
    } else if b == 45 {
        Some(62)
    } else if b == 95 {
        Some(63)
    } else {
        None
    }
}

/// The first byte from `i` on that is not in the alphabet.
pub open spec fn first_bad(bytes: Seq<u8>, i: int) -> Option<u8>
    decreases bytes.len() - i,
{
    if i < 0 || i >= bytes.len() {
        None
    } else if alphabet_index(bytes[i]) is None {
        Some(bytes[i])
    } else {
        first_bad(bytes, i + 1)
    }
}

/// The number that a code denotes in base 64.
pub open spec fn code_value(bytes: Seq<u8>) -> nat
    decreases bytes.len(),
{
    if bytes.len() == 0 {
        0
    } else {
        code_value(bytes.drop_last()) * 64 + (alphabet_index(bytes.last())->0 as nat)
    }
}

/// The media id that a classic shortcode, of up to 11 bytes, denotes.
pub open spec fn media_id_of(shortcode: Seq<char>) -> Result<Seq<char>, Failure<Seq<char>>> {
    let bytes = utf8::encode_utf8(shortcode);
    if bytes.len() > 11 {
        Err(Failure::LongShareLink(shortcode))
    } else {
        match first_bad(bytes, 0) {
            Some(b) => Err(Failure::BadCharacter(b as char)),
            None => Ok(number::decimal(code_value(bytes))),
        }
    }
}

/// The media id that a post page names: in its link into the app, or else
/// behind the key `media_id`, or else behind the key `pk`.
pub open spec fn page_media_id(page: Seq<char>) -> Option<Seq<char>> {
    match Pattern::AppLink.first_group(page) {
        Some(id) => Some(id),
        None => match Pattern::MediaIdKey.first_group(page) {
            Some(id) => Some(id),
            None => Pattern::PkKey.first_group(page),
        },
    }
}

/// The media id of a post: decoded from its code, or else read from its page.
pub open spec fn resolved_media_id(shortcode: Seq<char>, page: Seq<char>) -> Result<
    Seq<char>,
    Failure<Seq<char>>,
> {
    match media_id_of(shortcode) {
        Ok(id) => Ok(id),
        Err(_) => match page_media_id(page) {
            Some(id) => Ok(id),
            None => Err(Failure::NoMediaId(shortcode)),
        },
    }
}

/// Reads a post code from a full post, reel or tv URL, or from a bare code
/// pasted on its own.
///
/// The bare-code path is deliberately permissive: what is pasted here only ever
/// means "a post", so anything that could be a code is taken as one, and a
/// wrong guess surfaces later as "post not found". A `.` or `/` rules it out.
pub fn shortcode_from_url(input: &str) -> (r: Result<String, Error>)
    ensures
        error::outcome(r) == post_code(input@),
{
    let s = trimmed_chars(input);
    if let Some(code) = Pattern::Shortcode.capture_first(whole_string(&s).as_str()) {
        return Ok(code);
    }
    if s.len() < 5 || s.len() > 64 {
        return Err(Failure::UnreadablePost);
    }
    if !only_code_chars(&s) {
        return Err(Failure::UnreadablePost);
    }
    Ok(whole_string(&s))
}

/// Whether all characters may stand in a post code.
fn only_code_chars(s: &Vec<char>) -> (r: bool)
    ensures
        r == all_code_chars(s@),
{
    let mut i: usize = 0;
    while i < s.len()
        invariant
            0 <= i <= s@.len(),
            forall|k: int| 0 <= k < i ==> text::code_char(#[trigger] s@[k]),
        decreases s@.len() - i,
    {
        if !is_code_char(s[i]) {
            return false;
        }
        i = i + 1;
    }
    true
}

/// The place of a byte in the alphabet of post codes.
fn index_of(b: u8) -> (r: Option<u8>)
    ensures
        match r {
            Some(v) => alphabet_index(b) == Some(v as int) && v < 64,
            None => alphabet_index(b) is None,
        },
{
    if 65 <= b && b <= 90 {
        Some(b - 65)
    } else if 97 <= b && b <= 122 {
        Some(b - 97 + 26)
    } else if 48 <= b && b <= 57 {
        Some(b - 48 + 52)
    } else if b == 45 {
        Some(62)
    } else if b == 95 {
        Some(63)
    } else {
        None
    }
}

/// The media id of a shortcode, decoded over the base64url alphabet.
///
/// Classic shortcodes have 11 characters. Longer values are share links that
/// encode something else; the id of those is resolved from the page instead.
/// 11 characters of 6 bits overflow a `u64`, so this accumulates in a `u128`.
pub fn media_id(shortcode: &str) -> (r: Result<String, Error>)
    ensures
        error::outcome(r) == media_id_of(shortcode@),
{
    let bytes = shortcode.as_bytes();
    if bytes.len() > 11 {
        return Err(Failure::LongShareLink(owned(shortcode)));
    }
    let mut id: u128 = 0;
    let mut i: usize = 0;
    proof {
        assert(bytes@.subrange(0, 0) == Seq::<u8>::empty());
        assert(vstd::arithmetic::power::pow(64, 0) == 1) by {
            vstd::arithmetic::power::lemma_pow0(64);
        }
    }
    while i < bytes.len()
        invariant
            bytes@ == utf8::encode_utf8(shortcode@),
            0 <= i <= bytes@.len() <= 11,
            first_bad(bytes@, 0) == first_bad(bytes@, i as int),
            id == code_value(bytes@.subrange(0, i as int)),
            id < vstd::arithmetic::power::pow(64, i as nat),
        decreases bytes@.len() - i,
    {
        match index_of(bytes[i]) {
            Some(v) => {
                proof {
                    let done = bytes@.subrange(0, i + 1);
                    assert(done.drop_last() == bytes@.subrange(0, i as int));
                    lemma_id_fits(i as nat, id as nat, v as nat);
                }
                id = id * 64 + v as u128;
            },
            None => {
                return Err(Failure::BadCharacter(bytes[i] as char));
            },
        }
        i = i + 1;
    }
    assert(bytes@.subrange(0, bytes@.len() as int) == bytes@);
    Ok(to_decimal(id))
}

/// One more character of six bits.
proof fn lemma_id_fits(n: nat, id: nat, v: nat)
    requires
        n < 11,
        id < vstd::arithmetic::power::pow(64, n),
        v < 64,
    ensures
        id * 64 + v < vstd::arithmetic::power::pow(64, n + 1),
        id * 64 + v < 0x1_0000_0000_0000_0000_0000,
{
    vstd::arithmetic::power::lemma_pow_adds(64, n, 1);
    vstd::arithmetic::power::lemma_pow1(64);
    vstd::arithmetic::power::lemma_pow_increases(64, n + 1, 11);
    reveal_with_fuel(vstd::arithmetic::power::pow, 12);
    assert(vstd::arithmetic::power::pow(64, 11) == 0x4_0000_0000_0000_0000);
}

/// The numeric media id that a post page names.
///
/// Share codes of 30 to 40 characters cannot be decoded arithmetically, so for
/// those the page is the only source. The `instagram://media?id=` link is the
/// most stable anchor; the JSON keys are fallbacks.
pub fn media_id_from_doc(unescaped: &str) -> (r: Option<String>)
    ensures
        text::opt_text(r) == page_media_id(unescaped@),
{
    if let Some(id) = Pattern::AppLink.capture_first(unescaped) {
        return Some(id);
    }
    if let Some(id) = Pattern::MediaIdKey.capture_first(unescaped) {
        return Some(id);
    }
    Pattern::PkKey.capture_first(unescaped)
}

/// The media id of a post: decoded from its code where that can be done, read
/// from its unescaped page otherwise.
pub fn resolve_media_id(shortcode: &str, unescaped: &str) -> (r: Result<String, Error>)
    ensures
        error::outcome(r) == resolved_media_id(shortcode@, unescaped@),
{
    match media_id(shortcode) {
        Ok(id) => Ok(id),
        Err(_) => match media_id_from_doc(unescaped) {
            Some(id) => Ok(id),
            None => Err(Failure::NoMediaId(owned(shortcode))),
        },
    }
}

/// A post, reel or tv URL gives the code behind its marker, whatever stands
/// before the marker (as long as no other marker does) and whatever follows the
/// code (a slash, a query string, nothing at all).
pub proof fn law_url_gives_its_code(
    input: Seq<char>,
    before: Seq<char>,
    marker: Seq<char>,
    code: Seq<char>,
    after: Seq<char>,
)
    requires
        text::trim(input) == before + marker + code + after,
        marker == "/p/"@ || marker == "/reel/"@ || marker == "/tv/"@,
        forall|h: int|
            0 <= h < before.len() ==> #[trigger] pattern::marker_len(
                before + marker + code + after,
                h,
            ) == 0,
        code.len() > 0,
        all_code_chars(code),
        after.len() == 0 || !text::code_char(after[0]),
    ensures
        post_code(input) == Ok::<Seq<char>, Failure<Seq<char>>>(code),
{
    let s = before + marker + code + after;
    let k = before.len() as int;
    let b = k + marker.len();
    reveal_strlit("/p/");
    reveal_strlit("/reel/");
    reveal_strlit("/tv/");
    assert(s.subrange(k, b) == marker);
    assert(text::occurs_at(s, marker, k));
    assert(s[k + 1] == marker[1]);
    if text::occurs_at(s, "/p/"@, k) {
        assert(s.subrange(k, k + 3)[1] == 'p');
    }
    if text::occurs_at(s, "/reel/"@, k) {
        assert(s.subrange(k, k + 6)[1] == 'r');
    }
    assert(pattern::marker_len(s, k) == marker.len());
    assert forall|h: int| b <= h < b + code.len() implies pattern::codes()(#[trigger] s[h]) by {
        assert(s[h] == code[h - b]);
    }
    assert(after.len() > 0 ==> s[b + code.len()] == after[0]);
    text::lemma_run_end_unique(s, b, b + code.len(), pattern::codes());
    assert(s[b] == code[0]);
    assert(s.subrange(b, b + code.len()) == code);
    Pattern::Shortcode.lemma_leftmost_unique(s, 0, k);
}

/// Without a slash there is no marker.
proof fn lemma_no_marker(s: Seq<char>)
    requires
        forall|i: int| 0 <= i < s.len() ==> #[trigger] s[i] != '/',
    ensures
        Pattern::Shortcode.leftmost(s, 0) is None,
{
    reveal_strlit("/p/");
    reveal_strlit("/reel/");
    reveal_strlit("/tv/");
    assert forall|h: int| 0 <= h < s.len() implies (#[trigger] Pattern::Shortcode.match_at(
        s,
        h,
    )) is None by {
        if text::occurs_at(s, "/p/"@, h) {
            assert(s.subrange(h, h + 3)[0] == s[h]);
        }
        if text::occurs_at(s, "/reel/"@, h) {
            assert(s.subrange(h, h + 6)[0] == s[h]);
        }
        if text::occurs_at(s, "/tv/"@, h) {
            assert(s.subrange(h, h + 4)[0] == s[h]);
        }
    }
    Pattern::Shortcode.lemma_leftmost(s, 0);
}

/// A bare code of 5 to 64 characters, with or without white space around it,
/// gives itself.
pub proof fn law_bare_code_gives_itself(input: Seq<char>)
    requires
        plausible_code(text::trim(input)),
    ensures
        post_code(input) == Ok::<Seq<char>, Failure<Seq<char>>>(text::trim(input)),
{
    let s = text::trim(input);
    assert forall|i: int| 0 <= i < s.len() implies #[trigger] s[i] != '/' by {
        assert(text::code_char(s[i]));
    }
    lemma_no_marker(s);
}

/// Without a post, reel or tv path, a dot or a slash anywhere in the input, white
/// space around it aside, rules it out.
pub proof fn law_dot_or_slash_rules_out_a_bare_code(input: Seq<char>)
    requires
        Pattern::Shortcode.first_group(text::trim(input)) is None,
        text::trim(input).contains('.') || text::trim(input).contains('/'),
    ensures
        post_code(input) == Err::<Seq<char>, Failure<Seq<char>>>(Failure::UnreadablePost),
{
    let s = text::trim(input);
    let i = choose|i: int| 0 <= i < s.len() && (s[i] == '.' || s[i] == '/');
    assert(!text::code_char(s[i]));
}

/// What is read as a post code is never empty and holds no other characters
/// than a code may hold.
pub proof fn law_post_code_is_a_code(input: Seq<char>)
    requires
        post_code(input) is Ok,
    ensures
        post_code(input)->Ok_0.len() > 0,
        all_code_chars(post_code(input)->Ok_0),
{
    let s = text::trim(input);
    Pattern::Shortcode.lemma_leftmost(s, 0);
    if let Some((k, m)) = Pattern::Shortcode.leftmost(s, 0) {
        let b = k + pattern::marker_len(s, k);
        text::lemma_run_end(s, b, pattern::codes());
        let e = text::run_end(s, b, pattern::codes());
        assert(b < e) by {
            if b == e {
                assert(!pattern::codes()(s[b]));
            }
        }
        assert forall|i: int| 0 <= i < e - b implies text::code_char(
            #[trigger] s.subrange(b, e)[i],
        ) by {
            assert(pattern::codes()(s[b + i]));
        }
    }
}

/// All characters of a code are bytes of the alphabet.
proof fn lemma_code_bytes(code: Seq<char>)
    requires
        all_code_chars(code),
    ensures
        utf8::encode_utf8(code).len() == code.len(),
        forall|i: int|
            0 <= i < code.len() ==> (#[trigger] utf8::encode_utf8(code)[i]) == code[i] as u8
                && alphabet_index(code[i] as u8) is Some,
{
    assert forall|i: int| 0 <= i < code.len() implies '\0' <= #[trigger] code[i] <= '\u{7f}' by {
        assert(text::code_char(code[i]));
    }
    utf8::is_ascii_chars_encode_utf8(code);
    assert forall|i: int| 0 <= i < code.len() implies (#[trigger] utf8::encode_utf8(code)[i])
        == code[i] as u8 && alphabet_index(code[i] as u8) is Some by {
        assert(text::code_char(code[i]));
    }
}

/// There is no bad byte exactly when all bytes are in the alphabet.
proof fn lemma_none_bad(bytes: Seq<u8>, i: int)
    requires
        0 <= i,
    ensures
        first_bad(bytes, i) is None <==> forall|k: int|
            i <= k < bytes.len() ==> alphabet_index(#[trigger] bytes[k]) is Some,
    decreases bytes.len() - i,
{
    if i < bytes.len() && alphabet_index(bytes[i]) is Some {
        lemma_none_bad(bytes, i + 1);
    }
}

/// A classic shortcode always decodes to a media id; a longer code never does.
pub proof fn law_only_classic_codes_decode(code: Seq<char>)
    requires
        all_code_chars(code),
    ensures
        code.len() <= 11 ==> media_id_of(code) is Ok,
        code.len() > 11 ==> media_id_of(code) == Err::<Seq<char>, Failure<Seq<char>>>(
            Failure::LongShareLink(code),
        ),
{
    lemma_code_bytes(code);
    let bytes = utf8::encode_utf8(code);
    assert forall|k: int| 0 <= k < bytes.len() implies alphabet_index(
        #[trigger] bytes[k],
    ) is Some by {
        assert(bytes[k] == code[k] as u8);
    }
    lemma_none_bad(bytes, 0);
}

/// Codes of the same length and the same number are the same.
proof fn lemma_code_value_injective(a: Seq<u8>, b: Seq<u8>)
    requires
        a.len() == b.len(),
        forall|i: int| 0 <= i < a.len() ==> alphabet_index(#[trigger] a[i]) is Some,
        forall|i: int| 0 <= i < b.len() ==> alphabet_index(#[trigger] b[i]) is Some,
        code_value(a) == code_value(b),
    ensures
        a == b,
    decreases a.len(),
{
    if a.len() > 0 {
        assert(alphabet_index(a.last()) is Some && alphabet_index(b.last()) is Some);
        lemma_code_value_injective(a.drop_last(), b.drop_last());
        assert(a == a.drop_last().push(a.last()));
        assert(b == b.drop_last().push(b.last()));
    } else {
        assert(a == b);
    }
}

/// Two different shortcodes of the same length have different media ids.
pub proof fn law_media_ids_differ(a: Seq<char>, b: Seq<char>)
    requires
        all_code_chars(a),
        all_code_chars(b),
        a.len() == b.len() <= 11,
        a != b,
    ensures
        media_id_of(a) != media_id_of(b),
{
    law_only_classic_codes_decode(a);
    law_only_classic_codes_decode(b);
    lemma_code_bytes(a);
    lemma_code_bytes(b);
    let x = utf8::encode_utf8(a);
    let y = utf8::encode_utf8(b);
    if media_id_of(a) == media_id_of(b) {
        number::law_decimal_injective(code_value(x), code_value(y));
        assert forall|k: int| 0 <= k < x.len() implies alphabet_index(#[trigger] x[k]) is Some by {
            assert(x[k] == a[k] as u8);
        }
        assert forall|k: int| 0 <= k < y.len() implies alphabet_index(#[trigger] y[k]) is Some by {
            assert(y[k] == b[k] as u8);
        }
        lemma_code_value_injective(x, y);
        assert forall|k: int| 0 <= k < a.len() implies a[k] == b[k] by {
            assert(x[k] == a[k] as u8);
            assert(y[k] == b[k] as u8);
            assert(text::code_char(a[k]) && text::code_char(b[k]));
        }
        assert(a == b);
    }
}

/// A page with a link into the app gives the number in that link, for every
/// post code that cannot be decoded.
pub proof fn law_app_link_names_the_post(
    shortcode: Seq<char>,
    before: Seq<char>,
    id: Seq<char>,
    after: Seq<char>,
)
    requires
        media_id_of(shortcode) is Err,
        id.len() >= 10,
        number::all_digits(id),
        after.len() == 0 || !pattern::digit(after[0]),
        forall|h: int|
            0 <= h < before.len() ==> !#[trigger] text::occurs_at(
                before + "instagram://media?id="@ + id + after,
                "instagram://media?id="@,
                h,
            ),
    ensures
        resolved_media_id(shortcode, before + "instagram://media?id="@ + id + after) == Ok::<
            Seq<char>,
            Failure<Seq<char>>,
        >(id),
{
    let link = "instagram://media?id="@;
    let s = before + link + id + after;
    let k = before.len() as int;
    let b = k + link.len();
    assert(s.subrange(k, b) == link);
    assert forall|h: int| b <= h < b + id.len() implies pattern::digits()(#[trigger] s[h]) by {
        assert(s[h] == id[h - b]);
    }
    assert(after.len() > 0 ==> s[b + id.len()] == after[0]);
    text::lemma_run_end_unique(s, b, b + id.len(), pattern::digits());
    assert(s.subrange(b, b + id.len()) == id);
    Pattern::AppLink.lemma_leftmost_unique(s, 0, k);
}

/// Without a post, reel or tv path, the input, white space around it aside, is
/// taken as a code exactly when it has 5 to 64 characters, all of them ASCII
/// letters, digits, underscores and hyphens.
pub proof fn law_which_bare_codes_are_taken(input: Seq<char>)
    requires
        Pattern::Shortcode.first_group(text::trim(input)) is None,
    ensures
        5 <= text::trim(input).len() <= 64 && (forall|k: int|
            0 <= k < text::trim(input).len() ==> {
                let c = #[trigger] text::trim(input)[k];
                'A' <= c <= 'Z' || 'a' <= c <= 'z' || '0' <= c <= '9' || c == '_' || c == '-'
            }) ==> post_code(input) == Ok::<Seq<char>, Failure<Seq<char>>>(text::trim(input)),
        !(5 <= text::trim(input).len() <= 64 && (forall|k: int|
            0 <= k < text::trim(input).len() ==> {
                let c = #[trigger] text::trim(input)[k];
                'A' <= c <= 'Z' || 'a' <= c <= 'z' || '0' <= c <= '9' || c == '_' || c == '-'
            })) ==> post_code(input) == Err::<Seq<char>, Failure<Seq<char>>>(
            Failure::UnreadablePost,
        ),
{
    let s = text::trim(input);
    if all_code_chars(s) {
        assert forall|k: int| 0 <= k < s.len() implies {
            let c = #[trigger] s[k];
            'A' <= c <= 'Z' || 'a' <= c <= 'z' || '0' <= c <= '9' || c == '_' || c == '-'
        } by {
            assert(text::code_char(s[k]));
        }
    }
}

/// One more character of a code multiplies its number by 64 and adds the place of
/// the character in the alphabet: capitals, small letters, digits, hyphen,
/// underscore. The empty code is 0.
pub proof fn law_code_is_a_number_in_base_64(code: Seq<char>, c: char, n: nat)
    requires
        all_code_chars(code),
        code.len() < 11,
        text::code_char(c),
        media_id_of(code) == Ok::<Seq<char>, Failure<Seq<char>>>(number::decimal(n)),
    ensures
        media_id_of(Seq::<char>::empty()) == Ok::<Seq<char>, Failure<Seq<char>>>(
            number::decimal(0),
        ),
        media_id_of(code.push(c)) == Ok::<Seq<char>, Failure<Seq<char>>>(
            number::decimal(
                (n * 64 + if 'A' <= c <= 'Z' {
                    c as int - 65
                } else if 'a' <= c <= 'z' {
                    c as int - 97 + 26
                } else if '0' <= c <= '9' {
                    c as int - 48 + 52
                } else if c == '-' {
                    62
                } else {
                    63
                }) as nat,
            ),
        ),
{
    let longer = code.push(c);
    assert forall|i: int| 0 <= i < longer.len() implies text::code_char(#[trigger] longer[i]) by {
        if i < code.len() {
            assert(longer[i] == code[i]);
        }
    }
    law_only_classic_codes_decode(code);
    law_only_classic_codes_decode(longer);
    law_only_classic_codes_decode(Seq::<char>::empty());
    lemma_code_bytes(code);
    lemma_code_bytes(longer);
    lemma_code_bytes(Seq::<char>::empty());
    let x = utf8::encode_utf8(code);
    let y = utf8::encode_utf8(longer);
    assert(utf8::encode_utf8(Seq::<char>::empty()) == Seq::<u8>::empty());
    assert(y.drop_last() == x) by {
        assert forall|i: int| 0 <= i < x.len() implies y[i] == x[i] by {
            assert(y[i] == longer[i] as u8);
            assert(x[i] == code[i] as u8);
        }
    }
    assert(y.last() == longer[code.len() as int] as u8);
    number::law_decimal_injective(code_value(x), n);
}

/// A code of up to 11 ASCII characters with one that is not in the alphabet is
/// rejected, and the first such character is told.
pub proof fn law_first_bad_character_is_told(good: Seq<char>, bad: char, rest: Seq<char>)
    requires
        all_code_chars(good),
        (bad as int) < 128,
        !text::code_char(bad),
        forall|k: int| 0 <= k < rest.len() ==> ((#[trigger] rest[k]) as int) < 128,
        good.len() + 1 + rest.len() <= 11,
    ensures
        media_id_of(good.push(bad) + rest) == Err::<Seq<char>, Failure<Seq<char>>>(
            Failure::BadCharacter(bad),
        ),
{
    let code = good.push(bad) + rest;
    let n = good.len() as int;
    assert forall|i: int| 0 <= i < code.len() implies '\0' <= #[trigger] code[i] <= '\u{7f}' by {
        lemma_no_character_below_zero(code[i]);
        if i < n {
            assert(code[i] == good[i]);
            assert(text::code_char(good[i]));
        } else if i > n {
            assert(code[i] == rest[i - n - 1]);
        }
    }
    utf8::is_ascii_chars_encode_utf8(code);
    let bytes = utf8::encode_utf8(code);
    assert forall|k: int| 0 <= k < n implies alphabet_index(#[trigger] bytes[k]) is Some by {
        assert(bytes[k] == code[k] as u8);
        assert(code[k] == good[k]);
        assert(text::code_char(good[k]));
    }
    assert(bytes[n] == bad as u8);
    assert(alphabet_index(bytes[n]) is None);
    lemma_first_bad_at(bytes, 0, n);
    assert(bytes[n] as char == bad);
}

/// Every character is at least the first one.
proof fn lemma_no_character_below_zero(c: char)
    ensures
        '\0' <= c,
{
}

/// The first bad byte is the one before which there is none.
proof fn lemma_first_bad_at(bytes: Seq<u8>, i: int, n: int)
    requires
        0 <= i <= n < bytes.len(),
        forall|k: int| i <= k < n ==> alphabet_index(#[trigger] bytes[k]) is Some,
        alphabet_index(bytes[n]) is None,
    ensures
        first_bad(bytes, i) == Some(bytes[n]),
    decreases n - i,
{
    if i < n {
        assert(alphabet_index(bytes[i]) is Some);
        lemma_first_bad_at(bytes, i + 1, n);
    }
}

/// Where the media id of a post comes from: a code that decodes gives it, whatever
/// the page says; else the page gives it, by its link into the app first, by
/// `media_id` next, and by `pk` last; else there is none.
pub proof fn law_where_media_ids_come_from(code: Seq<char>, page: Seq<char>)
    ensures
        media_id_of(code) matches Ok(id) ==> resolved_media_id(code, page) == Ok::<
            Seq<char>,
            Failure<Seq<char>>,
        >(id),
        media_id_of(code) is Err ==> match (
            Pattern::AppLink.first_group(page),
            Pattern::MediaIdKey.first_group(page),
            Pattern::PkKey.first_group(page),
        ) {
            (Some(id), _, _) => resolved_media_id(code, page) == Ok::<
                Seq<char>,
                Failure<Seq<char>>,
            >(id),
            (None, Some(id), _) => resolved_media_id(code, page) == Ok::<
                Seq<char>,
                Failure<Seq<char>>,
            >(id),
            (None, None, Some(id)) => resolved_media_id(code, page) == Ok::<
                Seq<char>,
                Failure<Seq<char>>,
            >(id),
            (None, None, None) => resolved_media_id(code, page) == Err::<
                Seq<char>,
                Failure<Seq<char>>,
            >(Failure::NoMediaId(code)),
        },
{
}

} // verus!
