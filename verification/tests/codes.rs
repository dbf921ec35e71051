//! Post codes, usernames, numbers, dates and encodings.
use instagrab::calendar::iso_utc;
use instagrab::encode::{sanitize, urlencode};
use instagrab::number::{
    parse_u32, parse_u64, to_decimal, to_padded_decimal, to_signed_decimal,
};
use instagrab::shortcode::{media_id, media_id_from_doc, resolve_media_id, shortcode_from_url};
use instagrab::text::is_white_space;
use instagrab::username::username_from_input;

#[test]
fn shortcode_to_media_id() {
    // "B" is index 1, followed by ten zeros, so this is 1 * 64^10 = 2^60.
    assert_eq!(media_id("BAAAAAAAAAA").unwrap(), "1152921504606846976");
    assert_eq!(media_id("AAAAAAAAAAA").unwrap(), "0");
    assert!(media_id("not a shortcode!").is_err());
}

#[test]
fn parses_post_urls() {
    for u in [
        "https://www.instagram.com/p/ABCDEFGHIJK/?utm_source=ig_web_copy_link",
        "https://instagram.com/reel/ABCDEFGHIJK/",
        "https://www.instagram.com/tv/ABCDEFGHIJK",
    ] {
        assert_eq!(shortcode_from_url(u).unwrap(), "ABCDEFGHIJK");
    }
}

#[test]
fn accepts_a_bare_code() {
    for s in ["ABCDEFGHIJK", "  ABCDEFGHIJK  "] {
        assert_eq!(shortcode_from_url(s).unwrap(), s.trim());
    }
    for s in ["", "   ", "https://example.com/some/path", "a b c"] {
        assert!(shortcode_from_url(s).is_err(), "should reject {s:?}");
    }
}

#[test]
fn reads_usernames_from_urls_and_bare_input() {
    for s in [
        "https://www.instagram.com/someuser/",
        "https://instagram.com/someuser",
        "https://www.instagram.com/someuser/?hl=en",
        "someuser",
        "@someuser",
        "  someuser  ",
    ] {
        assert_eq!(username_from_input(s).unwrap(), "someuser", "input {s:?}");
    }
    // A post link in the profile field is a common slip; say so clearly.
    let err = username_from_input("https://www.instagram.com/p/ABCDEFGHIJK/")
        .unwrap_err()
        .message();
    assert!(err.contains("post link"), "unhelpful: {err}");
    assert!(username_from_input("").is_err());
    assert!(username_from_input("two words").is_err());
}

#[test]
fn long_share_codes_take_the_document_route() {
    let long = "A".repeat(39);
    assert_eq!(
        shortcode_from_url(&format!("https://www.instagram.com/p/{long}/?img_index=2")).unwrap(),
        long
    );
    let err = media_id(&long).unwrap_err().message();
    assert!(err.contains("long share link"), "unhelpful error: {err}");
}

#[test]
fn reads_media_id_from_a_page() {
    let meta = r#"<meta content="instagram://media?id=1152921504606846976" />"#;
    assert_eq!(media_id_from_doc(meta).unwrap(), "1152921504606846976");
    let json = r#"{"media_id":"1152921504606846976","x":1}"#;
    assert_eq!(media_id_from_doc(json).unwrap(), "1152921504606846976");
    assert_eq!(media_id_from_doc("<html>nothing here</html>"), None);
    assert_eq!(
        media_id("BAAAAAAAAAA").unwrap(),
        media_id_from_doc(meta).unwrap()
    );
}

#[test]
fn formats_utc_dates() {
    assert_eq!(iso_utc(0), "1970-01-01 00:00 UTC");
    assert_eq!(iso_utc(1_700_000_000), "2023-11-14 22:13 UTC");
    assert_eq!(iso_utc(1_000_000_000), "2001-09-09 01:46 UTC");
}

#[test]
fn encodes_search_terms() {
    assert_eq!(urlencode("plain"), "plain");
    assert_eq!(urlencode("two words"), "two%20words");
    assert_eq!(urlencode("a/b?c"), "a%2Fb%3Fc");
}

#[test]
fn code_alphabet_is_base64url() {
    assert_eq!(media_id("").unwrap(), "0");
    assert_eq!(media_id("Z").unwrap(), "25");
    assert_eq!(media_id("a").unwrap(), "26");
    assert_eq!(media_id("z").unwrap(), "51");
    assert_eq!(media_id("0").unwrap(), "52");
    assert_eq!(media_id("9").unwrap(), "61");
    assert_eq!(media_id("-").unwrap(), "62");
    assert_eq!(media_id("_").unwrap(), "63");
    assert_eq!(media_id("BA").unwrap(), "64");
    // Eleven characters of six bits do not fit into 64 bits.
    assert_eq!(media_id("___________").unwrap(), "73786976294838206463");
}

#[test]
fn bad_shortcodes_are_explained() {
    assert_eq!(
        media_id("a b").unwrap_err().message(),
        "bad character ' ' in shortcode"
    );
    // The first byte of a character outside ASCII is what is shown.
    assert_eq!(
        media_id("\u{e9}").unwrap_err().message(),
        "bad character '\u{c3}' in shortcode"
    );
    assert_eq!(
        media_id("a'b").unwrap_err().message(),
        "bad character '\\'' in shortcode"
    );
    assert_eq!(
        media_id("ABCDEFGHIJKL").unwrap_err().message(),
        "ABCDEFGHIJKL is a long share link, not a classic shortcode — \
         resolve its media id from the post page"
    );
}

#[test]
fn post_urls_in_many_shapes() {
    // The first marker with a code behind it counts.
    assert_eq!(shortcode_from_url("/p//reel/abc/tv/def").unwrap(), "abc");
    assert_eq!(shortcode_from_url("x/p/a-b_c.d").unwrap(), "a-b_c");
    assert_eq!(shortcode_from_url("\u{3000}/p/x\u{3000}").unwrap(), "x");
    assert_eq!(shortcode_from_url(&"a".repeat(64)).unwrap(), "a".repeat(64));
    for s in [
        "abcd".to_string(),
        "a".repeat(65),
        "some.user".to_string(),
        "/ABC/DEF/".to_string(),
        "/ABCDE/".to_string(),
        "/ABCDEFGHIJK/".to_string(),
        "ABCDEFGHIJK/".to_string(),
        "https://www.instagram.com/p/".to_string(),
        "\u{e9}\u{e9}\u{e9}\u{e9}\u{e9}".to_string(),
    ] {
        assert_eq!(
            shortcode_from_url(&s).unwrap_err().message(),
            "couldn't read a post from that — paste an Instagram post URL, or just its code",
            "input {s:?}"
        );
    }
}

#[test]
fn usernames_in_many_shapes() {
    let ok = |s: &str| username_from_input(s).unwrap();
    let err = |s: &str| username_from_input(s).unwrap_err().message();
    assert_eq!(ok("@@some.user"), "some.user");
    assert_eq!(ok("instagram.com/@some_user#top"), "some_user");
    assert_eq!(ok("instagram.com///user//?next=/p/x"), "user");
    assert_eq!(ok("https://www.instagram.com/p.q/"), "p.q");
    // What follows a second mention of the site is not read.
    assert_eq!(ok("instagram.com/user?from=instagram.com/p/x"), "user");
    assert_eq!(err(" \t\n"), "enter a username");
    assert_eq!(err("https://www.instagram.com/"), "that URL has no username in it");
    assert_eq!(err("https://www.instagram.com?x/y"), "that URL has no username in it");
    for kind in ["p", "reel", "reels", "tv", "stories", "explore"] {
        assert_eq!(
            err(&format!("https://instagram.com/{kind}/x")),
            "that's a post link, not a profile — use the Single post tab"
        );
    }
    // A path deeper than the username is that of a post.
    for s in [
        "https://www.instagram.com/someuser/p/ABCDEFGHIJK/",
        "instagram.com///user/tagged/",
        "instagram.com/user//x?hl=en",
        "instagram.com/a/instagram.com/b",
    ] {
        assert_eq!(
            err(s),
            "that's a post link, not a profile — use the Single post tab",
            "input {s:?}"
        );
    }
    for s in ["a/b", "https://example.com/user", "two words"] {
        assert_eq!(err(s), "that doesn't look like a username or profile URL");
    }
}

#[test]
fn media_ids_on_a_page_have_an_order() {
    let page = r#""pk":"111111111111111" "media_id" : 2222222222 instagram://media?id=3333333333x"#;
    assert_eq!(media_id_from_doc(page).unwrap(), "3333333333");
    let page = r#""pk":"111111111111111" "media_id" : 2222222222 instagram://media?id=333"#;
    assert_eq!(media_id_from_doc(page).unwrap(), "2222222222");
    let page = r#""pk":"111111111111111" "media_id" : 222222222"#;
    assert_eq!(media_id_from_doc(page).unwrap(), "111111111111111");
    assert_eq!(media_id_from_doc(r#""pk":"11111111111111""#), None);
}

#[test]
fn media_id_comes_from_the_code_or_from_the_page() {
    let page = "instagram://media?id=1234567890";
    assert_eq!(resolve_media_id("BA", page).unwrap(), "64");
    assert_eq!(resolve_media_id("ABCDEFGHIJKL", page).unwrap(), "1234567890");
    assert_eq!(resolve_media_id("a.b", page).unwrap(), "1234567890");
    assert_eq!(
        resolve_media_id("ABCDEFGHIJKL", "").unwrap_err().message(),
        "couldn't find a media id on the page for ABCDEFGHIJKL"
    );
}

#[test]
fn dates_at_the_edges() {
    for (secs, text) in [
        (-1, "1969-12-31 23:59 UTC"),
        (951_782_400, "2000-02-29 00:00 UTC"),
        (951_868_799, "2000-02-29 23:59 UTC"),
        (951_868_800, "2000-03-01 00:00 UTC"),
        (4_107_542_399, "2100-02-28 23:59 UTC"),
        (4_107_542_400, "2100-03-01 00:00 UTC"),
        (-62_167_219_200, "0000-01-01 00:00 UTC"),
        (-62_167_219_201, "-001-12-31 23:59 UTC"),
        (253_402_300_799, "9999-12-31 23:59 UTC"),
        (253_402_300_800, "10000-01-01 00:00 UTC"),
        (i64::MAX, "292277026596-12-04 15:30 UTC"),
        (i64::MIN, "-292277022657-01-27 08:29 UTC"),
    ] {
        assert_eq!(iso_utc(secs), text);
    }
}

#[test]
fn decimals_match_the_formatter() {
    for n in [0u128, 7, 10, 99, 100, 12345, u64::MAX as u128, u128::MAX] {
        assert_eq!(to_decimal(n), n.to_string());
    }
    for i in [0i64, -1, 5, -10, 1357001, i64::MAX, i64::MIN] {
        assert_eq!(to_signed_decimal(i), i.to_string());
        assert_eq!(to_padded_decimal(i, 4), format!("{i:04}"));
        assert_eq!(to_padded_decimal(i, 2), format!("{i:02}"));
        assert_eq!(to_padded_decimal(i, 0), i.to_string());
    }
}

#[test]
fn numbers_are_read_as_the_parser_reads_them() {
    for s in [
        "", "+", "-", "0", "+0", "-0", "007", "+12", "++1", "4294967295", "4294967296",
        "18446744073709551615", "18446744073709551616", "1x", "x1", " 1", "\u{661}",
        "00000000000000000000000000000005",
    ] {
        assert_eq!(parse_u64(s), s.parse::<u64>().ok(), "{s:?}");
        assert_eq!(parse_u32(s), s.parse::<u32>().ok(), "{s:?}");
    }
}

#[test]
fn white_space_is_the_unicode_property() {
    for c in '\0'..=char::MAX {
        assert_eq!(is_white_space(c), c.is_whitespace(), "{c:?}");
    }
}

#[test]
fn encoding_reads_back() {
    assert_eq!(urlencode("\u{e9}~.-_"), "%C3%A9~.-_");
    assert_eq!(urlencode("100%&="), "100%25%26%3D");
    let all: String = ('\0'..='\u{7ff}').collect();
    let enc = urlencode(&all);
    let mut bytes = Vec::new();
    let mut rest = enc.as_bytes();
    while let Some((&b, tail)) = rest.split_first() {
        if b == b'%' {
            let hex = std::str::from_utf8(&tail[..2]).unwrap();
            bytes.push(u8::from_str_radix(hex, 16).unwrap());
            rest = &tail[2..];
        } else {
            bytes.push(b);
            rest = tail;
        }
    }
    assert_eq!(String::from_utf8(bytes).unwrap(), all);
}

#[test]
fn folder_names_are_clean() {
    assert_eq!(sanitize("ABC-d_9"), "ABC-d_9");
    assert_eq!(sanitize("../a b\\c/\u{e9}\u{4e2d}!"), "abc\u{e9}\u{4e2d}");
    assert_eq!(sanitize(""), "");
    let messy = "a.b/c\u{661}\u{2014}d";
    assert_eq!(sanitize(messy), "abc\u{661}d");
    assert_eq!(sanitize(&sanitize(messy)), sanitize(messy));
}
