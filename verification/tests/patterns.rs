//! The patterns, and what is read from CDN URLs with them.
use instagrab::cdn::{asset_of, assets_from_doc, look_up, size_score, size_tag, unescape};
use instagrab::pattern::Pattern;
use instagrab::profile::{count_parts, profile_description};

const ALL: [Pattern; 9] = [
    Pattern::Shortcode,
    Pattern::Asset,
    Pattern::Size,
    Pattern::AppLink,
    Pattern::MediaIdKey,
    Pattern::PkKey,
    Pattern::OgDescription,
    Pattern::PostCount,
    Pattern::CdnUrl,
];

#[test]
fn ranks_by_size_hint() {
    let small = "https://x.fbcdn.net/v/t51/1_n.jpg?stp=dst-jpg_e35_s720x720";
    let big = "https://x.fbcdn.net/v/t51/1_n.jpg?stp=dst-jpg_e35_s1440x1440";
    assert!(size_score(big) > size_score(small));
    // An untagged URL is the untouched original and must outrank every
    // resized copy — getting this backwards silently downloads a smaller
    // image while the full-size one sits beside it in the same ladder.
    let original = "https://x.fbcdn.net/v/t51/1_n.jpg";
    assert!(size_score(original) > size_score(big));
}

#[test]
fn extracts_asset_ids() {
    assert_eq!(
        asset_of("https://i.fbcdn.net/v/t51.82787-15/123456789_18614027074005908_1.jpg"),
        Some("123456789".to_string())
    );
    assert_eq!(asset_of("https://i.fbcdn.net/v/t51/no-asset-here.jpg"), None);
}

/// The number of posts in a description, figure times magnitude, rounded.
fn count_from_og(desc: &str) -> Option<u64> {
    let (figure, times) = count_parts(desc)?;
    let n: f64 = figure.parse().ok()?;
    Some((n * times as f64).round() as u64)
}

#[test]
fn counts_posts_from_og_description() {
    assert_eq!(
        count_from_og("686M Followers, 286 Following, 8,579 Posts - See Instagram photos"),
        Some(8579)
    );
    assert_eq!(
        count_from_og("12 Followers, 3 Following, 1 Post - x"),
        Some(1)
    );
    assert_eq!(count_from_og("1.2K Posts"), Some(1200));
    assert_eq!(count_from_og("0 Posts"), Some(0));
    assert_eq!(count_from_og("nothing to see here"), None);
}

#[test]
fn every_pattern_compiles() {
    for p in ALL {
        assert!(regex::Regex::new(p.regex()).is_ok(), "{}", p.regex());
    }
}

#[test]
fn shortcode_pattern() {
    let find = |s| Pattern::Shortcode.capture_first(s);
    assert_eq!(find("/p/a/reel/b").as_deref(), Some("a"));
    assert_eq!(find("/p/.x/tv/-_").as_deref(), Some("-_"));
    assert_eq!(find("/reels/abc"), None);
    assert_eq!(find("p/abc"), None);
    let all = Pattern::Shortcode.capture("x/reel/Ab9/").unwrap();
    assert_eq!(all, vec![Some("/reel/Ab9".to_string()), Some("Ab9".to_string())]);
}

#[test]
fn asset_pattern() {
    assert_eq!(asset_of("/12345678_"), Some("12345678".to_string()));
    assert_eq!(asset_of("/1234567_"), None);
    assert_eq!(asset_of("/12345678"), None);
    assert_eq!(asset_of("/12345678x/123456789_n"), Some("123456789".to_string()));
    // Digits of other scripts are digits here.
    let arabic = "\u{661}".repeat(8);
    assert_eq!(asset_of(&format!("/{arabic}_")), Some(arabic));
}

#[test]
fn size_pattern() {
    let tag = |s: &str| size_tag(s).map(|(w, h)| format!("{w},{h}"));
    assert_eq!(tag("s640x480").as_deref(), Some("640,480"));
    assert_eq!(tag("p1080x1350&x").as_deref(), Some("1080,1350"));
    // Of five digits behind the x, four are taken.
    assert_eq!(tag("s640x12345").as_deref(), Some("640,1234"));
    assert_eq!(tag("s12345x640"), None);
    assert_eq!(tag("s64x640"), None);
    assert_eq!(tag("s640x64"), None);
    assert_eq!(tag("x640x640"), None);
    assert_eq!(tag("s64x640 p640x640").as_deref(), Some("640,640"));
}

#[test]
fn ranks_are_areas() {
    assert_eq!(size_score("s1080x1350"), 1_458_000);
    assert_eq!(size_score("p9999x9999"), 99_980_001);
    assert_eq!(size_score("no tag"), u64::MAX);
    assert_eq!(size_score("s000x000"), 0);
    // Digits that are no ASCII digits denote no number.
    assert_eq!(size_score(&format!("s{}x640", "\u{661}".repeat(3))), 0);
}

#[test]
fn app_link_and_key_patterns() {
    let link = |s| Pattern::AppLink.capture_first(s);
    assert_eq!(link("instagram://media?id=0123456789a").as_deref(), Some("0123456789"));
    assert_eq!(link("instagram://media?id=012345678"), None);
    assert_eq!(link("instagram://mediaid=0123456789"), None);
    let key = |s| Pattern::MediaIdKey.capture_first(s);
    assert_eq!(key("\"media_id\"\t:\n\"1234567890\"").as_deref(), Some("1234567890"));
    assert_eq!(key("\"media_id\":1234567890").as_deref(), Some("1234567890"));
    assert_eq!(key("\"media_id\":\"\"1234567890"), None);
    assert_eq!(key("\"media_id\":\" 1234567890"), None);
    assert_eq!(key("\"media_id\" 1234567890"), None);
    let pk = |s| Pattern::PkKey.capture_first(s);
    assert_eq!(pk("\"pk\":\"123456789012345\"").as_deref(), Some("123456789012345"));
    assert_eq!(pk("\"pk\":\"12345678901234\""), None);
    assert_eq!(pk("\"xpk\":\"123456789012345\""), None);
}

#[test]
fn og_description_pattern() {
    let find = |s| Pattern::OgDescription.capture_first(s);
    assert_eq!(
        find("<meta property=\"og:description\" content=\"1 Post\" />").as_deref(),
        Some("1 Post")
    );
    assert_eq!(
        find("<meta \n property=\"og:description\"\t content=\"\"").as_deref(),
        Some("")
    );
    assert_eq!(find("<meta property=\"og:description\" content=\"open"), None);
    assert_eq!(find("<metaproperty=\"og:description\" content=\"x\""), None);
    assert_eq!(find("<meta property=\"og:title\" content=\"x\""), None);
}

#[test]
fn post_count_pattern() {
    let parts = |s: &str| count_parts(s).map(|(f, t)| format!("{f}*{t}"));
    assert_eq!(parts("8,579 Posts").as_deref(), Some("8579*1"));
    assert_eq!(parts("1.2K posts").as_deref(), Some("1.2*1000"));
    assert_eq!(parts("3 m post").as_deref(), Some("3*1000000"));
    assert_eq!(parts("12k  Post, 1 Post").as_deref(), Some("12*1000"));
    assert_eq!(parts("1 Poster 2 Posts").as_deref(), Some("2*1"));
    assert_eq!(parts("1 Postss"), None);
    assert_eq!(parts("1Posts"), None);
    assert_eq!(parts("1KPosts"), None);
    assert_eq!(parts(",1 Post").as_deref(), Some("1*1"));
    assert_eq!(parts("1 Post\u{e9}"), None);
    assert_eq!(parts("1 Post\u{2014}").as_deref(), Some("1*1"));
}

#[test]
fn descriptions_need_a_page() {
    let page = "<meta property=\"og:description\" content=\"2 Followers, 1.5M Posts - x\">";
    let desc = profile_description(200, page).unwrap();
    assert_eq!(desc, "2 Followers, 1.5M Posts - x");
    assert_eq!(count_parts(&desc), Some(("1.5".to_string(), 1_000_000)));
    assert_eq!(profile_description(404, page), None);
    assert_eq!(profile_description(200, "2 Posts"), None);
}

#[test]
fn cdn_url_pattern() {
    let all = |s| Pattern::CdnUrl.find_all(s);
    assert_eq!(
        all("a \"https://x.fbcdn.net/v/t51/1?a=b&c\" https://y.fbcdn.net/v/t51z\\n"),
        vec!["https://x.fbcdn.net/v/t51/1?a=b&c", "https://y.fbcdn.net/v/t51z"]
    );
    // At least one character on either side of the host and path.
    assert!(all("https://fbcdn.net/v/t51x").is_empty());
    assert!(all("https://x.fbcdn.net/v/t51").is_empty());
    assert!(all("https://x.fbcdn.net/v/t50/1").is_empty());
    assert!(all("http://x.fbcdn.net/v/t51/1").is_empty());
    // A URL runs up to the next quote, backslash or white space, so one that
    // starts inside another is part of it.
    assert_eq!(
        all("https://a/https://x.fbcdn.net/v/t51/1"),
        vec!["https://a/https://x.fbcdn.net/v/t51/1"]
    );
}

#[test]
fn escapes_are_undone_in_order() {
    assert_eq!(
        unescape(r#"{\"u\":\"https:\/\/x\u0025y&amp;z\"}"#),
        r#"{"u":"https://x%y&z"}"#
    );
    assert_eq!(unescape("&amp;amp;"), "&amp;");
    assert_eq!(unescape(""), "");
}

#[test]
fn best_rung_of_each_ladder_is_kept() {
    let page = "\"https://x.fbcdn.net/v/t51/11111111_a.jpg?stp=s640x640\" \
                \"https://x.fbcdn.net/v/t51/11111111_b.jpg\" \
                \"https://x.fbcdn.net/v/t51/11111111_c.jpg?stp=s1440x1440\" \
                \"https://x.fbcdn.net/v/t51/22222222_d.jpg?stp=s640x640\" \
                \"https://x.fbcdn.net/v/t51/22222222_e.jpg?stp=p640x640\" \
                \"https://x.fbcdn.net/v/t51/22222222_f.jpg?stp=p320x320\" \
                \"https://x.fbcdn.net/v/t51/none.jpg\"";
    let best = assets_from_doc(page);
    assert_eq!(best.len(), 2);
    assert_eq!(
        look_up(&best, "11111111").as_deref(),
        Some("https://x.fbcdn.net/v/t51/11111111_b.jpg")
    );
    // Of two that rank the same, the later one is kept.
    assert_eq!(
        look_up(&best, "22222222").as_deref(),
        Some("https://x.fbcdn.net/v/t51/22222222_e.jpg?stp=p640x640")
    );
    assert_eq!(look_up(&best, "33333333"), None);
}

#[test]
fn escaped_pages_read_back() {
    let url = "https://x.fbcdn.net/v/t51/11111111_n.jpg?a=1%2F&b=\"q\"";
    let page: String = url
        .chars()
        .map(|c| match c {
            '%' => "\\u0025".to_string(),
            '/' => "\\/".to_string(),
            '"' => "\\\"".to_string(),
            '&' => "&amp;".to_string(),
            c => c.to_string(),
        })
        .collect();
    assert_ne!(page, url);
    assert_eq!(unescape(&page), url);
}
