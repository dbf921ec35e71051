//! Each pattern against a plain account of what it matches, on all short texts
//! over the pieces that matter to it.
use instagrab::pattern::Pattern;
use regex::Regex;

type Groups = Vec<Option<String>>;

fn run_end(s: &[char], i: usize, p: &dyn Fn(char) -> bool) -> usize {
    let mut i = i;
    while i < s.len() && p(s[i]) {
        i += 1;
    }
    i
}

fn occurs_at(s: &[char], t: &str, i: usize) -> bool {
    let t: Vec<char> = t.chars().collect();
    i + t.len() <= s.len() && s[i..i + t.len()] == t[..]
}

fn text(s: &[char]) -> Option<String> {
    Some(s.iter().collect())
}

fn digit(c: char) -> bool {
    c.is_ascii_digit() || c == '\u{661}'
}

fn word(c: char) -> bool {
    c.is_ascii_alphanumeric() || c == '_' || c == '\u{661}' || c == '\u{e9}'
}

fn space(c: char) -> bool {
    c.is_whitespace()
}

fn code_char(c: char) -> bool {
    c.is_ascii_alphanumeric() || c == '_' || c == '-'
}

fn url_char(c: char) -> bool {
    c != '"' && c != '\\' && !c.is_whitespace()
}

fn key_at(s: &[char], i: usize, key: &str, least: usize) -> Option<(usize, Groups)> {
    if !occurs_at(s, key, i) {
        return None;
    }
    let a = run_end(s, i + key.chars().count(), &space);
    if a >= s.len() || s[a] != ':' {
        return None;
    }
    let b = run_end(s, a + 1, &space);
    let c = if b < s.len() && s[b] == '"' { b + 1 } else { b };
    let e = run_end(s, c, &digit);
    (e - c >= least).then(|| (e, vec![text(&s[c..e])]))
}

fn match_at(p: Pattern, s: &[char], i: usize) -> Option<(usize, Groups)> {
    match p {
        Pattern::Shortcode => {
            let n = if occurs_at(s, "/p/", i) {
                3
            } else if occurs_at(s, "/reel/", i) {
                6
            } else if occurs_at(s, "/tv/", i) {
                4
            } else {
                return None;
            };
            let b = i + n;
            let e = run_end(s, b, &code_char);
            (e > b).then(|| (e, vec![text(&s[b..e])]))
        }
        Pattern::Asset => {
            let e = run_end(s, i + 1, &digit);
            (s[i] == '/' && e - (i + 1) >= 8 && e < s.len() && s[e] == '_')
                .then(|| (e + 1, vec![text(&s[i + 1..e])]))
        }
        Pattern::Size => {
            let e = run_end(s, i + 1, &digit);
            if !(s[i] == 's' || s[i] == 'p') || e - (i + 1) < 3 || e - (i + 1) > 4 {
                return None;
            }
            if e >= s.len() || s[e] != 'x' {
                return None;
            }
            let g = run_end(s, e + 1, &digit).min(e + 5);
            (g - (e + 1) >= 3).then(|| (g, vec![text(&s[i + 1..e]), text(&s[e + 1..g])]))
        }
        Pattern::AppLink => {
            let key = "instagram://media?id=";
            if !occurs_at(s, key, i) {
                return None;
            }
            let b = i + key.len();
            let e = run_end(s, b, &digit);
            (e - b >= 10).then(|| (e, vec![text(&s[b..e])]))
        }
        Pattern::MediaIdKey => key_at(s, i, "\"media_id\"", 10),
        Pattern::PkKey => key_at(s, i, "\"pk\"", 15),
        Pattern::OgDescription => {
            if !occurs_at(s, "<meta", i) {
                return None;
            }
            let a = run_end(s, i + 5, &space);
            let property = "property=\"og:description\"";
            if a == i + 5 || !occurs_at(s, property, a) {
                return None;
            }
            let b = a + property.len();
            let c = run_end(s, b, &space);
            if c == b || !occurs_at(s, "content=\"", c) {
                return None;
            }
            let d = c + 9;
            let e = run_end(s, d, &|c| c != '"');
            (e < s.len()).then(|| (e + 1, vec![text(&s[d..e])]))
        }
        Pattern::PostCount => {
            if !digit(s[i]) {
                return None;
            }
            let a = run_end(s, i + 1, &|c| digit(c) || c == ',' || c == '.');
            let b = run_end(s, a, &space);
            let marked = b < s.len() && matches!(s[b], 'K' | 'k' | 'M' | 'm');
            let q = if marked { run_end(s, b + 1, &space) } else { b };
            let spaced = if marked { q > b + 1 } else { b > a };
            if !spaced || q >= s.len() || !matches!(s[q], 'P' | 'p') || !occurs_at(s, "ost", q + 1) {
                return None;
            }
            let r = if q + 4 < s.len() && s[q + 4] == 's' { q + 5 } else { q + 4 };
            let mark = if marked { text(&s[b..b + 1]) } else { None };
            (r == s.len() || !word(s[r])).then(|| (r, vec![text(&s[i..a]), mark]))
        }
        Pattern::CdnUrl => {
            if !occurs_at(s, "https://", i) {
                return None;
            }
            let e = run_end(s, i, &url_char);
            (i + 9..s.len())
                .any(|j| j + 15 < e && occurs_at(s, "fbcdn.net/v/t51", j))
                .then(|| (e, vec![]))
        }
    }
}

fn leftmost(p: Pattern, s: &[char], from: usize) -> Option<(usize, usize, Groups)> {
    (from..s.len()).find_map(|i| match_at(p, s, i).map(|(e, g)| (i, e, g)))
}

/// Holds a pattern to `match_at` on all texts of up to `most` of the pieces.
fn agree(p: Pattern, pieces: &[&str], most: usize) {
    let re = Regex::new(p.regex()).unwrap();
    let mut texts: Vec<String> = vec![String::new()];
    let mut from = 0;
    for _ in 0..most {
        let to = texts.len();
        for k in from..to {
            for piece in pieces {
                let t = format!("{}{piece}", texts[k]);
                texts.push(t);
            }
        }
        from = to;
    }
    let mut hits = 0;
    for t in &texts {
        let chars: Vec<char> = t.chars().collect();
        let found: Option<Groups> = re
            .captures(t)
            .map(|c| c.iter().map(|m| m.map(|m| m.as_str().to_string())).collect());
        let told = leftmost(p, &chars, 0).map(|(i, e, g)| {
            let mut all = vec![text(&chars[i..e])];
            all.extend(g);
            all
        });
        hits += found.is_some() as usize;
        assert_eq!(found, told, "{t:?}");
        let found: Vec<String> = re.find_iter(t).map(|m| m.as_str().to_string()).collect();
        let mut told = Vec::new();
        let mut at = 0;
        while let Some((i, e, _)) = leftmost(p, &chars, at) {
            told.push(chars[i..e].iter().collect::<String>());
            at = e;
        }
        assert_eq!(found, told, "{t:?}");
    }
    assert!(hits > 0, "nothing matched at all");
}

#[test]
fn shortcode_matches_as_told() {
    agree(Pattern::Shortcode, &["/", "p", "reel", "tv", "_", ".", "\u{e9}"], 6);
}

#[test]
fn asset_matches_as_told() {
    agree(Pattern::Asset, &["/", "1", "2345678", "_", "\u{661}", "a"], 6);
}

#[test]
fn size_matches_as_told() {
    agree(Pattern::Size, &["s", "p", "x", "1", "234", "\u{661}"], 7);
}

#[test]
fn app_link_matches_as_told() {
    agree(
        Pattern::AppLink,
        &["instagram://media?id=", "instagram://mediaid=", "123456789", "0", "\u{661}", "a"],
        5,
    );
}

#[test]
fn media_id_key_matches_as_told() {
    agree(
        Pattern::MediaIdKey,
        &["\"media_id\"", ":", " ", "\u{3000}", "\"", "123456789", "0"],
        6,
    );
}

#[test]
fn pk_key_matches_as_told() {
    agree(Pattern::PkKey, &["\"pk\"", "\"", ":", "\n", "12345678901234", "5"], 6);
}

#[test]
fn og_description_matches_as_told() {
    agree(
        Pattern::OgDescription,
        &["<meta", " ", "\u{a0}", "property=\"og:description\"", "content=\"", "\"", "x"],
        6,
    );
}

#[test]
fn post_count_matches_as_told() {
    agree(
        Pattern::PostCount,
        &["1", ",", ".", " ", "K", "m", "Post", "post", "s", "\u{e9}", "\u{661}"],
        5,
    );
}

#[test]
fn cdn_url_matches_as_told() {
    agree(
        Pattern::CdnUrl,
        &["https://", "fbcdn.net/v/t51", "a", "\"", " ", "\\", "/"],
        6,
    );
}

#[test]
fn classes_are_the_unicode_ones() {
    let one = |p: &str| Regex::new(&format!("^{p}$")).unwrap();
    let (d, w, s) = (one(r"\d"), one(r"\w"), one(r"\s"));
    for c in '\0'..=char::MAX {
        let t = c.to_string();
        if c.is_ascii() {
            assert_eq!(d.is_match(&t), c.is_ascii_digit());
            assert_eq!(w.is_match(&t), c.is_ascii_alphanumeric() || c == '_');
        }
        assert_eq!(s.is_match(&t), c.is_whitespace(), "{c:?}");
    }
    assert!(d.is_match("\u{661}") && w.is_match("\u{e9}") && !d.is_match("\u{e9}"));
}
