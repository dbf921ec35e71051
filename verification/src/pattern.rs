//! The patterns that text is searched for, and what a match of each one is.
//!
//! Matching itself is done by the `regex` crate. This module says, for each
//! pattern in use, where its leftmost match lies and what its groups capture.
use crate::number;
use crate::text;
use vstd::prelude::*;

verus! {

pub const SHORTCODE: &'static str = "/(?:p|reel|tv)/([A-Za-z0-9_-]+)";

pub const ASSET: &'static str = "/(\\d{8,})_";

pub const SIZE: &'static str = "[sp](\\d{3,4})x(\\d{3,4})";

pub const APP_LINK: &'static str = "instagram://media\\?id=(\\d{10,})";

pub const MEDIA_ID_KEY: &'static str = "\"media_id\"\\s*:\\s*\"?(\\d{10,})";

pub const PK_KEY: &'static str = "\"pk\"\\s*:\\s*\"?(\\d{15,})";

pub const OG_DESCRIPTION: &'static str =
    "<meta\\s+property=\"og:description\"\\s+content=\"([^\"]*)\"";

pub const POST_COUNT: &'static str = "([\\d][\\d,\\.]*)\\s*([KkMm])?\\s+[Pp]osts?\\b";

pub const CDN_URL: &'static str = "https://[^\"\\s\\\\]+?fbcdn\\.net/v/t51[^\"\\s\\\\]+";

/// A pattern that this library searches for.
#[derive(Clone, Copy)]
pub enum Pattern {
    /// The code in the path of a post, reel or tv URL.
    Shortcode,
    /// The number that names an asset in a CDN URL.
    Asset,
    /// The bounding box in the URL of a resized copy.
    Size,
    /// The media id in a page's link into the app.
    AppLink,
    /// The media id behind the key `media_id`.
    MediaIdKey,
    /// The media id behind the key `pk`.
    PkKey,
    /// The content of a page's `og:description`.
    OgDescription,
    /// The number of posts in a profile's description.
    PostCount,
    /// The URL of an image on the CDN.
    CdnUrl,
}

/// What the first match of a pattern in a text captures: the whole match, then
/// each group, `None` for a group that takes no part in it. `None` as a whole
/// where nothing matches, or where the pattern is no regular expression.
pub uninterp spec fn regex_captures(pattern: Seq<char>, text: Seq<char>) -> Option<
    Seq<Option<Seq<char>>>,
>;

/// All matches of a pattern in a text, from the left and without overlap.
pub uninterp spec fn regex_matches(pattern: Seq<char>, text: Seq<char>) -> Seq<Seq<char>>;

/// Whether `\d` matches `c`: the ASCII digits, and what Unicode adds to them.
pub open spec fn digit(c: char) -> bool {
    number::ascii_digit(c) || (c as int >= 128 && regex_captures("\\d"@, seq![c]) is Some)
}

/// Whether `\w` matches `c`: ASCII letters, digits and the underscore, and what
/// Unicode adds to them.
pub open spec fn word(c: char) -> bool {
    text::ascii_alphanumeric(c) || c == '_' || (c as int >= 128 && regex_captures(
        "\\w"@,
        seq![c],
    ) is Some)
}

/// Whether `c` may stand in a URL that a page quotes.
pub open spec fn url_char(c: char) -> bool {
    c != '"' && c != '\\' && !text::white_space(c)
}

pub open spec fn digits() -> spec_fn(char) -> bool {
    |c: char| digit(c)
}

pub open spec fn figures() -> spec_fn(char) -> bool {
    |c: char| digit(c) || c == ',' || c == '.'
}

pub open spec fn codes() -> spec_fn(char) -> bool {
    |c: char| text::code_char(c)
}

pub open spec fn spaces() -> spec_fn(char) -> bool {
    |c: char| text::white_space(c)
}

pub open spec fn url_chars() -> spec_fn(char) -> bool {
    |c: char| url_char(c)
}

pub open spec fn not_quotes() -> spec_fn(char) -> bool {
    |c: char| c != '"'
}

/// A match of a pattern: where it ends, and what its groups capture.
pub struct Match {
    pub end: int,
    pub groups: Seq<Option<Seq<char>>>,
}

/// The length of the path marker at index `i`, 0 where there is none.
pub open spec fn marker_len(s: Seq<char>, i: int) -> int {
    if text::occurs_at(s, "/p/"@, i) {
        3
    } else if text::occurs_at(s, "/reel/"@, i) {
        6
    } else if text::occurs_at(s, "/tv/"@, i) {
        4
    } else {
        0
    }
}

/// A marker, and as many code characters as there are behind it.
pub open spec fn shortcode_at(s: Seq<char>, i: int) -> Option<Match> {
    let b = i + marker_len(s, i);
    if i < b < s.len() && text::code_char(s[b]) {
        let e = text::run_end(s, b, codes());
        Some(Match { end: e, groups: seq![Some(s.subrange(b, e))] })
    } else {
        None
    }
}

/// A slash, eight digits or more, an underscore.
pub open spec fn asset_at(s: Seq<char>, i: int) -> Option<Match> {
    let e = text::run_end(s, i + 1, digits());
    if 0 <= i < s.len() && s[i] == '/' && e - (i + 1) >= 8 && e < s.len() && s[e] == '_' {
        Some(Match { end: e + 1, groups: seq![Some(s.subrange(i + 1, e))] })
    } else {
        None
    }
}

/// An `s` or a `p`, three or four digits, an `x`, and three or four digits; of
/// the last digits as many as there are, up to four.
pub open spec fn size_at(s: Seq<char>, i: int) -> Option<Match> {
    let e = text::run_end(s, i + 1, digits());
    let f = text::run_end(s, e + 1, digits());
    let g = if f > e + 5 {
        e + 5
    } else {
        f
    };
    if 0 <= i < s.len() && (s[i] == 's' || s[i] == 'p') && 3 <= e - (i + 1) <= 4 && e < s.len()
        && s[e] == 'x' && g - (e + 1) >= 3 {
        Some(
            Match {
                end: g,
                groups: seq![Some(s.subrange(i + 1, e)), Some(s.subrange(e + 1, g))],
            },
        )
    } else {
        None
    }
}

/// The start of a link into the app, and ten digits or more.
pub open spec fn app_link_at(s: Seq<char>, i: int) -> Option<Match> {
    let b = i + "instagram://media?id="@.len();
    let e = text::run_end(s, b, digits());
    if text::occurs_at(s, "instagram://media?id="@, i) && e - b >= 10 {
        Some(Match { end: e, groups: seq![Some(s.subrange(b, e))] })
    } else {
        None
    }
}

/// A quoted key, a colon with white space around it or not, a quote or not, and
/// at least `least` digits.
pub open spec fn key_at(s: Seq<char>, i: int, key: Seq<char>, least: int) -> Option<Match> {
    let a = text::run_end(s, i + key.len(), spaces());
    let b = text::run_end(s, a + 1, spaces());
    let c = if b < s.len() && s[b] == '"' {
        b + 1
    } else {
        b
    };
    let e = text::run_end(s, c, digits());
    if text::occurs_at(s, key, i) && a < s.len() && s[a] == ':' && e - c >= least {
        Some(Match { end: e, groups: seq![Some(s.subrange(c, e))] })
    } else {
        None
    }
}

/// A `meta` tag of the property `og:description`, up to the quote behind its
/// content.
pub open spec fn og_description_at(s: Seq<char>, i: int) -> Option<Match> {
    let a = text::run_end(s, i + "<meta"@.len(), spaces());
    let b = a + "property=\"og:description\""@.len();
    let c = text::run_end(s, b, spaces());
    let d = c + "content=\""@.len();
    let e = text::run_end(s, d, not_quotes());
    if text::occurs_at(s, "<meta"@, i) && a > i + "<meta"@.len() && text::occurs_at(
        s,
        "property=\"og:description\""@,
        a,
    ) && c > b && text::occurs_at(s, "content=\""@, c) && e < s.len() {
        Some(Match { end: e + 1, groups: seq![Some(s.subrange(d, e))] })
    } else {
        None
    }
}

/// Whether `c` stands for a thousand or a million.
pub open spec fn magnitude_char(c: char) -> bool {
    c == 'K' || c == 'k' || c == 'M' || c == 'm'
}

/// A figure that starts with a digit, then a magnitude or not, then white
/// space, then `post` or `posts`, at the end of a word.
pub open spec fn post_count_at(s: Seq<char>, i: int) -> Option<Match> {
    let a = text::run_end(s, i + 1, figures());
    let b = text::run_end(s, a, spaces());
    let marked = b < s.len() && magnitude_char(s[b]);
    let q = if marked {
        text::run_end(s, b + 1, spaces())
    } else {
        b
    };
    let spaced = if marked {
        q > b + 1
    } else {
        b > a
    };
    let r = if q + 4 < s.len() && s[q + 4] == 's' {
        q + 5
    } else {
        q + 4
    };
    if 0 <= i < s.len() && digit(s[i]) && spaced && q < s.len() && (s[q] == 'P' || s[q] == 'p')
        && text::occurs_at(s, "ost"@, q + 1) && (r == s.len() || !word(s[r])) {
        Some(
            Match {
                end: r,
                groups: seq![
                    Some(s.subrange(i, a)),
                    if marked {
                        Some(seq![s[b]])
                    } else {
                        None
                    },
                ],
            },
        )
    } else {
        None
    }
}

/// `https://`, and the URL characters up to the next one that is none, if
/// `fbcdn.net/v/t51` stands among them with at least one on either side.
pub open spec fn cdn_url_at(s: Seq<char>, i: int) -> Option<Match> {
    let e = text::run_end(s, i, url_chars());
    if text::occurs_at(s, "https://"@, i) && exists|j: int|
        i + 9 <= j && j + 15 < e && #[trigger] text::occurs_at(s, "fbcdn.net/v/t51"@, j) {
        Some(Match { end: e, groups: seq![] })
    } else {
        None
    }
}

impl Pattern {
    /// The pattern in the notation of the `regex` crate.
    pub open spec fn source(self) -> Seq<char> {
        match self {
            Pattern::Shortcode => SHORTCODE@,
            Pattern::Asset => ASSET@,
            Pattern::Size => SIZE@,
            Pattern::AppLink => APP_LINK@,
            Pattern::MediaIdKey => MEDIA_ID_KEY@,
            Pattern::PkKey => PK_KEY@,
            Pattern::OgDescription => OG_DESCRIPTION@,
            Pattern::PostCount => POST_COUNT@,
            Pattern::CdnUrl => CDN_URL@,
        }
    }

    /// The match of the pattern that starts at index `i`.
    pub open spec fn match_at(self, s: Seq<char>, i: int) -> Option<Match> {
        match self {
            Pattern::Shortcode => shortcode_at(s, i),
            Pattern::Asset => asset_at(s, i),
            Pattern::Size => size_at(s, i),
            Pattern::AppLink => app_link_at(s, i),
            Pattern::MediaIdKey => key_at(s, i, "\"media_id\""@, 10),
            Pattern::PkKey => key_at(s, i, "\"pk\""@, 15),
            Pattern::OgDescription => og_description_at(s, i),
            Pattern::PostCount => post_count_at(s, i),
            Pattern::CdnUrl => cdn_url_at(s, i),
        }
    }

    /// Start and match of the leftmost match at or after index `i`.
    pub open spec fn leftmost(self, s: Seq<char>, i: int) -> Option<(int, Match)>
        decreases s.len() - i,
    {
        if i < 0 || i >= s.len() {
            None
        } else {
            match self.match_at(s, i) {
                Some(m) => Some((i, m)),
                None => self.leftmost(s, i + 1),
            }
        }
    }

    /// What the leftmost match captures: the whole match, then each group.
    pub open spec fn captures(self, s: Seq<char>) -> Option<Seq<Option<Seq<char>>>> {
        match self.leftmost(s, 0) {
            Some((i, m)) => Some(seq![Some(s.subrange(i, m.end))] + m.groups),
            None => None,
        }
    }

    /// What the first group of the leftmost match captures.
    pub open spec fn first_group(self, s: Seq<char>) -> Option<Seq<char>> {
        match self.leftmost(s, 0) {
            Some((i, m)) => m.groups[0],
            None => None,
        }
    }

    /// All matches from index `i` on, each one searched for behind the last.
    pub open spec fn matches_from(self, s: Seq<char>, i: int) -> Seq<Seq<char>>
        decreases s.len() - i,
    {
        match self.leftmost(s, i) {
            Some((k, m)) => if i < m.end <= s.len() {
                seq![s.subrange(k, m.end)] + self.matches_from(s, m.end)
            } else {
                Seq::empty()
            },
            None => Seq::empty(),
        }
    }

    /// All matches, from the left and without overlap.
    pub open spec fn matches(self, s: Seq<char>) -> Seq<Seq<char>> {
        self.matches_from(s, 0)
    }
}

/// Captured groups as character sequences.
pub open spec fn captured(r: Option<Vec<Option<String>>>) -> Option<Seq<Option<Seq<char>>>> {
    match r {
        Some(v) => Some(v@.map_values(|o: Option<String>| text::opt_text(o))),
        None => None,
    }
}

/// `regex::Regex::new` and `captures`: the groups of the first match, which
/// depend on the pattern and the text alone. For the patterns of this library
/// it also says where that match lies, as the syntax and the leftmost-first
/// rule that the crate documents give it: `\d`, `\s` and `\w` are the Unicode
/// classes, repetition takes as much as it can unless a `?` follows it, and of
/// all matches the one that starts first is taken.
#[verifier::external_body]
fn regex_first(pattern: &str, text: &str) -> (r: Option<Vec<Option<String>>>)
    ensures
        captured(r) == regex_captures(pattern@, text@),
        forall|p: Pattern| pattern@ == #[trigger] p.source() ==> captured(r) == p.captures(text@),
{
    match regex::Regex::new(pattern) {
        Ok(re) => re.captures(text).map(
            |c| c.iter().map(|m| m.map(|m| m.as_str().to_string())).collect(),
        ),
        Err(_) => None,
    }
}

/// `regex::Regex::new` and `find_iter`: all matches, which depend on the
/// pattern and the text alone. The crate documents them as successive and not
/// overlapping; for the patterns of this library that is `Pattern::matches`.
/// A pattern that does not compile has none.
#[verifier::external_body]
fn regex_all(pattern: &str, text: &str) -> (r: Vec<String>)
    ensures
        text::texts(r@) == regex_matches(pattern@, text@),
        forall|p: Pattern|
            pattern@ == #[trigger] p.source() ==> text::texts(r@) == p.matches(text@),
{
    match regex::Regex::new(pattern) {
        Ok(re) => re.find_iter(text).map(|m| m.as_str().to_string()).collect(),
        Err(_) => Vec::new(),
    }
}

impl Pattern {
    /// The pattern in the notation of the `regex` crate.
    pub fn regex(&self) -> (r: &'static str)
        ensures
            r@ == self.source(),
    {
        match *self {
            Pattern::Shortcode => SHORTCODE,
            Pattern::Asset => ASSET,
            Pattern::Size => SIZE,
            Pattern::AppLink => APP_LINK,
            Pattern::MediaIdKey => MEDIA_ID_KEY,
            Pattern::PkKey => PK_KEY,
            Pattern::OgDescription => OG_DESCRIPTION,
            Pattern::PostCount => POST_COUNT,
            Pattern::CdnUrl => CDN_URL,
        }
    }

    /// What the leftmost match captures: the whole match, then each group.
    pub fn capture(&self, text: &str) -> (r: Option<Vec<Option<String>>>)
        ensures
            captured(r) == self.captures(text@),
    {
        regex_first(self.regex(), text)
    }

    /// All matches, from the left and without overlap.
    pub fn find_all(&self, text: &str) -> (r: Vec<String>)
        ensures
            text::texts(r@) == self.matches(text@),
    {
        regex_all(self.regex(), text)
    }

    /// What the first group of the leftmost match captures.
    pub fn capture_first(&self, text: &str) -> (r: Option<String>)
        requires
            !(self is CdnUrl),
        ensures
            text::opt_text(r) == self.first_group(text@),
    {
        let caught = self.capture(text);
        let ghost all = captured(caught);
        proof {
            self.lemma_leftmost(text@, 0);
            if let Some((k, m)) = self.leftmost(text@, 0) {
                assert(m.groups.len() >= 1);
                assert(all->0[1] == m.groups[0]);
            }
        }
        match caught {
            Some(groups) => {
                assert(all->0 == groups@.map_values(|o: Option<String>| text::opt_text(o)));
                assert(all->0.len() == groups@.len());
                clone_text(&groups[1])
            },
            None => None,
        }
    }

    /// The leftmost match is a match, and none starts before it.
    pub proof fn lemma_leftmost(self, s: Seq<char>, i: int)
        requires
            0 <= i,
        ensures
            self.leftmost(s, i) matches Some((k, m)) ==> {
                &&& i <= k < s.len()
                &&& self.match_at(s, k) == Some(m)
                &&& forall|h: int| i <= h < k ==> (#[trigger] self.match_at(s, h)) is None
            },
            self.leftmost(s, i) is None ==> forall|h: int|
                i <= h < s.len() ==> (#[trigger] self.match_at(s, h)) is None,
        decreases s.len() - i,
    {
        if i < s.len() && self.match_at(s, i) is None {
            self.lemma_leftmost(s, i + 1);
        }
    }

    /// A match before which none starts is the leftmost match.
    pub proof fn lemma_leftmost_unique(self, s: Seq<char>, i: int, k: int)
        requires
            0 <= i <= k < s.len(),
            self.match_at(s, k) is Some,
            forall|h: int| i <= h < k ==> (#[trigger] self.match_at(s, h)) is None,
        ensures
            self.leftmost(s, i) == Some((k, self.match_at(s, k)->0)),
        decreases k - i,
    {
        if i < k {
            assert(self.match_at(s, i) is None);
            self.lemma_leftmost_unique(s, i + 1, k);
        }
    }
}

/// A copy of an optional string.
fn clone_text(o: &Option<String>) -> (r: Option<String>)
    ensures
        text::opt_text(r) == text::opt_text(*o),
{
    match o {
        Some(s) => Some(s.clone()),
        None => None,
    }
}

} // verus!
