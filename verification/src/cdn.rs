//! CDN URLs: the asset they belong to, how large the copy is, and the best one
//! of each asset that a page quotes.
use crate::number;
use crate::number::parse_u64;
use crate::pattern;
use crate::pattern::Pattern;
use crate::text;
use crate::text::{chars_of, replace_text, same_text, whole_string};
use vstd::prelude::*;

verus! {

/// The number that names the asset in a CDN URL.
pub open spec fn asset_id(url: Seq<char>) -> Option<Seq<char>> {
    Pattern::Asset.first_group(url)
}

/// The number that `s` denotes, 0 where it denotes none up to `max`.
pub open spec fn number_or_zero(s: Seq<char>, max: nat) -> nat {
    match number::unsigned_value(s, max) {
        Some(n) => n,
        None => 0,
    }
}

/// The rank of a CDN URL within the ladder of one asset: the area of the
/// bounding box in it, or the highest rank there is where it has none.
pub open spec fn size_rank(url: Seq<char>) -> nat {
    match Pattern::Size.leftmost(url, 0) {
        Some((i, m)) => number_or_zero(m.groups[0]->0, u64::MAX as nat) * number_or_zero(
            m.groups[1]->0,
            u64::MAX as nat,
        ),
        None => u64::MAX as nat,
    }
}

/// The best of the URLs for one asset: the one of the highest rank, and the
/// last of those where there are several.
pub open spec fn best_url(urls: Seq<Seq<char>>, asset: Seq<char>) -> Option<Seq<char>>
    decreases urls.len(),
{
    if urls.len() == 0 {
        None
    } else {
        let best = best_url(urls.drop_last(), asset);
        let url = urls.last();
        if asset_id(url) == Some(asset) && (best is None || size_rank(url) >= size_rank(
            best->0,
        )) {
            Some(url)
        } else {
            best
        }
    }
}

/// The text inside a page's `script` blocks, with its escapes undone: those of
/// the percent sign, of slashes and of quotes, and the entity of the ampersand,
/// in this order.
pub open spec fn unescaped(body: Seq<char>) -> Seq<char> {
    text::replaced(
        text::replaced(
            text::replaced(text::replaced(body, "\\u0025"@, "%"@), "\\/"@, "/"@),
            "\\\""@,
            "\""@,
        ),
        "&amp;"@,
        "&"@,
    )
}

/// The URL that stands for an asset among pairs of asset and URL.
pub open spec fn looked_up(pairs: Seq<(String, String)>, asset: Seq<char>) -> Option<Seq<char>>
    decreases pairs.len(),
{
    if pairs.len() == 0 {
        None
    } else if pairs.last().0@ == asset {
        Some(pairs.last().1@)
    } else {
        looked_up(pairs.drop_last(), asset)
    }
}

/// Whether no asset stands in the pairs twice.
pub open spec fn assets_distinct(pairs: Seq<(String, String)>) -> bool {
    forall|i: int, j: int|
        0 <= i < j < pairs.len() ==> (#[trigger] pairs[i]).0@ != (#[trigger] pairs[j]).0@
}

/// The number that names the asset in a CDN URL.
pub fn asset_of(url: &str) -> (r: Option<String>)
    ensures
        text::opt_text(r) == asset_id(url@),
{
    Pattern::Asset.capture_first(url)
}

/// The groups of a bounding box are two, of three or four characters each.
proof fn lemma_size_groups(s: Seq<char>)
    ensures
        Pattern::Size.leftmost(s, 0) matches Some((i, m)) ==> {
            &&& m.groups.len() == 2
            &&& m.groups[0] is Some && 3 <= m.groups[0]->0.len() <= 4
            &&& m.groups[1] is Some && 3 <= m.groups[1]->0.len() <= 4
        },
{
    Pattern::Size.lemma_leftmost(s, 0);
    if let Some((i, m)) = Pattern::Size.leftmost(s, 0) {
        let e = text::run_end(s, i + 1, pattern::digits());
        text::lemma_run_end(s, i + 1, pattern::digits());
        text::lemma_run_end(s, e + 1, pattern::digits());
    }
}

/// Up to four characters denote a number below ten thousand.
proof fn lemma_small_number(s: Seq<char>, max: nat)
    requires
        s.len() <= 4,
    ensures
        number_or_zero(s, max) < 10_000,
{
    let digits = if s.len() > 1 && s[0] == '+' {
        s.subrange(1, s.len() as int)
    } else {
        s
    };
    if number::all_digits(digits) {
        number::lemma_value_bound(digits, 4);
        reveal_with_fuel(vstd::arithmetic::power::pow, 5);
        assert(vstd::arithmetic::power::pow(10, 4) == 10_000);
    }
}

/// The rank of a resized copy is an area that no bounding box exceeds.
pub proof fn lemma_rank_bound(url: Seq<char>)
    ensures
        Pattern::Size.leftmost(url, 0) is Some ==> size_rank(url) < 100_000_000,
        size_rank(url) <= u64::MAX,
{
    lemma_size_groups(url);
    if let Some((i, m)) = Pattern::Size.leftmost(url, 0) {
        let w = number_or_zero(m.groups[0]->0, u64::MAX as nat);
        let h = number_or_zero(m.groups[1]->0, u64::MAX as nat);
        lemma_small_number(m.groups[0]->0, u64::MAX as nat);
        lemma_small_number(m.groups[1]->0, u64::MAX as nat);
        assert(w * h < 100_000_000) by (nonlinear_arith)
            requires
                0 <= w < 10_000,
                0 <= h < 10_000,
        ;
    }
}

/// The number that a string denotes, 0 where it denotes none.
fn number_in(s: &str) -> (r: u64)
    ensures
        r == number_or_zero(s@, u64::MAX as nat),
{
    match parse_u64(s) {
        Some(n) => n,
        None => 0,
    }
}

/// The bounding box in the URL of a resized copy, as width and height in
/// characters.
pub fn size_tag(url: &str) -> (r: Option<(String, String)>)
    ensures
        match (r, Pattern::Size.leftmost(url@, 0)) {
            (Some((w, h)), Some((i, m))) => m.groups == seq![Some(w@), Some(h@)],
            (None, None) => true,
            _ => false,
        },
{
    let caught = Pattern::Size.capture(url);
    let ghost all = pattern::captured(caught);
    proof {
        lemma_size_groups(url@);
        if let Some((i, m)) = Pattern::Size.leftmost(url@, 0) {
            assert(all->0[1] == m.groups[0]);
            assert(all->0[2] == m.groups[1]);
        }
    }
    match caught {
        Some(groups) => {
            assert(all->0 == groups@.map_values(|o: Option<String>| text::opt_text(o)));
            assert(all->0.len() == groups@.len());
            match (&groups[1], &groups[2]) {
                (Some(w), Some(h)) => {
                    let r = (w.clone(), h.clone());
                    proof {
                        let (i, m) = Pattern::Size.leftmost(url@, 0)->0;
                        assert(m.groups == seq![Some(r.0@), Some(r.1@)]);
                    }
                    Some(r)
                },
                _ => None,
            }
        },
        None => None,
    }
}

/// Ranks a CDN URL within the ladder of one asset.
///
/// Resized copies are tagged with a bounding box (`s1080x1080`) and the original
/// is left untagged. So an absent tag means "original", which must rank highest:
/// ranking it lowest, the obvious reading, silently selects a downscaled copy
/// over the full-size image right next to it.
pub fn size_score(url: &str) -> (r: u64)
    ensures
        r == size_rank(url@),
{
    proof {
        lemma_rank_bound(url@);
    }
    match size_tag(url) {
        Some((w, h)) => {
            let w = number_in(w.as_str());
            let h = number_in(h.as_str());
            w * h
        },
        None => u64::MAX,
    }
}

/// The text inside a page's `script` blocks, with its escapes undone.
pub fn unescape(body: &str) -> (r: String)
    ensures
        r@ == unescaped(body@),
{
    proof {
        reveal_strlit("\\u0025");
        reveal_strlit("\\/");
        reveal_strlit("\\\"");
        reveal_strlit("&amp;");
    }
    let s = chars_of(body);
    let s = replace_text(&s, "\\u0025", "%");
    let s = replace_text(&s, "\\/", "/");
    let s = replace_text(&s, "\\\"", "\"");
    let s = replace_text(&s, "&amp;", "&");
    whole_string(&s)
}

/// The index of an asset among pairs of asset and URL.
fn position(pairs: &Vec<(String, String)>, asset: &str) -> (r: Option<usize>)
    ensures
        match r {
            Some(i) => i < pairs@.len() && pairs@[i as int].0@ == asset@,
            None => forall|i: int| 0 <= i < pairs@.len() ==> (#[trigger] pairs@[i]).0@ != asset@,
        },
{
    let mut i: usize = 0;
    while i < pairs.len()
        invariant
            0 <= i <= pairs@.len(),
            forall|k: int| 0 <= k < i ==> (#[trigger] pairs@[k]).0@ != asset@,
        decreases pairs@.len() - i,
    {
        if same_text(pairs[i].0.as_str(), asset) {
            return Some(i);
        }
        i = i + 1;
    }
    None
}

/// A pair that is there is found.
proof fn lemma_looked_up(pairs: Seq<(String, String)>, i: int)
    requires
        0 <= i < pairs.len(),
        assets_distinct(pairs),
    ensures
        looked_up(pairs, pairs[i].0@) == Some(pairs[i].1@),
    decreases pairs.len(),
{
    if i < pairs.len() - 1 {
        assert(pairs.last().0@ != pairs[i].0@);
        assert(pairs.drop_last()[i] == pairs[i]);
        lemma_looked_up(pairs.drop_last(), i);
    }
}

/// A pair that is not there is not found.
proof fn lemma_not_looked_up(pairs: Seq<(String, String)>, asset: Seq<char>)
    requires
        forall|i: int| 0 <= i < pairs.len() ==> (#[trigger] pairs[i]).0@ != asset,
    ensures
        looked_up(pairs, asset) is None,
    decreases pairs.len(),
{
    if pairs.len() > 0 {
        assert(pairs[pairs.len() - 1].0@ != asset);
        assert forall|i: int| 0 <= i < pairs.len() - 1 implies (#[trigger] pairs.drop_last()[i]).0@
            != asset by {
            assert(pairs[i].0@ != asset);
        }
        lemma_not_looked_up(pairs.drop_last(), asset);
    }
}

/// Replacing the URL of one asset leaves the others.
proof fn lemma_looked_up_update(
    pairs: Seq<(String, String)>,
    i: int,
    pair: (String, String),
    asset: Seq<char>,
)
    requires
        0 <= i < pairs.len(),
        assets_distinct(pairs),
        pair.0@ == pairs[i].0@,
    ensures
        assets_distinct(pairs.update(i, pair)),
        looked_up(pairs.update(i, pair), asset) == (if asset == pair.0@ {
            Some(pair.1@)
        } else {
            looked_up(pairs, asset)
        }),
    decreases pairs.len(),
{
    let next = pairs.update(i, pair);
    assert forall|a: int, b: int| 0 <= a < b < next.len() implies (#[trigger] next[a]).0@ != (
    #[trigger] next[b]).0@ by {
        assert(pairs[a].0@ != pairs[b].0@);
    }
    if asset == pair.0@ {
        assert(next[i] == pair);
        lemma_looked_up(next, i);
    } else if i < pairs.len() - 1 {
        let front = pairs.drop_last();
        assert forall|a: int, b: int| 0 <= a < b < front.len() implies (#[trigger] front[a]).0@ != (
        #[trigger] front[b]).0@ by {
            assert(pairs[a].0@ != pairs[b].0@);
        }
        lemma_looked_up_update(front, i, pair, asset);
        assert(next.drop_last() == front.update(i, pair));
        assert(next.last() == pairs.last());
    } else {
        assert(next.drop_last() == pairs.drop_last());
    }
}

/// The best URL of each asset that an unescaped page quotes, as pairs of asset
/// and URL.
pub fn assets_from_doc(un: &str) -> (r: Vec<(String, String)>)
    ensures
        assets_distinct(r@),
        forall|asset: Seq<char>|
            looked_up(r@, asset) == #[trigger] best_url(Pattern::CdnUrl.matches(un@), asset),
{
    let urls = Pattern::CdnUrl.find_all(un);
    let ghost all = text::texts(urls@);
    let mut best: Vec<(String, String)> = Vec::new();
    let mut i: usize = 0;
    while i < urls.len()
        invariant
            all == text::texts(urls@),
            0 <= i <= urls@.len(),
            assets_distinct(best@),
            forall|asset: Seq<char>|
                looked_up(best@, asset) == #[trigger] best_url(all.subrange(0, i as int), asset),
        decreases urls@.len() - i,
    {
        let url = &urls[i];
        let ghost seen = all.subrange(0, i as int);
        let ghost next = all.subrange(0, i + 1);
        let ghost before = best@;
        proof {
            assert(next.drop_last() == seen);
            assert(next.last() == url@);
        }
        if let Some(asset) = asset_of(url.as_str()) {
            match position(&best, asset.as_str()) {
                Some(at) => {
                    proof {
                        lemma_looked_up(before, at as int);
                        assert(best_url(seen, asset@) == Some(before[at as int].1@));
                    }
                    if size_score(url.as_str()) >= size_score(best[at].1.as_str()) {
                        let pair = (asset, url.clone());
                        proof {
                            assert forall|a: Seq<char>|
                                looked_up(before.update(at as int, pair), a) == #[trigger] best_url(
                                next,
                                a,
                            ) by {
                                lemma_looked_up_update(before, at as int, pair, a);
                                assert(looked_up(before, a) == best_url(seen, a));
                            }
                            lemma_looked_up_update(before, at as int, pair, pair.0@);
                        }
                        best.set(at, pair);
                    } else {
                        proof {
                            assert forall|a: Seq<char>|
                                looked_up(best@, a) == #[trigger] best_url(next, a) by {
                                assert(looked_up(before, a) == best_url(seen, a));
                            }
                        }
                    }
                },
                None => {
                    let pair = (asset, url.clone());
                    best.push(pair);
                    proof {
                        assert(best@.drop_last() == before);
                        assert forall|a: Seq<char>|
                            looked_up(best@, a) == #[trigger] best_url(next, a) by {
                            assert(looked_up(before, a) == best_url(seen, a));
                            if a == pair.0@ {
                                lemma_not_looked_up(before, a);
                            }
                        }
                    }
                },
            }
        } else {
            proof {
                assert forall|a: Seq<char>| looked_up(best@, a) == #[trigger] best_url(next, a) by {
                    assert(looked_up(before, a) == best_url(seen, a));
                }
            }
        }
        i = i + 1;
    }
    assert(all.subrange(0, all.len() as int) == all);
    best
}

/// The URL of an asset among pairs of asset and URL.
pub fn look_up(pairs: &Vec<(String, String)>, asset: &str) -> (r: Option<String>)
    requires
        assets_distinct(pairs@),
    ensures
        text::opt_text(r) == looked_up(pairs@, asset@),
{
    match position(pairs, asset) {
        Some(i) => {
            proof {
                lemma_looked_up(pairs@, i as int);
            }
            Some(pairs[i].1.clone())
        },
        None => {
            proof {
                lemma_not_looked_up(pairs@, asset@);
            }
            None
        },
    }
}

/// An untagged URL is the original and outranks every resized copy.
pub proof fn law_original_outranks_copies(original: Seq<char>, copy: Seq<char>)
    requires
        Pattern::Size.leftmost(original, 0) is None,
        Pattern::Size.leftmost(copy, 0) is Some,
    ensures
        size_rank(original) > size_rank(copy),
{
    lemma_rank_bound(copy);
}

/// Only an untagged URL has the highest rank.
pub proof fn law_highest_rank_is_untagged(url: Seq<char>)
    ensures
        size_rank(url) == u64::MAX <==> Pattern::Size.leftmost(url, 0) is None,
{
    lemma_rank_bound(url);
}

/// A number of three or four digits in decimal notation has that many
/// characters.
pub proof fn lemma_three_or_four_digits(n: nat)
    requires
        100 <= n <= 9999,
    ensures
        3 <= number::decimal(n).len() <= 4,
        number::all_digits(number::decimal(n)),
        number_or_zero(number::decimal(n), u64::MAX as nat) == n,
{
    reveal_with_fuel(number::decimal, 5);
    number::lemma_decimal_digits(n);
    number::law_decimal_reads_back(n);
    assert(number::ascii_digit(number::decimal(n)[0]));
}

/// A CDN URL with a bounding box of `width` by `height` in it.
pub open spec fn tagged_url(
    before: Seq<char>,
    letter: char,
    width: Seq<char>,
    height: Seq<char>,
    after: Seq<char>,
) -> Seq<char> {
    before + seq![letter] + width + seq!['x'] + height + after
}

/// The bounding box is what matches where its letter stands.
pub proof fn lemma_tag_matches(
    before: Seq<char>,
    letter: char,
    w: Seq<char>,
    h: Seq<char>,
    after: Seq<char>,
)
    requires
        letter == 's' || letter == 'p',
        3 <= w.len() <= 4,
        3 <= h.len() <= 4,
        number::all_digits(w),
        number::all_digits(h),
        after.len() == 0 || !pattern::digit(after[0]),
    ensures
        pattern::size_at(tagged_url(before, letter, w, h, after), before.len() as int) matches Some(
            m,
        ) && m.groups == seq![Some(w), Some(h)],
{
    let s = tagged_url(before, letter, w, h, after);
    let i = before.len() as int;
    let e = i + 1 + w.len();
    let g = e + 1 + h.len();
    assert(s[i] == letter);
    assert forall|k: int| i + 1 <= k < e implies pattern::digits()(#[trigger] s[k]) by {
        assert(s[k] == w[k - (i + 1)]);
    }
    assert(s[e] == 'x');
    text::lemma_run_end_unique(s, i + 1, e, pattern::digits());
    assert forall|k: int| e + 1 <= k < g implies pattern::digits()(#[trigger] s[k]) by {
        assert(s[k] == h[k - (e + 1)]);
    }
    assert(after.len() > 0 ==> s[g] == after[0]);
    text::lemma_run_end_unique(s, e + 1, g, pattern::digits());
    assert(s.subrange(i + 1, e) == w);
    assert(s.subrange(e + 1, g) == h);
}

/// A copy whose bounding box is `width` by `height` ranks by that area; so of
/// two copies the one with the larger box ranks higher.
pub proof fn law_copies_rank_by_area(
    before: Seq<char>,
    letter: char,
    width: nat,
    height: nat,
    after: Seq<char>,
)
    requires
        letter == 's' || letter == 'p',
        100 <= width <= 9999,
        100 <= height <= 9999,
        after.len() == 0 || !pattern::digit(after[0]),
        forall|k: int|
            0 <= k < before.len() ==> (#[trigger] pattern::size_at(
                tagged_url(before, letter, number::decimal(width), number::decimal(height), after),
                k,
            )) is None,
    ensures
        size_rank(
            tagged_url(before, letter, number::decimal(width), number::decimal(height), after),
        ) == width * height,
{
    let w = number::decimal(width);
    let h = number::decimal(height);
    let s = tagged_url(before, letter, w, h, after);
    lemma_three_or_four_digits(width);
    lemma_three_or_four_digits(height);
    lemma_tag_matches(before, letter, w, h, after);
    assert forall|k: int| 0 <= k < before.len() implies (#[trigger] Pattern::Size.match_at(
        s,
        k,
    )) is None by {
        assert(pattern::size_at(s, k) is None);
    }
    Pattern::Size.lemma_leftmost_unique(s, 0, before.len() as int);
}

/// The URL kept for an asset is one of the URLs that were seen for it, none of
/// them ranks higher, and those behind it rank lower.
pub proof fn law_best_url_is_best(urls: Seq<Seq<char>>, asset: Seq<char>)
    ensures
        match best_url(urls, asset) {
            Some(best) => exists|i: int|
                #![trigger urls[i]]
                0 <= i < urls.len() && urls[i] == best && asset_id(best) == Some(asset) && (
                forall|j: int|
                    0 <= j < urls.len() && asset_id(#[trigger] urls[j]) == Some(asset) ==> size_rank(
                        urls[j],
                    ) <= size_rank(best) && (j > i ==> size_rank(urls[j]) < size_rank(best))),
            None => forall|j: int|
                0 <= j < urls.len() ==> asset_id(#[trigger] urls[j]) != Some(asset),
        },
    decreases urls.len(),
{
    if urls.len() > 0 {
        let front = urls.drop_last();
        let last = urls.len() - 1;
        law_best_url_is_best(front, asset);
        assert(forall|j: int| 0 <= j < last ==> front[j] == #[trigger] urls[j]);
        match best_url(front, asset) {
            Some(best) => {
                let i = choose|i: int|
                    #![trigger front[i]]
                    0 <= i < front.len() && front[i] == best && asset_id(best) == Some(asset) && (
                    forall|j: int|
                        0 <= j < front.len() && asset_id(#[trigger] front[j]) == Some(asset)
                            ==> size_rank(front[j]) <= size_rank(best) && (j > i ==> size_rank(
                            front[j],
                        ) < size_rank(best)));
                if best_url(urls, asset) == Some(urls.last()) && asset_id(urls.last()) == Some(
                    asset,
                ) && size_rank(urls.last()) >= size_rank(best) {
                    assert(urls[last] == urls.last());
                } else {
                    assert(urls[i] == best);
                }
            },
            None => {
                if asset_id(urls.last()) == Some(asset) {
                    assert(urls[last] == urls.last());
                }
            },
        }
    }
}

/// A URL that stands in a page by itself, that is, not behind another character
/// of a URL, is seen when the page is searched.
pub proof fn law_quoted_urls_are_seen(page: Seq<char>, a: int)
    requires
        pattern::cdn_url_at(page, a) is Some,
        a > 0 ==> !pattern::url_char(page[a - 1]),
    ensures
        Pattern::CdnUrl.matches(page).contains(
            page.subrange(a, pattern::cdn_url_at(page, a)->0.end),
        ),
{
    lemma_url_seen_from(page, a, 0);
}

/// A search that starts before a URL that stands by itself comes to it.
proof fn lemma_url_seen_from(page: Seq<char>, a: int, i: int)
    requires
        0 <= i <= a,
        pattern::cdn_url_at(page, a) is Some,
        a > 0 ==> !pattern::url_char(page[a - 1]),
    ensures
        Pattern::CdnUrl.matches_from(page, i).contains(
            page.subrange(a, pattern::cdn_url_at(page, a)->0.end),
        ),
    decreases a - i,
{
    reveal_strlit("https://");
    let p = Pattern::CdnUrl;
    let sought = page.subrange(a, pattern::cdn_url_at(page, a)->0.end);
    assert(p.match_at(page, a) is Some);
    p.lemma_leftmost(page, i);
    let (k, m) = p.leftmost(page, i)->0;
    assert(k <= a);
    text::lemma_run_end(page, k, pattern::url_chars());
    let here = page.subrange(k, m.end);
    let rest = p.matches_from(page, m.end);
    assert(p.matches_from(page, i) == seq![here] + rest);
    if k == a {
        assert((seq![here] + rest)[0] == sought);
    } else {
        if m.end >= a {
            assert(pattern::url_chars()(page[a - 1]));
        }
        lemma_url_seen_from(page, a, m.end);
        let j = choose|j: int| 0 <= j < rest.len() && rest[j] == sought;
        assert((seq![here] + rest)[j + 1] == sought);
    }
}

/// A character as it may stand inside a page's `script` blocks.
pub open spec fn script_escape(c: char) -> Seq<char> {
    if c == '%' {
        "\\u0025"@
    } else if c == '/' {
        "\\/"@
    } else if c == '"' {
        "\\\""@
    } else if c == '&' {
        "&amp;"@
    } else {
        seq![c]
    }
}

/// Text with each character written out by `form`.
pub open spec fn written(s: Seq<char>, form: spec_fn(char) -> Seq<char>) -> Seq<char>
    decreases s.len(),
{
    if s.len() == 0 {
        Seq::empty()
    } else {
        form(s[0]) + written(s.subrange(1, s.len() as int), form)
    }
}

/// Text as it may stand inside a page's `script` blocks.
pub open spec fn script_text(s: Seq<char>) -> Seq<char> {
    written(s, |c: char| script_escape(c))
}

/// Whether replacing `from` by `to` turns one way of writing a character into
/// another: it is replaced as a whole, or left as a whole, since the first
/// character of `from` starts it at most, and then another character follows.
spec fn turns_into(before: Seq<char>, after: Seq<char>, from: Seq<char>, to: Seq<char>) -> bool {
    ||| before == from && after == to
    ||| {
        &&& before == after
        &&& before.len() > 0
        &&& forall|k: int| 1 <= k < before.len() ==> #[trigger] before[k] != from[0]
        &&& before[0] == from[0] ==> before.len() >= 2 && before[1] != from[1]
    }
}

/// Replacing what each character is written as replaces the writing of the text.
proof fn lemma_replaced_writing(
    s: Seq<char>,
    before: spec_fn(char) -> Seq<char>,
    after: spec_fn(char) -> Seq<char>,
    from: Seq<char>,
    to: Seq<char>,
)
    requires
        from.len() >= 2,
        forall|k: int|
            0 <= k < s.len() ==> turns_into(
                before(#[trigger] s[k]),
                after(s[k]),
                from,
                to,
            ),
    ensures
        text::replaced(written(s, before), from, to) == written(s, after),
    decreases s.len(),
{
    if s.len() > 0 {
        let rest = s.subrange(1, s.len() as int);
        assert forall|k: int| 0 <= k < rest.len() implies turns_into(
            before(#[trigger] rest[k]),
            after(rest[k]),
            from,
            to,
        ) by {
            assert(rest[k] == s[k + 1]);
        }
        lemma_replaced_writing(rest, before, after, from, to);
        let head = before(s[0]);
        let tail = written(rest, before);
        let all = head + tail;
        assert(turns_into(head, after(s[0]), from, to));
        if head == from && after(s[0]) == to {
            assert(all.subrange(0, from.len() as int) == from);
            assert(text::occurs_at(all, from, 0));
            text::lemma_replaced_skip(head, tail, from, to, 0);
        } else {
            assert forall|k: int| 0 <= k < head.len() implies !#[trigger] text::occurs_at(
                all,
                from,
                k,
            ) by {
                if text::occurs_at(all, from, k) {
                    let at = all.subrange(k, k + from.len());
                    assert(at[0] == head[k]);
                    assert(at[1] == all[k + 1]);
                }
            }
            text::lemma_replaced_copy(head, tail, from, to, 0);
            assert(head.subrange(0, head.len() as int) == head);
        }
    }
}

/// Text written out as itself is itself.
proof fn lemma_written_plain(s: Seq<char>, form: spec_fn(char) -> Seq<char>)
    requires
        forall|k: int| 0 <= k < s.len() ==> form(#[trigger] s[k]) == seq![s[k]],
    ensures
        written(s, form) == s,
    decreases s.len(),
{
    if s.len() > 0 {
        let rest = s.subrange(1, s.len() as int);
        assert forall|k: int| 0 <= k < rest.len() implies form(#[trigger] rest[k]) == seq![
            rest[k],
        ] by {
            assert(rest[k] == s[k + 1]);
        }
        lemma_written_plain(rest, form);
        assert(form(s[0]) == seq![s[0]]);
        assert(seq![s[0]] + rest == s);
    }
}

/// Text without backslashes, written into a `script` block, comes out of it as it
/// was.
pub proof fn law_unescaping_undoes_escapes(s: Seq<char>)
    requires
        forall|k: int| 0 <= k < s.len() ==> #[trigger] s[k] != '\\',
    ensures
        unescaped(script_text(s)) == s,
{
    reveal_strlit("\\u0025");
    reveal_strlit("\\/");
    reveal_strlit("\\\"");
    reveal_strlit("&amp;");
    reveal_strlit("%");
    reveal_strlit("/");
    reveal_strlit("\"");
    reveal_strlit("&");
    let all = |c: char| script_escape(c);
    let no_percent = |c: char|
        if c == '%' {
            "%"@
        } else {
            script_escape(c)
        };
    let no_slash = |c: char|
        if c == '/' {
            "/"@
        } else {
            no_percent(c)
        };
    let no_quote = |c: char|
        if c == '"' {
            "\""@
        } else {
            no_slash(c)
        };
    let plain = |c: char|
        if c == '&' {
            "&"@
        } else {
            no_quote(c)
        };
    lemma_replaced_writing(s, all, no_percent, "\\u0025"@, "%"@);
    lemma_replaced_writing(s, no_percent, no_slash, "\\/"@, "/"@);
    lemma_replaced_writing(s, no_slash, no_quote, "\\\""@, "\""@);
    lemma_replaced_writing(s, no_quote, plain, "&amp;"@, "&"@);
    assert forall|k: int| 0 <= k < s.len() implies plain(#[trigger] s[k]) == seq![s[k]] by {
        assert("%"@ == seq!['%']);
        assert("/"@ == seq!['/']);
        assert("\""@ == seq!['"']);
        assert("&"@ == seq!['&']);
    }
    lemma_written_plain(s, plain);
}

/// The asset of a URL is the number of eight digits or more between a slash and an
/// underscore, the first one that there is.
pub proof fn law_asset_is_the_first_long_number(
    before: Seq<char>,
    digits: Seq<char>,
    after: Seq<char>,
)
    requires
        digits.len() >= 8,
        number::all_digits(digits),
        forall|k: int|
            0 <= k < before.len() ==> (#[trigger] pattern::asset_at(
                before + "/"@ + digits + "_"@ + after,
                k,
            )) is None,
    ensures
        asset_id(before + "/"@ + digits + "_"@ + after) == Some(digits),
{
    reveal_strlit("/");
    reveal_strlit("_");
    let s = before + "/"@ + digits + "_"@ + after;
    let i = before.len() as int;
    let e = i + 1 + digits.len();
    assert(s[i] == '/');
    assert forall|k: int| i + 1 <= k < e implies pattern::digits()(#[trigger] s[k]) by {
        assert(s[k] == digits[k - (i + 1)]);
    }
    assert(s[e] == '_');
    text::lemma_run_end_unique(s, i + 1, e, pattern::digits());
    assert(s.subrange(i + 1, e) == digits);
    assert forall|k: int| 0 <= k < i implies (#[trigger] Pattern::Asset.match_at(s, k)) is None by {
        assert(pattern::asset_at(s, k) is None);
    }
    Pattern::Asset.lemma_leftmost_unique(s, 0, i);
}

/// Only four things are undone in a page: a text that holds none of the escapes of
/// the percent sign, the slash and the quote, nor the entity of the ampersand, stays
/// as it is, whatever other escapes it holds.
pub proof fn law_other_escapes_are_left(body: Seq<char>)
    requires
        !text::contains(body, "\\u0025"@),
        !text::contains(body, "\\/"@),
        !text::contains(body, "\\\""@),
        !text::contains(body, "&amp;"@),
    ensures
        unescaped(body) == body,
{
    reveal_strlit("\\u0025");
    reveal_strlit("\\/");
    reveal_strlit("\\\"");
    reveal_strlit("&amp;");
    text::law_replace_leaves_the_rest(body, "\\u0025"@, "%"@);
    text::law_replace_leaves_the_rest(body, "\\/"@, "/"@);
    text::law_replace_leaves_the_rest(body, "\\\""@, "\""@);
    text::law_replace_leaves_the_rest(body, "&amp;"@, "&"@);
}

} // verus!
