//! One post: its media at the best resolution on offer, and the text that is
//! saved beside them.
//!
//! Structure comes from the media reply: carousel layout, caption, videos.
//! Resolution comes from the post's page, which quotes the full-size stills. The
//! two are matched on the number of the asset that stands in every CDN URL.
use crate::calendar;
use crate::calendar::iso_utc;
use crate::cdn;
use crate::cdn::{asset_of, assets_from_doc, look_up, size_tag};
use crate::error::{Error, Failure};
use crate::json;
use crate::json::{array_at, i64_at, text_at, Json, JsonView};
use crate::number;
use crate::number::{parse_u32, to_decimal};
use crate::pattern;
use crate::pattern::Pattern;
use crate::shortcode;
use crate::text;
use crate::text::{owned, push_text, same_text};
use crate::timeline;
use vstd::prelude::*;

verus! {

/// One photo or video of a post.
#[derive(Debug)]
pub struct MediaItem {
    /// The place in the carousel, from 1 on.
    pub index: usize,
    /// `photo` or `video`.
    pub kind: String,
    pub width: u32,
    pub height: u32,
    /// The best still: the original of a photo, the cover frame of a video.
    pub image_url: String,
    pub video_url: Option<String>,
    /// A small preview to pick items by.
    pub thumb_url: String,
    pub asset: String,
    /// The size of the file, where the CDN has told it.
    pub bytes: u64,
}

/// A post with its media.
#[derive(Debug)]
pub struct Post {
    pub shortcode: String,
    pub owner: String,
    pub caption: String,
    pub taken_at: i64,
    pub items: Vec<MediaItem>,
}

/// One photo or video of a post, over character sequences.
pub struct MediaItemView {
    pub index: nat,
    pub kind: Seq<char>,
    pub width: u32,
    pub height: u32,
    pub image_url: Seq<char>,
    pub video_url: Option<Seq<char>>,
    pub thumb_url: Seq<char>,
    pub asset: Seq<char>,
    pub bytes: u64,
}

/// A post with its media, over character sequences.
pub struct PostView {
    pub shortcode: Seq<char>,
    pub owner: Seq<char>,
    pub caption: Seq<char>,
    pub taken_at: i64,
    pub items: Seq<MediaItemView>,
}

impl View for MediaItem {
    type V = MediaItemView;

    open spec fn view(&self) -> MediaItemView {
        MediaItemView {
            index: self.index as nat,
            kind: self.kind@,
            width: self.width,
            height: self.height,
            image_url: self.image_url@,
            video_url: text::opt_text(self.video_url),
            thumb_url: self.thumb_url@,
            asset: self.asset@,
            bytes: self.bytes,
        }
    }
}

/// The items of a vector as views.
pub open spec fn item_views(v: Seq<MediaItem>) -> Seq<MediaItemView> {
    v.map_values(|i: MediaItem| i@)
}

impl View for Post {
    type V = PostView;

    open spec fn view(&self) -> PostView {
        PostView {
            shortcode: self.shortcode@,
            owner: self.owner@,
            caption: self.caption@,
            taken_at: self.taken_at,
            items: item_views(self.items@),
        }
    }
}

/// The URL of the first still on offer, which is the largest that the reply
/// has; empty where there is none.
pub open spec fn first_still_url(media: JsonView) -> Seq<char> {
    let all = timeline::candidates(media);
    if all.len() > 0 {
        all[0].field("url"@).text_or_empty()
    } else {
        Seq::empty()
    }
}

/// The URL of the preview: that of the last still on offer, or that of the first
/// where the last one has none.
pub open spec fn preview_url(media: JsonView) -> Seq<char> {
    let all = timeline::candidates(media);
    if all.len() > 0 {
        match all.last().field("url"@).as_text() {
            Some(url) => url,
            None => first_still_url(media),
        }
    } else {
        first_still_url(media)
    }
}

/// The area of a video version.
pub open spec fn video_area(version: JsonView) -> nat {
    (version.field("width"@).u64_or_zero() * version.field("height"@).u64_or_zero()) as nat
}

/// The version of the largest area, and the last of those where there are
/// several.
pub open spec fn largest_video(versions: Seq<JsonView>) -> Option<JsonView>
    decreases versions.len(),
{
    if versions.len() == 0 {
        None
    } else {
        match largest_video(versions.drop_last()) {
            Some(best) => if video_area(versions.last()) >= video_area(best) {
                Some(versions.last())
            } else {
                Some(best)
            },
            None => Some(versions.last()),
        }
    }
}

/// The URL of the largest video on offer, if there is one.
pub open spec fn best_video_url(media: JsonView) -> Option<Seq<char>> {
    match largest_video(media.field("video_versions"@).items()) {
        Some(version) => version.field("url"@).as_text(),
        None => None,
    }
}

/// The low 32 bits of a number.
pub open spec fn low_u32(n: u64) -> u32 {
    (n % 0x1_0000_0000) as u32
}

/// The bounding box in a CDN URL, 0 by 0 where it has none.
pub open spec fn box_size(url: Seq<char>) -> (u32, u32) {
    match Pattern::Size.leftmost(url, 0) {
        Some((i, m)) => (
            cdn::number_or_zero(m.groups[0]->0, u32::MAX as nat) as u32,
            cdn::number_or_zero(m.groups[1]->0, u32::MAX as nat) as u32,
        ),
        None => (0, 0),
    }
}

/// The dimensions that an item is labelled with: those that the reply gives for
/// the original, or else the bounding box in the URL of the still.
pub open spec fn labelled_size(media: JsonView, image_url: Seq<char>) -> (u32, u32) {
    let w = low_u32(media.field("original_width"@).u64_or_zero());
    let h = low_u32(media.field("original_height"@).u64_or_zero());
    if w > 0 && h > 0 {
        (w, h)
    } else {
        box_size(image_url)
    }
}

/// The item of a media object. `best` gives the best URL of each asset that the
/// page quotes; an asset that it does not quote keeps the URL of the reply. A
/// media object whose still belongs to no asset is no item.
pub open spec fn media_item(
    media: JsonView,
    index: nat,
    best: spec_fn(Seq<char>) -> Option<Seq<char>>,
) -> Option<MediaItemView> {
    let first = first_still_url(media);
    match cdn::asset_id(first) {
        None => None,
        Some(asset) => {
            let image_url = match best(asset) {
                Some(url) => url,
                None => first,
            };
            let video_url = best_video_url(media);
            let (width, height) = labelled_size(media, image_url);
            Some(
                MediaItemView {
                    index,
                    kind: if video_url is Some {
                        "video"@
                    } else {
                        "photo"@
                    },
                    width,
                    height,
                    image_url,
                    video_url,
                    thumb_url: preview_url(media),
                    asset,
                    bytes: 0,
                },
            )
        },
    }
}

/// The items of media objects, numbered from 1 on by their place; one that is no
/// item is left out and keeps its number.
pub open spec fn media_items(
    media: Seq<JsonView>,
    best: spec_fn(Seq<char>) -> Option<Seq<char>>,
) -> Seq<MediaItemView>
    decreases media.len(),
{
    if media.len() == 0 {
        Seq::empty()
    } else {
        match media_item(media.last(), media.len(), best) {
            Some(item) => media_items(media.drop_last(), best).push(item),
            None => media_items(media.drop_last(), best),
        }
    }
}

/// The media objects of a post: those of its carousel, or the post itself.
pub open spec fn post_media(post: JsonView) -> Seq<JsonView> {
    let children = post.field("carousel_media"@).items();
    if children.len() > 0 {
        children
    } else {
        seq![post]
    }
}

/// The best URL of each asset that an unescaped page quotes.
pub open spec fn page_best(page: Seq<char>) -> spec_fn(Seq<char>) -> Option<Seq<char>> {
    |asset: Seq<char>| cdn::best_url(Pattern::CdnUrl.matches(page), asset)
}

/// The post that a media reply describes, with the stills that its page quotes.
pub open spec fn assembled_post(shortcode: Seq<char>, page: Seq<char>, info: JsonView) -> Result<
    PostView,
    Failure<Seq<char>>,
> {
    let found = info.field("items"@).items();
    if found.len() == 0 {
        Err(Failure::PostNotFound)
    } else {
        let post = found[0];
        Ok(
            PostView {
                shortcode,
                owner: match post.field("user"@).field("username"@).as_text() {
                    Some(name) => name,
                    None => "unknown"@,
                },
                caption: post.field("caption"@).field("text"@).text_or_empty(),
                taken_at: post.field("taken_at"@).i64_or(0),
                items: media_items(post_media(post), page_best(page)),
            },
        )
    }
}

/// How many of the items are videos.
pub open spec fn video_count(items: Seq<MediaItemView>) -> nat
    decreases items.len(),
{
    if items.len() == 0 {
        0
    } else if items.last().kind == "video"@ {
        video_count(items.drop_last()) + 1
    } else {
        video_count(items.drop_last())
    }
}

/// The URL of a post.
pub open spec fn post_url(shortcode: Seq<char>) -> Seq<char> {
    "https://www.instagram.com/p/"@ + shortcode + "/"@
}

/// The lines that say what a post holds.
pub open spec fn info_head(post: PostView) -> Seq<char> {
    let n = post.items.len();
    let videos = video_count(post.items);
    post_url(post.shortcode) + "\n\naccount: @"@ + post.owner + "\nposted:  "@ + calendar::utc_text(
        post.taken_at as int,
    ) + "\nitems:   "@ + number::decimal(n) + " ("@ + number::decimal((n - videos) as nat)
        + " photo, "@ + number::decimal(videos) + " video)\n"@
}

/// The text saved beside the media of a post.
pub open spec fn info_text(post: PostView) -> Seq<char> {
    if post.caption.len() == 0 {
        info_head(post)
    } else {
        info_head(post) + "\n---\n\n"@ + post.caption + "\n"@
    }
}

/// A post as it is returned, over views.
pub open spec fn post_view(r: Result<Post, Error>) -> Result<PostView, Failure<Seq<char>>> {
    match r {
        Ok(post) => Ok(post@),
        Err(e) => Err(e@),
    }
}

/// The URL of the first still on offer, empty where there is none.
fn first_still(media: &Json) -> (r: String)
    ensures
        r@ == first_still_url(media@),
{
    match array_at(media.get2("image_versions2", "candidates")) {
        Some(all) => if all.len() > 0 {
            assert(timeline::candidates(media@)[0] == all@[0]@);
            text_at(all[0].get("url"))
        } else {
            String::new()
        },
        None => String::new(),
    }
}

/// The URL of the preview.
fn preview(media: &Json) -> (r: String)
    ensures
        r@ == preview_url(media@),
{
    match array_at(media.get2("image_versions2", "candidates")) {
        Some(all) => if all.len() > 0 {
            let last = &all[all.len() - 1];
            assert(timeline::candidates(media@).last() == last@);
            match last.get("url") {
                Some(Json::Text(url)) => url.clone(),
                _ => first_still(media),
            }
        } else {
            first_still(media)
        },
        None => first_still(media),
    }
}

/// An integer from 0 on behind a key, 0 where there is none.
fn u64_at(j: Option<&Json>) -> (r: u64)
    ensures
        r == json::view_or_null(j).u64_or_zero(),
{
    match j {
        Some(v) => match v.as_u64() {
            Some(n) => n,
            None => 0,
        },
        None => 0,
    }
}

/// The area of a video version.
fn area_of(version: &Json) -> (r: u128)
    ensures
        r == video_area(version@),
{
    let w = u64_at(version.get("width"));
    let h = u64_at(version.get("height"));
    assert(w * h <= u64::MAX * u64::MAX) by (nonlinear_arith)
        requires
            0 <= w <= u64::MAX,
            0 <= h <= u64::MAX,
    ;
    w as u128 * h as u128
}

/// The index of the largest of some video versions.
fn largest_index(versions: &Vec<Json>) -> (r: usize)
    requires
        versions@.len() > 0,
    ensures
        r < versions@.len(),
        largest_video(json::views(versions@)) == Some(versions@[r as int]@),
{
    let ghost all = json::views(versions@);
    let mut best: usize = 0;
    let mut best_area: u128 = area_of(&versions[0]);
    let mut i: usize = 1;
    assert(all.subrange(0, 1).drop_last() == Seq::<JsonView>::empty());
    assert(largest_video(all.subrange(0, 1).drop_last()) is None);
    while i < versions.len()
        invariant
            all == json::views(versions@),
            best < i <= versions@.len(),
            best_area == video_area(versions@[best as int]@),
            largest_video(all.subrange(0, i as int)) == Some(versions@[best as int]@),
        decreases versions@.len() - i,
    {
        proof {
            assert(all.subrange(0, i + 1).drop_last() == all.subrange(0, i as int));
            assert(all.subrange(0, i + 1).last() == versions@[i as int]@);
        }
        let area = area_of(&versions[i]);
        if area >= best_area {
            best = i;
            best_area = area;
        }
        i = i + 1;
    }
    assert(all.subrange(0, all.len() as int) == all);
    best
}

/// The URL of the largest video on offer, if there is one.
fn video_of(media: &Json) -> (r: Option<String>)
    ensures
        text::opt_text(r) == best_video_url(media@),
{
    match array_at(media.get("video_versions")) {
        Some(versions) => if versions.len() > 0 {
            let best = largest_index(versions);
            match versions[best].get("url") {
                Some(Json::Text(url)) => Some(url.clone()),
                _ => None,
            }
        } else {
            None
        },
        None => None,
    }
}

/// The number that a string denotes, 0 where it denotes none.
fn small_number(s: &str) -> (r: u32)
    ensures
        r == cdn::number_or_zero(s@, u32::MAX as nat),
{
    match parse_u32(s) {
        Some(n) => n,
        None => 0,
    }
}

/// The dimensions that an item is labelled with.
///
/// The bounding box in a URL is only the box that the image was fitted into, so
/// a still of 1080 by 1350 can carry `s1080x1080`: good enough to rank by, wrong
/// as a label where the original's dimensions are known.
fn size_of_item(media: &Json, image_url: &str) -> (r: (u32, u32))
    ensures
        r == labelled_size(media@, image_url@),
{
    let w: u32 = (u64_at(media.get("original_width")) % 0x1_0000_0000) as u32;
    let h: u32 = (u64_at(media.get("original_height")) % 0x1_0000_0000) as u32;
    if w > 0 && h > 0 {
        return (w, h);
    }
    match size_tag(image_url) {
        Some((bw, bh)) => {
            proof {
                let (i, m) = Pattern::Size.leftmost(image_url@, 0)->0;
                assert(m.groups[0] == Some(bw@));
                assert(m.groups[1] == Some(bh@));
            }
            (small_number(bw.as_str()), small_number(bh.as_str()))
        },
        None => (0, 0),
    }
}

/// What is found for each asset among pairs of asset and URL.
pub open spec fn found_in(pairs: Seq<(String, String)>) -> spec_fn(Seq<char>) -> Option<Seq<char>> {
    |asset: Seq<char>| cdn::looked_up(pairs, asset)
}

/// The item of a media object.
fn item_of(media: &Json, index: usize, best: &Vec<(String, String)>) -> (r: Option<MediaItem>)
    requires
        cdn::assets_distinct(best@),
    ensures
        match r {
            Some(item) => media_item(media@, index as nat, found_in(best@)) == Some(item@),
            None => media_item(media@, index as nat, found_in(best@)) is None,
        },
{
    let first = first_still(media);
    let asset = match asset_of(first.as_str()) {
        Some(a) => a,
        None => {
            return None;
        },
    };
    let thumb_url = preview(media);
    let image_url = match look_up(best, asset.as_str()) {
        Some(url) => url,
        None => first,
    };
    let video_url = video_of(media);
    let (width, height) = size_of_item(media, image_url.as_str());
    let kind = match &video_url {
        Some(_) => owned("video"),
        None => owned("photo"),
    };
    let item = MediaItem {
        index,
        kind,
        width,
        height,
        image_url,
        video_url,
        thumb_url,
        asset,
        bytes: 0,
    };
    Some(item)
}

/// The items of media objects, numbered by their place.
fn items_of(media: &Vec<Json>, best: &Vec<(String, String)>) -> (r: Vec<MediaItem>)
    requires
        cdn::assets_distinct(best@),
    ensures
        item_views(r@) == media_items(json::views(media@), found_in(best@)),
{
    let ghost all = json::views(media@);
    let mut out: Vec<MediaItem> = Vec::new();
    let mut i: usize = 0;
    while i < media.len()
        invariant
            cdn::assets_distinct(best@),
            all == json::views(media@),
            0 <= i <= media@.len(),
            item_views(out@) == media_items(all.subrange(0, i as int), found_in(best@)),
        decreases media@.len() - i,
    {
        let ghost before = out@;
        proof {
            assert(all.subrange(0, i + 1).drop_last() == all.subrange(0, i as int));
            assert(all.subrange(0, i + 1).last() == media@[i as int]@);
        }
        if let Some(item) = item_of(&media[i], i + 1, best) {
            out.push(item);
            assert(item_views(out@) == item_views(before).push(item@));
        }
        i = i + 1;
    }
    assert(all.subrange(0, all.len() as int) == all);
    out
}

/// The item of a post that is no carousel, if it has one.
fn single_item(post: &Json, best: &Vec<(String, String)>) -> (r: Vec<MediaItem>)
    requires
        cdn::assets_distinct(best@),
    ensures
        item_views(r@) == media_items(seq![post@], found_in(best@)),
{
    let mut out: Vec<MediaItem> = Vec::new();
    proof {
        let one = seq![post@];
        assert(one.drop_last() == Seq::<JsonView>::empty());
        assert(media_items(one.drop_last(), found_in(best@)) == Seq::<MediaItemView>::empty());
        assert(one.last() == post@ && one.len() == 1);
    }
    if let Some(item) = item_of(post, 1, best) {
        out.push(item);
        assert(item_views(out@) == Seq::<MediaItemView>::empty().push(item@));
    } else {
        assert(item_views(out@) == Seq::<MediaItemView>::empty());
    }
    out
}

/// Everything in one post, at the best resolution on offer: `info` is the media
/// reply, and `unescaped` is the post's page with its escapes undone.
pub fn assemble_post(shortcode: &str, unescaped: &str, info: &Json) -> (r: Result<Post, Error>)
    ensures
        post_view(r) == assembled_post(shortcode@, unescaped@, info@),
{
    let found = match array_at(info.get("items")) {
        Some(a) => a,
        None => {
            return Err(Failure::PostNotFound);
        },
    };
    if found.len() == 0 {
        return Err(Failure::PostNotFound);
    }
    let post = &found[0];
    assert(info@.field("items"@).items()[0] == post@);
    let best = assets_from_doc(unescaped);
    assert(found_in(best@) =~= page_best(unescaped@)) by {
        assert forall|asset: Seq<char>| #[trigger]
            found_in(best@)(asset) == page_best(unescaped@)(asset) by {
            assert(cdn::looked_up(best@, asset) == cdn::best_url(
                Pattern::CdnUrl.matches(unescaped@),
                asset,
            ));
        }
    }
    let items = match array_at(post.get("carousel_media")) {
        Some(children) => if children.len() > 0 {
            items_of(children, &best)
        } else {
            single_item(post, &best)
        },
        None => single_item(post, &best),
    };
    assert(item_views(items@) == media_items(post_media(post@), page_best(unescaped@)));
    let owner = match post.get2("user", "username") {
        Some(Json::Text(name)) => name.clone(),
        _ => owned("unknown"),
    };
    Ok(
        Post {
            shortcode: owned(shortcode),
            owner,
            caption: text_at(post.get2("caption", "text")),
            taken_at: i64_at(post.get("taken_at"), 0),
            items,
        },
    )
}

/// How many of the items are videos.
fn count_videos(items: &Vec<MediaItem>) -> (r: usize)
    ensures
        r == video_count(item_views(items@)),
        r <= items@.len(),
{
    let ghost all = item_views(items@);
    let mut n: usize = 0;
    let mut i: usize = 0;
    while i < items.len()
        invariant
            all == item_views(items@),
            0 <= n <= i <= items@.len(),
            n == video_count(all.subrange(0, i as int)),
        decreases items@.len() - i,
    {
        proof {
            assert(all.subrange(0, i + 1).drop_last() == all.subrange(0, i as int));
            assert(all.subrange(0, i + 1).last() == items@[i as int]@);
        }
        if same_text(items[i].kind.as_str(), "video") {
            n = n + 1;
        }
        i = i + 1;
    }
    assert(all.subrange(0, all.len() as int) == all);
    n
}

/// The text saved beside the media of a post. It leads with the post's URL, so
/// that a folder of images can be traced back to where it came from.
pub fn post_info(post: &Post) -> (r: String)
    ensures
        r@ == info_text(post@),
{
    let n = post.items.len();
    let videos = count_videos(&post.items);
    let mut s = owned("https://www.instagram.com/p/");
    push_text(&mut s, post.shortcode.as_str());
    push_text(&mut s, "/");
    push_text(&mut s, "\n\naccount: @");
    push_text(&mut s, post.owner.as_str());
    push_text(&mut s, "\nposted:  ");
    push_text(&mut s, iso_utc(post.taken_at).as_str());
    push_text(&mut s, "\nitems:   ");
    push_text(&mut s, to_decimal(n as u128).as_str());
    push_text(&mut s, " (");
    push_text(&mut s, to_decimal((n - videos) as u128).as_str());
    push_text(&mut s, " photo, ");
    push_text(&mut s, to_decimal(videos as u128).as_str());
    push_text(&mut s, " video)\n");
    if !post.caption.as_str().is_empty() {
        push_text(&mut s, "\n---\n\n");
        push_text(&mut s, post.caption.as_str());
        push_text(&mut s, "\n");
    }
    s
}

/// What the last media object adds to the items of those before it.
proof fn lemma_last_item(media: Seq<JsonView>, best: spec_fn(Seq<char>) -> Option<Seq<char>>)
    requires
        media.len() > 0,
    ensures
        media_items(media, best) == match media_item(media.last(), media.len(), best) {
            Some(item) => media_items(media.drop_last(), best).push(item),
            None => media_items(media.drop_last(), best),
        },
        media_item(media.last(), media.len(), best) matches Some(item) ==> item.index
            == media.len(),
{
}

/// Each item is that of the media object at its place.
proof fn lemma_items_have_places(
    media: Seq<JsonView>,
    best: spec_fn(Seq<char>) -> Option<Seq<char>>,
    k: int,
)
    requires
        0 <= k < media_items(media, best).len(),
    ensures
        1 <= media_items(media, best)[k].index <= media.len(),
        media_item(
            media[media_items(media, best)[k].index - 1],
            media_items(media, best)[k].index,
            best,
        ) == Some(media_items(media, best)[k]),
    decreases media.len(),
{
    if media.len() > 0 {
        let front = media.drop_last();
        let head = media_items(front, best);
        lemma_last_item(media, best);
        if k < head.len() {
            lemma_items_have_places(front, best, k);
            assert(media_items(media, best)[k] == head[k]);
            assert(front[head[k].index - 1] == media[head[k].index - 1]);
        }
    }
}

/// Items stand in the order of their places.
proof fn lemma_items_in_order(
    media: Seq<JsonView>,
    best: spec_fn(Seq<char>) -> Option<Seq<char>>,
    a: int,
    b: int,
)
    requires
        0 <= a < b < media_items(media, best).len(),
    ensures
        media_items(media, best)[a].index < media_items(media, best)[b].index,
    decreases media.len(),
{
    if media.len() > 0 {
        let front = media.drop_last();
        let head = media_items(front, best);
        lemma_last_item(media, best);
        assert(media_items(media, best)[a] == head[a]);
        if b < head.len() {
            lemma_items_in_order(front, best, a, b);
            assert(media_items(media, best)[b] == head[b]);
        } else {
            lemma_items_have_places(front, best, a);
        }
    }
}

/// A media object that gives an item has it in the list.
proof fn lemma_items_are_listed(
    media: Seq<JsonView>,
    best: spec_fn(Seq<char>) -> Option<Seq<char>>,
    j: int,
    item: MediaItemView,
)
    requires
        0 <= j < media.len(),
        media_item(media[j], (j + 1) as nat, best) == Some(item),
    ensures
        media_items(media, best).contains(item),
    decreases media.len(),
{
    let front = media.drop_last();
    let head = media_items(front, best);
    let all = media_items(media, best);
    lemma_last_item(media, best);
    if j < front.len() {
        assert(front[j] == media[j]);
        lemma_items_are_listed(front, best, j, item);
        let k = choose|k: int| 0 <= k < head.len() && head[k] == item;
        assert(all[k] == item);
    } else {
        assert(all[head.len() as int] == item);
    }
}

/// Items are numbered by the place of their media object, from 1 on and in
/// order: each item is that of the media object at its place, and each media
/// object that gives an item has it in the list.
pub proof fn law_items_are_numbered_by_place(
    media: Seq<JsonView>,
    best: spec_fn(Seq<char>) -> Option<Seq<char>>,
)
    ensures
        forall|k: int|
            0 <= k < media_items(media, best).len() ==> {
                let item = #[trigger] media_items(media, best)[k];
                &&& 1 <= item.index <= media.len()
                &&& media_item(media[item.index - 1], item.index, best) == Some(item)
            },
        forall|a: int, b: int|
            0 <= a < b < media_items(media, best).len() ==> (#[trigger] media_items(
                media,
                best,
            )[a]).index < (#[trigger] media_items(media, best)[b]).index,
        forall|j: int|
            0 <= j < media.len() ==> match media_item(#[trigger] media[j], (j + 1) as nat, best) {
                Some(item) => media_items(media, best).contains(item),
                None => true,
            },
{
    let all = media_items(media, best);
    assert forall|k: int| 0 <= k < all.len() implies {
        let item = #[trigger] all[k];
        &&& 1 <= item.index <= media.len()
        &&& media_item(media[item.index - 1], item.index, best) == Some(item)
    } by {
        lemma_items_have_places(media, best, k);
    }
    assert forall|a: int, b: int| 0 <= a < b < all.len() implies (#[trigger] all[a]).index < (
    #[trigger] all[b]).index by {
        lemma_items_in_order(media, best, a, b);
    }
    assert forall|j: int| 0 <= j < media.len() implies match media_item(
        #[trigger] media[j],
        (j + 1) as nat,
        best,
    ) {
        Some(item) => all.contains(item),
        None => true,
    } by {
        if let Some(item) = media_item(media[j], (j + 1) as nat, best) {
            lemma_items_are_listed(media, best, j, item);
        }
    }
}

/// An item is a video exactly when it has a video URL, and a photo otherwise.
pub proof fn law_items_are_photos_or_videos(
    media: JsonView,
    index: nat,
    best: spec_fn(Seq<char>) -> Option<Seq<char>>,
)
    ensures
        media_item(media, index, best) matches Some(item) ==> {
            &&& item.kind == "video"@ || item.kind == "photo"@
            &&& item.kind == "video"@ <==> item.video_url is Some
        },
{
    reveal_strlit("video");
    reveal_strlit("photo");
    assert("video"@[0] != "photo"@[0]);
}

/// The still of an item belongs to the asset of the item. Where the page quotes
/// that asset, the still is one that the page quotes, and the page quotes none
/// of that asset that ranks higher; else it is the one of the reply.
pub proof fn law_stills_come_from_the_page(media: JsonView, index: nat, page: Seq<char>)
    ensures
        media_item(media, index, page_best(page)) matches Some(item) ==> {
            let urls = Pattern::CdnUrl.matches(page);
            &&& cdn::asset_id(first_still_url(media)) == Some(item.asset)
            &&& cdn::asset_id(item.image_url) == Some(item.asset)
            &&& forall|j: int|
                0 <= j < urls.len() && cdn::asset_id(#[trigger] urls[j]) == Some(item.asset)
                    ==> urls.contains(item.image_url) && cdn::size_rank(urls[j]) <= cdn::size_rank(
                    item.image_url,
                )
            &&& (forall|j: int|
                0 <= j < urls.len() ==> cdn::asset_id(#[trigger] urls[j]) != Some(item.asset))
                ==> item.image_url == first_still_url(media)
        },
{
    if let Some(item) = media_item(media, index, page_best(page)) {
        let urls = Pattern::CdnUrl.matches(page);
        cdn::law_best_url_is_best(urls, item.asset);
        assert(page_best(page)(item.asset) == cdn::best_url(urls, item.asset));
    }
}

/// A post gets the untagged original of an asset wherever its page quotes one:
/// no resized copy is taken in its place.
pub proof fn law_original_is_taken(media: JsonView, index: nat, page: Seq<char>, j: int)
    requires
        0 <= j < Pattern::CdnUrl.matches(page).len(),
        Pattern::Size.leftmost(Pattern::CdnUrl.matches(page)[j], 0) is None,
    ensures
        media_item(media, index, page_best(page)) matches Some(item) ==> cdn::asset_id(
            Pattern::CdnUrl.matches(page)[j],
        ) == Some(item.asset) ==> Pattern::Size.leftmost(item.image_url, 0) is None,
{
    let urls = Pattern::CdnUrl.matches(page);
    if let Some(item) = media_item(media, index, page_best(page)) {
        law_stills_come_from_the_page(media, index, page);
        cdn::law_highest_rank_is_untagged(urls[j]);
        cdn::lemma_rank_bound(item.image_url);
        cdn::law_highest_rank_is_untagged(item.image_url);
    }
}

/// Wherever the page of a post quotes the untagged original of an asset, the item
/// of that asset gets an untagged still.
pub proof fn law_quoted_original_is_taken(
    media: JsonView,
    index: nat,
    page: Seq<char>,
    a: int,
    url: Seq<char>,
)
    requires
        pattern::cdn_url_at(page, a) matches Some(m) && page.subrange(a, m.end) == url,
        a > 0 ==> !pattern::url_char(page[a - 1]),
        Pattern::Size.leftmost(url, 0) is None,
    ensures
        media_item(media, index, page_best(page)) matches Some(item) ==> cdn::asset_id(url) == Some(
            item.asset,
        ) ==> Pattern::Size.leftmost(item.image_url, 0) is None,
{
    let urls = Pattern::CdnUrl.matches(page);
    cdn::law_quoted_urls_are_seen(page, a);
    let j = choose|j: int| 0 <= j < urls.len() && urls[j] == url;
    law_original_is_taken(media, index, page, j);
}

/// The video taken is one of those on offer, and none on offer is larger.
pub proof fn law_largest_video_is_taken(versions: Seq<JsonView>)
    ensures
        match largest_video(versions) {
            Some(best) => versions.contains(best) && forall|j: int|
                0 <= j < versions.len() ==> video_area(#[trigger] versions[j]) <= video_area(best),
            None => versions.len() == 0,
        },
    decreases versions.len(),
{
    if versions.len() > 0 {
        let front = versions.drop_last();
        law_largest_video_is_taken(front);
        assert(forall|j: int| 0 <= j < front.len() ==> front[j] == #[trigger] versions[j]);
        assert(versions[versions.len() - 1] == versions.last());
        if let Some(best) = largest_video(front) {
            let j = choose|j: int| 0 <= j < front.len() && front[j] == best;
            assert(versions[j] == best);
        }
    }
}

/// An item is labelled with the dimensions that the reply gives for the original,
/// whatever box the URL of its still is tagged with.
pub proof fn law_label_is_the_original_size(media: JsonView, image_url: Seq<char>, w: u32, h: u32)
    requires
        media.field("original_width"@) == JsonView::Unsigned(w as u64),
        media.field("original_height"@) == JsonView::Unsigned(h as u64),
        w > 0,
        h > 0,
    ensures
        labelled_size(media, image_url) == (w, h),
{
}

/// Photos and videos add up to the items of a post.
pub proof fn law_videos_are_items(items: Seq<MediaItemView>)
    ensures
        video_count(items) <= items.len(),
    decreases items.len(),
{
    if items.len() > 0 {
        law_videos_are_items(items.drop_last());
    }
}

/// There is no marker of a post in the name of the site.
proof fn lemma_site_has_no_marker(url: Seq<char>, rest: Seq<char>, h: int)
    requires
        url == "https://www.instagram.com"@ + rest,
        0 <= h < "https://www.instagram.com"@.len(),
    ensures
        pattern::marker_len(url, h) == 0,
{
    reveal_strlit("https://www.instagram.com");
    reveal_strlit("/p/");
    reveal_strlit("/reel/");
    reveal_strlit("/tv/");
    let site = "https://www.instagram.com"@;
    assert(url[h] == site[h]);
    if site[h] == '/' {
        assert(h == 6 || h == 7);
        assert(url[h + 1] == site[h + 1]);
        assert(url[h + 1] == '/' || url[h + 1] == 'w');
    }
    if text::occurs_at(url, "/p/"@, h) {
        let at = url.subrange(h, h + 3);
        assert(at[0] == url[h] && at[1] == url[h + 1]);
    }
    if text::occurs_at(url, "/reel/"@, h) {
        let at = url.subrange(h, h + 6);
        assert(at[0] == url[h] && at[1] == url[h + 1]);
    }
    if text::occurs_at(url, "/tv/"@, h) {
        let at = url.subrange(h, h + 4);
        assert(at[0] == url[h] && at[1] == url[h + 1]);
    }
}

/// Text without white space at its ends is not trimmed.
proof fn lemma_nothing_to_trim(s: Seq<char>)
    requires
        s.len() > 0,
        !text::white_space(s[0]),
        !text::white_space(s[s.len() - 1]),
    ensures
        text::trim(s) == s,
{
    let white = text::CharSet::WhiteSpace.pred();
    assert(!white(s[0]));
    assert(text::run_end(s, 0, white) == 0);
    assert(!white(s[s.len() - 1]));
    assert(text::run_start(s, 0, s.len() as int, white) == s.len());
    assert(s.subrange(0, s.len() as int) == s);
}

/// The URL of a post, pasted back, names that post.
pub proof fn law_post_url_reads_back(code: Seq<char>)
    requires
        code.len() > 0,
        shortcode::all_code_chars(code),
    ensures
        shortcode::post_code(post_url(code)) == Ok::<Seq<char>, Failure<Seq<char>>>(code),
{
    let site = "https://www.instagram.com"@;
    let url = post_url(code);
    let rest = "/p/"@ + code + "/"@;
    assert(url == site + rest && site + rest == site + "/p/"@ + code + "/"@) by {
        reveal_strlit("https://www.instagram.com");
        reveal_strlit("https://www.instagram.com/p/");
        reveal_strlit("/p/");
        assert("https://www.instagram.com/p/"@ == site + "/p/"@);
    }
    assert(text::trim(url) == url) by {
        reveal_strlit("https://www.instagram.com");
        reveal_strlit("/");
        assert(url[0] == 'h');
        assert(url[url.len() - 1] == '/');
        lemma_nothing_to_trim(url);
    }
    assert forall|h: int| 0 <= h < site.len() implies #[trigger] pattern::marker_len(
        site + "/p/"@ + code + "/"@,
        h,
    ) == 0 by {
        lemma_site_has_no_marker(url, rest, h);
    }
    reveal_strlit("/");
    shortcode::law_url_gives_its_code(url, site, "/p/"@, code, "/"@);
}

/// The text beside the media of a post leads with the URL of the post, and it
/// ends with the caption where there is one.
pub proof fn law_info_leads_with_the_url(post: PostView)
    ensures
        post_url(post.shortcode).is_prefix_of(info_text(post)),
        post.caption.len() > 0 ==> (post.caption + "\n"@).is_suffix_of(info_text(post)),
{
    let url = post_url(post.shortcode);
    let head = info_head(post);
    assert(url.is_prefix_of(head));
    let all = info_text(post);
    assert(url == all.subrange(0, url.len() as int));
    if post.caption.len() > 0 {
        let tail = post.caption + "\n"@;
        let lead = head + "\n---\n\n"@;
        assert(all == lead + tail);
        assert(all.subrange(lead.len() as int, all.len() as int) == tail);
    }
}

/// A media object gives an item exactly when its first still has a URL with the
/// number of an asset in it.
pub proof fn law_stills_with_an_asset_are_items(
    media: JsonView,
    index: nat,
    best: spec_fn(Seq<char>) -> Option<Seq<char>>,
)
    ensures
        match media.field("image_versions2"@).field("candidates"@) {
            JsonView::Array(stills) => if stills.len() > 0 {
                match stills[0].field("url"@) {
                    JsonView::Text(url) => match cdn::asset_id(url) {
                        Some(asset) => media_item(media, index, best) matches Some(item)
                            && item.asset == asset && item.index == index,
                        None => media_item(media, index, best) is None,
                    },
                    _ => media_item(media, index, best) is None,
                }
            } else {
                media_item(media, index, best) is None
            },
            _ => media_item(media, index, best) is None,
        },
{
    assert(Pattern::Asset.leftmost(Seq::<char>::empty(), 0) is None);
    assert(cdn::asset_id(Seq::<char>::empty()) is None);
}

/// What an item tells of its media object: the still that the page has for its
/// asset, or else the first one of the reply; the last still as its preview; the
/// URL of a video of the largest area, the last one of those; its size is not
/// known yet.
pub proof fn law_item_tells_its_media(
    media: JsonView,
    index: nat,
    best: spec_fn(Seq<char>) -> Option<Seq<char>>,
    stills: Seq<JsonView>,
    url: Seq<char>,
    asset: Seq<char>,
)
    requires
        media.field("image_versions2"@).field("candidates"@) == JsonView::Array(stills),
        stills.len() > 0,
        stills[0].field("url"@) == JsonView::Text(url),
        cdn::asset_id(url) == Some(asset),
    ensures
        media_item(media, index, best) matches Some(item) && {
            &&& item.image_url == match best(asset) {
                Some(u) => u,
                None => url,
            }
            &&& item.thumb_url == match stills[stills.len() - 1].field("url"@) {
                JsonView::Text(u) => u,
                _ => url,
            }
            &&& item.bytes == 0
            &&& match media.field("video_versions"@) {
                JsonView::Array(versions) => versions.len() > 0 ==> exists|m: int|
                    #![trigger versions[m]]
                    0 <= m < versions.len() && (match versions[m].field("url"@) {
                        JsonView::Text(u) => item.video_url == Some(u),
                        _ => item.video_url is None,
                    }) && (forall|j: int|
                        0 <= j < versions.len() ==> video_area(#[trigger] versions[j])
                            <= video_area(versions[m]) && (j > m ==> video_area(versions[j])
                            < video_area(versions[m]))),
                _ => item.video_url is None,
            }
            &&& media.field("video_versions"@) == JsonView::Array(Seq::empty())
                ==> item.video_url is None
        },
{
    if let JsonView::Array(versions) = media.field("video_versions"@) {
        if versions.len() > 0 {
            lemma_largest_is_last(versions);
        }
    }
}

/// The video taken is the last one of the largest.
proof fn lemma_largest_is_last(versions: Seq<JsonView>)
    requires
        versions.len() > 0,
    ensures
        exists|m: int|
            #![trigger versions[m]]
            0 <= m < versions.len() && largest_video(versions) == Some(versions[m]) && (forall|
                j: int,
            |
                0 <= j < versions.len() ==> video_area(#[trigger] versions[j]) <= video_area(
                    versions[m],
                ) && (j > m ==> video_area(versions[j]) < video_area(versions[m]))),
    decreases versions.len(),
{
    let front = versions.drop_last();
    let last = versions.len() - 1;
    assert(versions[last] == versions.last());
    if front.len() > 0 {
        lemma_largest_is_last(front);
        let m = choose|m: int|
            #![trigger front[m]]
            0 <= m < front.len() && largest_video(front) == Some(front[m]) && (forall|j: int|
                0 <= j < front.len() ==> video_area(#[trigger] front[j]) <= video_area(front[m])
                    && (j > m ==> video_area(front[j]) < video_area(front[m])));
        assert forall|j: int| 0 <= j < front.len() implies front[j] == #[trigger] versions[j] by {}
        if video_area(versions.last()) >= video_area(front[m]) {
            assert(largest_video(versions) == Some(versions[last]));
            assert forall|j: int| 0 <= j < versions.len() implies video_area(
                #[trigger] versions[j],
            ) <= video_area(versions[last]) by {
                if j < front.len() {
                    assert(video_area(front[j]) <= video_area(front[m]));
                }
            }
        } else {
            assert(largest_video(versions) == Some(versions[m]));
            assert forall|j: int| 0 <= j < versions.len() implies video_area(
                #[trigger] versions[j],
            ) <= video_area(versions[m]) && (j > m ==> video_area(versions[j]) < video_area(
                versions[m],
            )) by {
                if j < front.len() {
                    assert(video_area(front[j]) <= video_area(front[m]));
                }
            }
        }
    } else {
        assert(largest_video(front) is None);
        assert(largest_video(versions) == Some(versions[last]));
    }
}

/// The area of a video is its width times its height where both are told as
/// integers from 0 on; a video that does not tell both has none.
pub proof fn law_area_of_a_video(version: JsonView)
    ensures
        match (version.field("width"@), version.field("height"@)) {
            (JsonView::Unsigned(w), JsonView::Unsigned(h)) => video_area(version) == w * h,
            _ => video_area(version) == 0,
        },
{
    let w = version.field("width"@).u64_or_zero();
    let h = version.field("height"@).u64_or_zero();
    assert(w * h >= 0) by (nonlinear_arith)
        requires
            w >= 0,
            h >= 0,
    ;
    assert(w == 0 || h == 0 ==> w * h == 0) by (nonlinear_arith);
}

/// An item whose original has no known size is labelled with the box that its
/// still is tagged with, and with 0 by 0 where it has no tag.
pub proof fn law_label_falls_back_to_the_box(
    media: JsonView,
    before: Seq<char>,
    letter: char,
    width: nat,
    height: nat,
    after: Seq<char>,
)
    requires
        !(media.field("original_width"@) is Unsigned) || !(media.field(
            "original_height"@,
        ) is Unsigned) || media.field("original_width"@) == JsonView::Unsigned(0) || media.field(
            "original_height"@,
        ) == JsonView::Unsigned(0),
        letter == 's' || letter == 'p',
        100 <= width <= 9999,
        100 <= height <= 9999,
        after.len() == 0 || !pattern::digit(after[0]),
        forall|k: int|
            0 <= k < before.len() ==> (#[trigger] pattern::size_at(
                cdn::tagged_url(
                    before,
                    letter,
                    number::decimal(width),
                    number::decimal(height),
                    after,
                ),
                k,
            )) is None,
    ensures
        labelled_size(
            media,
            cdn::tagged_url(before, letter, number::decimal(width), number::decimal(height), after),
        ) == (width as u32, height as u32),
        forall|url: Seq<char>|
            (#[trigger] Pattern::Size.leftmost(url, 0)) is None ==> labelled_size(media, url) == (
                0u32,
                0u32,
            ),
{
    let w = number::decimal(width);
    let h = number::decimal(height);
    let s = cdn::tagged_url(before, letter, w, h, after);
    cdn::lemma_three_or_four_digits(width);
    cdn::lemma_three_or_four_digits(height);
    cdn::lemma_tag_matches(before, letter, w, h, after);
    assert forall|k: int| 0 <= k < before.len() implies (#[trigger] Pattern::Size.match_at(
        s,
        k,
    )) is None by {
        assert(pattern::size_at(s, k) is None);
    }
    Pattern::Size.lemma_leftmost_unique(s, 0, before.len() as int);
    assert(number::unsigned_value(w, u32::MAX as nat) == Some(width)) by {
        number::law_decimal_reads_back(width);
        assert(number::ascii_digit(w[0]));
    }
    assert(number::unsigned_value(h, u32::MAX as nat) == Some(height)) by {
        number::law_decimal_reads_back(height);
        assert(number::ascii_digit(h[0]));
    }
}

/// A media reply gives a post exactly when it lists one. The post is the first one
/// listed: its owner, its caption and its time are those that the reply tells.
pub proof fn law_post_tells_the_reply(shortcode: Seq<char>, page: Seq<char>, info: JsonView)
    ensures
        match info.field("items"@) {
            JsonView::Array(found) => if found.len() > 0 {
                assembled_post(shortcode, page, info) matches Ok(post) && {
                    &&& post.shortcode == shortcode
                    &&& post.owner == match found[0].field("user"@).field("username"@) {
                        JsonView::Text(name) => name,
                        _ => "unknown"@,
                    }
                    &&& match found[0].field("caption"@).field("text"@) {
                        JsonView::Text(caption) => post.caption == caption,
                        _ => post.caption.len() == 0,
                    }
                    &&& post.taken_at as int == match found[0].field("taken_at"@) {
                        JsonView::Unsigned(n) => if n <= 0x7fff_ffff_ffff_ffff {
                            n as int
                        } else {
                            0
                        },
                        JsonView::Negative(n) => n as int,
                        _ => 0,
                    }
                }
            } else {
                assembled_post(shortcode, page, info) == Err::<PostView, Failure<Seq<char>>>(
                    Failure::PostNotFound,
                )
            },
            _ => assembled_post(shortcode, page, info) == Err::<PostView, Failure<Seq<char>>>(
                Failure::PostNotFound,
            ),
        },
{
}

/// Every child of a carousel, however many there are, gives an item if its first
/// still belongs to an asset: the item of that asset, at the place of the child.
pub proof fn law_every_child_is_an_item(
    shortcode: Seq<char>,
    page: Seq<char>,
    info: JsonView,
    found: Seq<JsonView>,
    children: Seq<JsonView>,
    k: int,
    stills: Seq<JsonView>,
    url: Seq<char>,
    asset: Seq<char>,
)
    requires
        info.field("items"@) == JsonView::Array(found),
        found.len() > 0,
        found[0].field("carousel_media"@) == JsonView::Array(children),
        0 <= k < children.len(),
        children[k].field("image_versions2"@).field("candidates"@) == JsonView::Array(stills),
        stills.len() > 0,
        stills[0].field("url"@) == JsonView::Text(url),
        cdn::asset_id(url) == Some(asset),
    ensures
        assembled_post(shortcode, page, info) matches Ok(post) && exists|i: int|
            0 <= i < post.items.len() && (#[trigger] post.items[i]).index == k + 1
                && post.items[i].asset == asset && Some(post.items[i]) == media_item(
                children[k],
                (k + 1) as nat,
                page_best(page),
            ),
{
    let best = page_best(page);
    let items = media_items(children, best);
    let post = assembled_post(shortcode, page, info)->Ok_0;
    assert(post.items == items);
    law_stills_with_an_asset_are_items(children[k], (k + 1) as nat, best);
    let item = media_item(children[k], (k + 1) as nat, best)->0;
    lemma_items_are_listed(children, best, k, item);
    let i = choose|i: int| 0 <= i < items.len() && items[i] == item;
    assert(post.items[i] == item);
}

/// The items of a carousel are those of its children and no others, in the order
/// of the children.
pub proof fn law_items_are_those_of_the_children(
    shortcode: Seq<char>,
    page: Seq<char>,
    info: JsonView,
    found: Seq<JsonView>,
    children: Seq<JsonView>,
)
    requires
        info.field("items"@) == JsonView::Array(found),
        found.len() > 0,
        found[0].field("carousel_media"@) == JsonView::Array(children),
        children.len() > 0,
    ensures
        assembled_post(shortcode, page, info) matches Ok(post) && {
            &&& post.items.len() <= children.len()
            &&& forall|i: int|
                0 <= i < post.items.len() ==> 1 <= (#[trigger] post.items[i]).index
                    <= children.len() && media_item(
                    children[post.items[i].index - 1],
                    post.items[i].index,
                    page_best(page),
                ) == Some(post.items[i])
            &&& forall|a: int, b: int|
                0 <= a < b < post.items.len() ==> (#[trigger] post.items[a]).index < (
                #[trigger] post.items[b]).index
        },
{
    let best = page_best(page);
    let post = assembled_post(shortcode, page, info)->Ok_0;
    assert(post.items == media_items(children, best));
    law_items_are_numbered_by_place(children, best);
    lemma_no_more_items_than_media(children, best);
}

/// Each media object gives one item at most.
proof fn lemma_no_more_items_than_media(
    media: Seq<JsonView>,
    best: spec_fn(Seq<char>) -> Option<Seq<char>>,
)
    ensures
        media_items(media, best).len() <= media.len(),
    decreases media.len(),
{
    if media.len() > 0 {
        lemma_last_item(media, best);
        lemma_no_more_items_than_media(media.drop_last(), best);
    }
}

/// A post without a carousel, or with one that has no children, is its own single
/// media object: it has one item, at place 1, if its first still belongs to an
/// asset, and none otherwise.
pub proof fn law_single_post_is_its_own_item(
    shortcode: Seq<char>,
    page: Seq<char>,
    info: JsonView,
    found: Seq<JsonView>,
)
    requires
        info.field("items"@) == JsonView::Array(found),
        found.len() > 0,
        !(found[0].field("carousel_media"@) is Array) || found[0].field("carousel_media"@)
            == JsonView::Array(Seq::empty()),
    ensures
        assembled_post(shortcode, page, info) matches Ok(post) && match media_item(
            found[0],
            1,
            page_best(page),
        ) {
            Some(item) => post.items == seq![item],
            None => post.items.len() == 0,
        },
{
    let best = page_best(page);
    let one = seq![found[0]];
    assert(post_media(found[0]) == one);
    lemma_last_item(one, best);
    assert(one.drop_last() == Seq::<JsonView>::empty());
    assert(media_items(one.drop_last(), best) == Seq::<MediaItemView>::empty());
    assert(one.last() == found[0]);
    if let Some(item) = media_item(found[0], 1, best) {
        assert(Seq::<MediaItemView>::empty().push(item) == seq![item]);
    }
}

/// The best still of an asset on a page is the best one among the URLs that are
/// found on it.
pub proof fn law_page_has_the_best_still(page: Seq<char>, asset: Seq<char>)
    ensures
        match page_best(page)(asset) {
            Some(best) => Pattern::CdnUrl.matches(page).contains(best) && cdn::asset_id(best)
                == Some(asset) && forall|j: int|
                0 <= j < Pattern::CdnUrl.matches(page).len() && cdn::asset_id(
                    #[trigger] Pattern::CdnUrl.matches(page)[j],
                ) == Some(asset) ==> cdn::size_rank(Pattern::CdnUrl.matches(page)[j])
                    <= cdn::size_rank(best),
            None => forall|j: int|
                0 <= j < Pattern::CdnUrl.matches(page).len() ==> cdn::asset_id(
                    #[trigger] Pattern::CdnUrl.matches(page)[j],
                ) != Some(asset),
        },
{
    cdn::law_best_url_is_best(Pattern::CdnUrl.matches(page), asset);
}

/// Videos are counted by their kind.
pub proof fn law_videos_are_counted(items: Seq<MediaItemView>)
    ensures
        video_count(items) == items.filter(|i: MediaItemView| i.kind == "video"@).len(),
    decreases items.len(),
{
    reveal(Seq::filter);
    if items.len() > 0 {
        law_videos_are_counted(items.drop_last());
    }
}

/// The text beside the media of a post tells its URL, its account, when it was
/// posted, how many items it has, and how many of them are photos and videos; the
/// caption follows where there is one.
pub proof fn law_info_tells_the_post(post: PostView, videos: nat, photos: nat)
    requires
        videos == post.items.filter(|i: MediaItemView| i.kind == "video"@).len(),
        photos + videos == post.items.len(),
    ensures
        ({
            let head = "https://www.instagram.com/p/"@ + post.shortcode + "/"@ + "\n\naccount: @"@
                + post.owner + "\nposted:  "@ + calendar::utc_text(post.taken_at as int)
                + "\nitems:   "@ + number::decimal(videos + photos) + " ("@ + number::decimal(photos)
                + " photo, "@ + number::decimal(videos) + " video)\n"@;
            info_text(post) == if post.caption.len() == 0 {
                head
            } else {
                head + "\n---\n\n"@ + post.caption + "\n"@
            }
        }),
{
    law_videos_are_counted(post.items);
}

} // verus!
