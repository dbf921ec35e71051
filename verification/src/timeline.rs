//! A profile's grid: one page of a timeline, and the posts listed on it.
use crate::error::{Error, Failure};
use crate::json;
use crate::json::{array_at, i64_at, text_at, Json, JsonView};
use crate::text;
use crate::text::{chars_of, owned, string_of};
use vstd::prelude::*;

verus! {

/// A post as a timeline lists it.
#[derive(Debug)]
pub struct PostSummary {
    pub shortcode: String,
    pub thumb_url: String,
    /// `photo`, `video` or `carousel`.
    pub kind: String,
    pub item_count: usize,
    pub taken_at: i64,
    pub caption: String,
}

/// A post as a timeline lists it, over character sequences.
pub struct PostSummaryView {
    pub shortcode: Seq<char>,
    pub thumb_url: Seq<char>,
    pub kind: Seq<char>,
    pub item_count: nat,
    pub taken_at: i64,
    pub caption: Seq<char>,
}

impl View for PostSummary {
    type V = PostSummaryView;

    open spec fn view(&self) -> PostSummaryView {
        PostSummaryView {
            shortcode: self.shortcode@,
            thumb_url: self.thumb_url@,
            kind: self.kind@,
            item_count: self.item_count as nat,
            taken_at: self.taken_at,
            caption: self.caption@,
        }
    }
}

/// The summaries of a vector as views.
pub open spec fn summary_views(v: Seq<PostSummary>) -> Seq<PostSummaryView> {
    v.map_values(|p: PostSummary| p@)
}

/// The stills on offer for a media object, from the largest to the smallest.
pub open spec fn candidates(media: JsonView) -> Seq<JsonView> {
    media.field("image_versions2"@).field("candidates"@).items()
}

/// The URL of the last still on offer, empty where there is none.
pub open spec fn last_candidate_url(media: JsonView) -> Seq<char> {
    let all = candidates(media);
    if all.len() > 0 {
        all.last().field("url"@).text_or_empty()
    } else {
        Seq::empty()
    }
}

/// What a media type number says.
pub open spec fn kind_of(media_type: i64) -> Seq<char> {
    if media_type == 2 {
        "video"@
    } else if media_type == 8 {
        "carousel"@
    } else {
        "photo"@
    }
}

/// The first `n` characters of a text.
pub open spec fn shortened(s: Seq<char>, n: int) -> Seq<char> {
    if s.len() <= n {
        s
    } else {
        s.subrange(0, n)
    }
}

/// The media object that shows what a post looks like: the first of a carousel,
/// or the post itself.
pub open spec fn front_media(post: JsonView) -> JsonView {
    let children = post.field("carousel_media"@).items();
    if children.len() > 0 {
        children[0]
    } else {
        post
    }
}

/// A media object as a timeline lists it; nothing where it has no code.
pub open spec fn summarized(post: JsonView) -> Option<PostSummaryView> {
    let code = post.field("code"@).text_or_empty();
    if code.len() == 0 {
        None
    } else {
        Some(
            PostSummaryView {
                shortcode: code,
                thumb_url: last_candidate_url(front_media(post)),
                kind: kind_of(post.field("media_type"@).i64_or(1)),
                item_count: match post.field("carousel_media"@).as_array() {
                    Some(children) => children.len(),
                    None => 1,
                },
                taken_at: post.field("taken_at"@).i64_or(0),
                caption: shortened(post.field("caption"@).field("text"@).text_or_empty(), 300),
            },
        )
    }
}

/// The summaries of the nodes of a timeline's edges, in their order; a node
/// without a code is left out.
pub open spec fn summaries(edges: Seq<JsonView>) -> Seq<PostSummaryView>
    decreases edges.len(),
{
    if edges.len() == 0 {
        Seq::empty()
    } else {
        match summarized(edges.last().field("node"@)) {
            Some(s) => summaries(edges.drop_last()).push(s),
            None => summaries(edges.drop_last()),
        }
    }
}

/// The timeline in a reply, `Null` where there is none.
pub open spec fn connection(reply: JsonView) -> JsonView {
    reply.field("data"@).field("xdt_api__v1__feed__user_timeline_graphql_connection"@)
}

/// The cursor of the page behind this one, if there is such a page.
pub open spec fn next_cursor(timeline: JsonView) -> Option<Seq<char>> {
    let info = timeline.field("page_info"@);
    if info.field("has_next_page"@).is_true() {
        info.field("end_cursor"@).as_text()
    } else {
        None
    }
}

/// One page of a timeline: its posts, and the cursor of the next page.
pub open spec fn timeline_page(reply: JsonView) -> Result<
    (Seq<PostSummaryView>, Option<Seq<char>>),
    Failure<Seq<char>>,
> {
    let timeline = connection(reply);
    if timeline is Null {
        Err(Failure::NoTimeline)
    } else {
        Ok((summaries(timeline.field("edges"@).items()), next_cursor(timeline)))
    }
}

/// A page as it is returned, over views.
pub open spec fn page_view(r: Result<(Vec<PostSummary>, Option<String>), Error>) -> Result<
    (Seq<PostSummaryView>, Option<Seq<char>>),
    Failure<Seq<char>>,
> {
    match r {
        Ok((posts, next)) => Ok((summary_views(posts@), text::opt_text(next))),
        Err(e) => Err(e@),
    }
}

/// What a media type number says.
fn kind_name(media_type: i64) -> (r: String)
    ensures
        r@ == kind_of(media_type),
{
    if media_type == 2 {
        owned("video")
    } else if media_type == 8 {
        owned("carousel")
    } else {
        owned("photo")
    }
}

/// The first 300 characters of a text.
fn short_caption(s: &str) -> (r: String)
    ensures
        r@ == shortened(s@, 300),
{
    let chars = chars_of(s);
    if chars.len() <= 300 {
        owned(s)
    } else {
        string_of(&chars, 0, 300)
    }
}

/// The URL of the last still on offer, empty where there is none.
pub fn last_still(media: &Json) -> (r: String)
    ensures
        r@ == last_candidate_url(media@),
{
    match array_at(media.get2("image_versions2", "candidates")) {
        Some(all) => if all.len() > 0 {
            let last = &all[all.len() - 1];
            assert(candidates(media@).last() == last@);
            text_at(last.get("url"))
        } else {
            String::new()
        },
        None => String::new(),
    }
}

/// A media object as a timeline lists it; nothing where it has no code.
pub fn summary_of(it: &Json) -> (r: Option<PostSummary>)
    ensures
        match r {
            Some(p) => summarized(it@) == Some(p@),
            None => summarized(it@) is None,
        },
{
    let code = text_at(it.get("code"));
    if code.as_str().is_empty() {
        return None;
    }
    let children = array_at(it.get("carousel_media"));
    let count = match children {
        Some(c) => c.len(),
        None => 1,
    };
    let first = match children {
        Some(c) => if c.len() > 0 {
            assert(it@.field("carousel_media"@).items()[0] == c@[0]@);
            &c[0]
        } else {
            it
        },
        None => it,
    };
    assert(first@ == front_media(it@));
    Some(
        PostSummary {
            shortcode: code,
            thumb_url: last_still(first),
            kind: kind_name(i64_at(it.get("media_type"), 1)),
            item_count: count,
            taken_at: i64_at(it.get("taken_at"), 0),
            caption: short_caption(text_at(it.get2("caption", "text")).as_str()),
        },
    )
}

/// The summaries of the nodes of a timeline's edges.
fn summaries_of(edges: &Vec<Json>) -> (r: Vec<PostSummary>)
    ensures
        summary_views(r@) == summaries(json::views(edges@)),
{
    let mut out: Vec<PostSummary> = Vec::new();
    let ghost all = json::views(edges@);
    let mut i: usize = 0;
    while i < edges.len()
        invariant
            all == json::views(edges@),
            0 <= i <= edges@.len(),
            summary_views(out@) == summaries(all.subrange(0, i as int)),
        decreases edges@.len() - i,
    {
        let ghost before = out@;
        proof {
            assert(all.subrange(0, i + 1).drop_last() == all.subrange(0, i as int));
            assert(all.subrange(0, i + 1).last() == edges@[i as int]@);
        }
        match edges[i].get("node") {
            Some(node) => match summary_of(node) {
                Some(p) => {
                    out.push(p);
                    assert(summary_views(out@) == summary_views(before).push(p@));
                },
                None => {},
            },
            None => {
                assert(JsonView::Null.field("code"@).text_or_empty().len() == 0);
            },
        }
        i = i + 1;
    }
    assert(all.subrange(0, all.len() as int) == all);
    out
}

/// Reads one page out of a timeline reply: the summaries, and the cursor of the
/// next page if there is one.
pub fn timeline_from_gql(j: &Json) -> (r: Result<(Vec<PostSummary>, Option<String>), Error>)
    ensures
        page_view(r) == timeline_page(j@),
{
    let conn = match j.get2("data", "xdt_api__v1__feed__user_timeline_graphql_connection") {
        Some(c) => c,
        None => {
            return Err(Failure::NoTimeline);
        },
    };
    if conn.is_null() {
        return Err(Failure::NoTimeline);
    }
    let posts = match array_at(conn.get("edges")) {
        Some(edges) => summaries_of(edges),
        None => Vec::new(),
    };
    assert(summary_views(posts@) == summaries(connection(j@).field("edges"@).items()));
    let more = match conn.get2("page_info", "has_next_page") {
        Some(v) => v.is_true(),
        None => false,
    };
    let next = if more {
        match conn.get2("page_info", "end_cursor") {
            Some(v) => match v.as_str() {
                Some(s) => Some(owned(s)),
                None => None,
            },
            None => None,
        }
    } else {
        None
    };
    Ok((posts, next))
}

/// The last page hands back no cursor.
pub proof fn law_last_page_has_no_cursor(reply: JsonView)
    requires
        !connection(reply).field("page_info"@).field("has_next_page"@).is_true(),
    ensures
        timeline_page(reply) matches Ok((posts, next)) ==> next is None,
{
}

/// A page never lists more posts than it has edges, and each one it lists has a
/// code and a caption of at most 300 characters.
pub proof fn law_listed_posts_have_codes(edges: Seq<JsonView>)
    ensures
        summaries(edges).len() <= edges.len(),
        forall|k: int|
            0 <= k < summaries(edges).len() ==> (#[trigger] summaries(edges)[k]).shortcode.len() > 0
                && summaries(edges)[k].caption.len() <= 300,
    decreases edges.len(),
{
    if edges.len() > 0 {
        law_listed_posts_have_codes(edges.drop_last());
        let front = summaries(edges.drop_last());
        assert forall|k: int| 0 <= k < summaries(edges).len() implies (#[trigger] summaries(
            edges,
        )[k]).shortcode.len() > 0 && summaries(edges)[k].caption.len() <= 300 by {
            if k < front.len() {
                assert(summaries(edges)[k] == front[k]);
            }
        }
    }
}

/// Posts are listed in the order of their edges: the posts of two lists of edges
/// one after the other are the posts of the first and then those of the second.
pub proof fn law_posts_keep_their_order(a: Seq<JsonView>, b: Seq<JsonView>)
    ensures
        summaries(a + b) == summaries(a) + summaries(b),
    decreases b.len(),
{
    if b.len() == 0 {
        assert(a + b == a);
        assert(summaries(a) + summaries(b) == summaries(a));
    } else {
        law_posts_keep_their_order(a, b.drop_last());
        assert((a + b).drop_last() == a + b.drop_last());
        assert((a + b).last() == b.last());
        assert(summaries(a + b) == summaries(a) + summaries(b));
    }
}

/// A page lists a post for every node with a code that is not empty, whatever
/// else the node holds, and for no other: the codes of the posts are those codes,
/// in the order of the edges.
pub proof fn law_every_code_is_listed(edges: Seq<JsonView>)
    ensures
        summaries(edges).map_values(|p: PostSummaryView| p.shortcode) == edges.map_values(
            |e: JsonView|
                match e.field("node"@).field("code"@) {
                    JsonView::Text(code) => code,
                    _ => Seq::<char>::empty(),
                },
        ).filter(|code: Seq<char>| code.len() > 0),
    decreases edges.len(),
{
    reveal(Seq::filter);
    let code = |e: JsonView|
        match e.field("node"@).field("code"@) {
            JsonView::Text(code) => code,
            _ => Seq::<char>::empty(),
        };
    let listed = |p: PostSummaryView| p.shortcode;
    let codes = edges.map_values(code);
    if edges.len() > 0 {
        let front = edges.drop_last();
        law_every_code_is_listed(front);
        assert(codes.drop_last() == front.map_values(code));
        assert(codes.last() == code(edges.last()));
        if let Some(p) = summarized(edges.last().field("node"@)) {
            assert(summaries(front).push(p).map_values(listed) == summaries(front).map_values(
                listed,
            ).push(p.shortcode));
        }
    } else {
        assert(summaries(edges).map_values(listed) == Seq::<Seq<char>>::empty());
        assert(codes == Seq::<Seq<char>>::empty());
    }
}

/// What is told of a post that a node with a code describes: how many items it
/// has, what kind it is, when it was taken, and how its caption starts.
pub proof fn law_summary_tells_the_node(node: JsonView, code: Seq<char>)
    requires
        node.field("code"@) == JsonView::Text(code),
        code.len() > 0,
    ensures
        summarized(node) matches Some(p) && {
            &&& p.shortcode == code
            &&& p.kind == match node.field("media_type"@) {
                JsonView::Unsigned(2) | JsonView::Negative(2) => "video"@,
                JsonView::Unsigned(8) | JsonView::Negative(8) => "carousel"@,
                _ => "photo"@,
            }
            &&& p.item_count == match node.field("carousel_media"@) {
                JsonView::Array(children) => children.len(),
                _ => 1,
            }
            &&& p.taken_at as int == match node.field("taken_at"@) {
                JsonView::Unsigned(n) => if n <= 0x7fff_ffff_ffff_ffff {
                    n as int
                } else {
                    0
                },
                JsonView::Negative(n) => n as int,
                _ => 0,
            }
            &&& match node.field("caption"@).field("text"@) {
                JsonView::Text(t) => p.caption.is_prefix_of(t) && (p.caption == t
                    || p.caption.len() == 300) && p.caption.len() <= 300,
                _ => p.caption.len() == 0,
            }
        },
{
    if let JsonView::Text(t) = node.field("caption"@).field("text"@) {
        assert(t == t.subrange(0, t.len() as int));
    }
}

/// The picture of a post is the last still on offer of its first media object: of
/// the first child of a carousel that has children, of the post itself otherwise.
/// A post without such a still has no picture, and is listed all the same.
pub proof fn law_picture_is_the_last_still(node: JsonView, media: JsonView, code: Seq<char>)
    requires
        node.field("code"@) == JsonView::Text(code),
        code.len() > 0,
        match node.field("carousel_media"@) {
            JsonView::Array(children) => if children.len() > 0 {
                media == children[0]
            } else {
                media == node
            },
            _ => media == node,
        },
    ensures
        summarized(node) matches Some(p) && match media.field("image_versions2"@).field(
            "candidates"@,
        ) {
            JsonView::Array(stills) => if stills.len() > 0 {
                match stills[stills.len() - 1].field("url"@) {
                    JsonView::Text(url) => p.thumb_url == url,
                    _ => p.thumb_url.len() == 0,
                }
            } else {
                p.thumb_url.len() == 0
            },
            _ => p.thumb_url.len() == 0,
        },
{
}

/// A reply gives a page exactly when it holds a timeline that is not null. The
/// page lists the edges of that timeline, and it has a cursor exactly when the
/// timeline says that there is a next page and names where it starts.
pub proof fn law_page_of_a_reply(reply: JsonView, timeline: JsonView)
    requires
        timeline == reply.field("data"@).field(
            "xdt_api__v1__feed__user_timeline_graphql_connection"@,
        ),
    ensures
        timeline is Null ==> timeline_page(reply) == Err::<
            (Seq<PostSummaryView>, Option<Seq<char>>),
            Failure<Seq<char>>,
        >(Failure::NoTimeline),
        !(timeline is Null) ==> (timeline_page(reply) matches Ok((posts, next)) && {
            &&& match timeline.field("edges"@) {
                JsonView::Array(edges) => posts == summaries(edges),
                _ => posts.len() == 0,
            }
            &&& forall|cursor: Seq<char>| #[trigger]
                is_some_text(next, cursor) <==> timeline.field("page_info"@).field(
                    "has_next_page"@,
                ) == JsonView::Bool(true) && timeline.field("page_info"@).field("end_cursor"@)
                    == JsonView::Text(cursor)
        }),
{
}

/// Whether an optional text is this one.
pub open spec fn is_some_text(o: Option<Seq<char>>, t: Seq<char>) -> bool {
    o == Some(t)
}

} // verus!
