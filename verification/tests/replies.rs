//! Replies: timelines, searches, and what failures mean.
use instagrab::json::Json;
use instagrab::reply::{
    blocked_message, check_landing, check_served, decode_api, decode_graphql, decode_whoami,
    describe_non_json, judge_api, judge_graphql, judge_whoami,
};
use instagrab::search::hits_from_reply;
use instagrab::timeline::{summary_of, timeline_from_gql};

fn text(s: &str) -> Json {
    Json::Text(s.to_string())
}

fn object(entries: Vec<(&str, Json)>) -> Json {
    Json::Object(entries.into_iter().map(|(k, v)| (k.to_string(), v)).collect())
}

fn still(urls: &[(&str, u64)]) -> Json {
    let list = urls
        .iter()
        .map(|(u, w)| object(vec![("url", text(u)), ("width", Json::Unsigned(*w))]))
        .collect();
    object(vec![("image_versions2", object(vec![("candidates", Json::Array(list))]))])
}

/// A GraphQL timeline page has the `/api/v1/` media shape under `edges[].node`;
/// this is the exact nesting the server sends, with synthetic values.
fn timeline_fixture(has_next: bool) -> Json {
    let carousel = object(vec![
        ("code", text("AAAAAAAAAAB")),
        ("media_type", Json::Unsigned(8)),
        ("taken_at", Json::Unsigned(1_700_000_000)),
        ("caption", object(vec![("text", text("first"))])),
        (
            "carousel_media",
            Json::Array(vec![
                still(&[("https://cdn/big", 1080), ("https://cdn/small", 150)]),
                still(&[]),
            ]),
        ),
    ]);
    let video = object(vec![
        ("code", text("AAAAAAAAAAC")),
        ("media_type", Json::Unsigned(2)),
        ("taken_at", Json::Unsigned(1_600_000_000)),
        (
            "image_versions2",
            object(vec![(
                "candidates",
                Json::Array(vec![object(vec![("url", text("https://cdn/v"))])]),
            )]),
        ),
    ]);
    let blank = object(vec![("media_type", Json::Unsigned(1))]);
    let edges = vec![carousel, video, blank]
        .into_iter()
        .map(|node| object(vec![("node", node)]))
        .collect();
    object(vec![
        (
            "data",
            object(vec![
                (
                    "xdt_api__v1__feed__user_timeline_graphql_connection",
                    object(vec![
                        ("edges", Json::Array(edges)),
                        (
                            "page_info",
                            object(vec![
                                ("has_next_page", Json::Bool(has_next)),
                                ("end_cursor", text("1234567890_42")),
                            ]),
                        ),
                    ]),
                ),
                ("xdt_viewer", object(vec![("user", object(vec![]))])),
            ]),
        ),
        ("status", text("ok")),
    ])
}

/// The same page as the server sends it.
const TIMELINE_TEXT: &str = r#"{"data":{"xdt_api__v1__feed__user_timeline_graphql_connection":
{"edges":[{"node":{"code":"AAAAAAAAAAB","media_type":8,"taken_at":1700000000,
"caption":{"text":"first"},"carousel_media":[{"image_versions2":{"candidates":[
{"url":"https://cdn/big","width":1080},{"url":"https://cdn/small","width":150}]}},
{"image_versions2":{"candidates":[]}}]}},{"node":{"code":"AAAAAAAAAAC","media_type":2,
"taken_at":1600000000,"image_versions2":{"candidates":[{"url":"https://cdn/v"}]}}},
{"node":{"media_type":1}}],"page_info":{"has_next_page":true,"end_cursor":"1234567890_42"}},
"xdt_viewer":{"user":{}}},"status":"ok"}"#;

#[test]
fn reads_a_graphql_timeline_page() {
    let (posts, next) = timeline_from_gql(&timeline_fixture(true)).unwrap();
    // The node without a code is dropped rather than producing a blank card.
    assert_eq!(posts.len(), 2);
    assert_eq!(posts[0].shortcode, "AAAAAAAAAAB");
    assert_eq!(posts[0].kind, "carousel");
    assert_eq!(posts[0].item_count, 2);
    assert_eq!(posts[0].thumb_url, "https://cdn/small");
    assert_eq!(posts[0].caption, "first");
    assert_eq!(posts[1].kind, "video");
    assert_eq!(posts[1].item_count, 1);
    assert_eq!(next.as_deref(), Some("1234567890_42"));

    let (_, next) = timeline_from_gql(&timeline_fixture(false)).unwrap();
    assert!(next.is_none(), "a last page must not hand back a cursor");

    let err = timeline_from_gql(&object(vec![("data", object(vec![]))]))
        .unwrap_err()
        .message();
    assert!(err.contains("no timeline"), "unhelpful: {err}");
}

#[test]
fn explains_graphql_failures() {
    // Outer-platform envelope: a session GraphQL won't accept.
    let e = decode_graphql(
        200,
        r#"for (;;);{"__ar":1,"error":1357001,"errorSummary":"Log in to continue"}"#,
    )
    .unwrap_err()
    .message();
    assert!(e.contains("sign in again"), "{e}");

    // GraphQL `errors` with a null data: unknown user.
    let e = decode_graphql(
        200,
        r#"{"errors":[{"message":"execution error","description":"User lookup returned null"}],"data":null}"#,
    )
    .unwrap_err()
    .message();
    assert!(e.contains("no such account"), "{e}");

    // Every root field null counts as a failure even with no `errors`.
    let e = decode_graphql(200, r#"{"data":{"xig_user_by_username":null}}"#)
        .unwrap_err()
        .message();
    assert!(e.contains("empty reply"), "{e}");

    // An HTML wall is the action block, not a parsing bug.
    let e = decode_graphql(429, "<!DOCTYPE html><html>Please wait a few minutes</html>")
        .unwrap_err()
        .message();
    assert!(e.contains("temporarily blocked"), "{e}");

    assert!(decode_graphql(200, TIMELINE_TEXT).is_ok());
}

#[test]
fn explains_api_failures() {
    let e = decode_api(
        400,
        r#"{"message":"feedback_required","status":"fail","feedback_title":"Try Again Later"}"#,
    )
    .unwrap_err()
    .message();
    assert!(e.contains("temporarily blocked"), "{e}");
    let e = decode_api(429, "<html>Page Not Found</html>")
        .unwrap_err()
        .message();
    assert!(e.contains("temporarily blocked"), "{e}");
    let e = decode_api(200, r#"{"message":"login_required","status":"fail"}"#)
        .unwrap_err()
        .message();
    assert!(e.contains("expired"), "{e}");
    assert!(decode_api(200, r#"{"items":[],"status":"ok"}"#).is_ok());
}

#[test]
fn a_parsed_page_is_the_page_built_by_hand() {
    let parsed = decode_graphql(200, TIMELINE_TEXT).unwrap();
    let (a, next) = timeline_from_gql(&parsed).unwrap();
    let (b, _) = timeline_from_gql(&timeline_fixture(true)).unwrap();
    assert_eq!(format!("{a:?}"), format!("{b:?}"));
    assert_eq!(next.as_deref(), Some("1234567890_42"));
}

#[test]
fn parsed_values_keep_their_kind() {
    let j = decode_api(
        200,
        r#"{"a":[null,true,18446744073709551615,-9223372036854775808,1.5,"x\u00e9",{"b":0}],"a2":{}}"#,
    )
    .unwrap();
    assert_eq!(
        format!("{j:?}"),
        "Object([(\"a\", Array([Null, Bool(true), Unsigned(18446744073709551615), \
         Negative(-9223372036854775808), Fraction, Text(\"x\u{e9}\"), \
         Object([(\"b\", Unsigned(0))])])), (\"a2\", Object([]))])"
    );
    assert_eq!(j.get("a").unwrap().as_array().unwrap()[2].as_i64(), None);
    assert_eq!(j.get("a").unwrap().as_array().unwrap()[3].as_i64(), Some(i64::MIN));
    assert!(j.get("b").is_none());
}

#[test]
fn graphql_replies_in_every_shape() {
    let msg = |status, body: &str| decode_graphql(status, body).unwrap_err().message();
    assert_eq!(
        msg(200, r#"{"errorSummary":"Sorry","error":5}"#),
        "Instagram rejected the request: Sorry (error 5)"
    );
    assert_eq!(
        msg(200, r#"{"errorSummary":"Sorry","error":-7,"data":{"x":1}}"#),
        "Instagram rejected the request: Sorry (error -7)"
    );
    assert_eq!(
        msg(200, r#"for (;;);for (;;);{"errorSummary":"Sorry"}"#),
        "Instagram rejected the request: Sorry (error 0)"
    );
    assert_eq!(
        msg(200, r#"{"errors":[{"message":"execution error"}]}"#),
        "Instagram answered: execution error"
    );
    assert_eq!(msg(200, r#"{"errors":[{}]}"#), "Instagram answered: unknown error");
    assert_eq!(
        msg(200, r#"{"errors":[{"message":"x feedback_required"}]}"#),
        blocked_message().message()
    );
    assert_eq!(
        msg(503, r#"{"errors":[],"data":{}}"#),
        "Instagram sent an empty reply (HTTP 503)"
    );
    assert_eq!(msg(200, "[]"), "Instagram sent an empty reply (HTTP 200)");
    // One root field that is not null is enough, errors or not.
    assert!(decode_graphql(200, r#"{"errors":[{}],"data":{"a":null,"b":0}}"#).is_ok());
}

#[test]
fn pages_in_place_of_json_are_explained() {
    let msg = |status, body: &str| describe_non_json(status, body).message();
    assert_eq!(msg(200, "FEEDBACK_REQUIRED"), blocked_message().message());
    assert_eq!(
        msg(200, "<a href=\"/Accounts/Login/\">"),
        "the session was rejected (HTTP 200) — remove the account and sign in again"
    );
    assert_eq!(
        msg(401, ""),
        "the session was rejected (HTTP 401) — remove the account and sign in again"
    );
    assert_eq!(
        msg(403, ""),
        "the session was rejected (HTTP 403) — remove the account and sign in again"
    );
    assert_eq!(
        msg(500, "oops"),
        "Instagram answered HTTP 500 with something that isn't JSON"
    );
    // The page itself is what is judged, guards and all.
    assert_eq!(
        decode_graphql(500, "for (;;);oops").unwrap_err().message(),
        "Instagram answered HTTP 500 with something that isn't JSON"
    );
    assert_eq!(
        decode_api(200, "").unwrap_err().message(),
        "Instagram answered HTTP 200 with something that isn't JSON"
    );
}

#[test]
fn api_replies_in_every_shape() {
    let msg = |status, body: &str| decode_api(status, body).unwrap_err().message();
    assert_eq!(msg(404, "{}"), "Instagram answered HTTP 404");
    assert_eq!(msg(300, r#"{"message":5}"#), "Instagram answered HTTP 300");
    assert_eq!(
        msg(200, r#"{"status":"fail","message":"nope"}"#),
        "Instagram answered: nope (HTTP 200)"
    );
    assert!(decode_api(299, r#"{"message":"feedback_required"}"#).is_ok());
    assert!(decode_api(200, "[1]").is_ok());
}

#[test]
fn judging_takes_the_parsed_document() {
    assert!(judge_graphql(200, "", Some(timeline_fixture(false))).is_ok());
    assert_eq!(
        judge_graphql(429, "", None).unwrap_err().message(),
        blocked_message().message()
    );
    assert!(judge_api(200, "", Some(Json::Null)).is_ok());
    assert_eq!(
        judge_api(401, "", Some(object(vec![("message", text("login_required"))])))
            .unwrap_err()
            .message(),
        "the session has expired — remove the account and sign in again"
    );
    assert_eq!(
        judge_whoami(
            200,
            "200 OK",
            Some(object(vec![("form_data", object(vec![("username", text("me"))]))]))
        )
        .unwrap(),
        "me"
    );
}

#[test]
fn settings_form_names_the_user() {
    assert_eq!(
        decode_whoami(200, "200 OK", r#"{"form_data":{"username":"me"}}"#).unwrap(),
        "me"
    );
    let msg = |s, l, b| decode_whoami(s, l, b).unwrap_err().message();
    assert_eq!(
        msg(401, "401 Unauthorized", r#"{"form_data":{"username":"me"}}"#),
        "not signed in (HTTP 401 Unauthorized)"
    );
    assert_eq!(msg(200, "200 OK", "<html>"), "settings form was not JSON");
    assert_eq!(
        msg(200, "200 OK", r#"{"form_data":{"username":null}}"#),
        "could not read the signed-in username"
    );
    assert_eq!(msg(200, "200 OK", "{}"), "could not read the signed-in username");
}

#[test]
fn hidden_posts_are_explained() {
    assert!(check_landing("/p/ABCDEFGHIJK/").is_ok());
    assert!(check_landing("/someone/p/ABCDEFGHIJK/").is_ok());
    assert_eq!(
        check_landing("/").unwrap_err().message(),
        "Instagram redirected away from the post — the session may have expired."
    );
    let e = check_landing("/someone/").unwrap_err().message();
    assert_eq!(
        e,
        "This post isn't visible to the signed-in account. Instagram redirected to @someone, \
         which normally means the account is private and isn't followed by the account you're \
         signed in as (it can also mean the post was deleted)."
    );
    assert!(e.contains("private"));
    assert!(!e.contains("too long"));
}

#[test]
fn refused_files_are_explained() {
    assert!(check_served(206, "206 Partial Content").is_ok());
    assert_eq!(
        check_served(403, "403 Forbidden").unwrap_err().message(),
        "CDN returned 403 Forbidden"
    );
}

#[test]
fn long_captions_are_cut() {
    let long = "\u{e9}".repeat(301);
    let it = object(vec![
        ("code", text("x")),
        ("media_type", text("8")),
        ("caption", object(vec![("text", text(&long))])),
        ("carousel_media", Json::Array(vec![])),
    ]);
    let s = summary_of(&it).unwrap();
    assert_eq!(s.caption, "\u{e9}".repeat(300));
    assert_eq!(s.kind, "photo");
    assert_eq!(s.item_count, 0);
    assert_eq!(s.taken_at, 0);
    assert_eq!(s.thumb_url, "");
    assert!(summary_of(&object(vec![("code", text(""))])).is_none());
    assert!(summary_of(&Json::Null).is_none());
}

#[test]
fn null_timeline_is_no_timeline() {
    let reply = object(vec![(
        "data",
        object(vec![(
            "xdt_api__v1__feed__user_timeline_graphql_connection",
            Json::Null,
        )]),
    )]);
    assert_eq!(
        timeline_from_gql(&reply).unwrap_err().message(),
        "Instagram's reply had no timeline in it"
    );
}

#[test]
fn search_hits_are_unwrapped() {
    let reply = decode_api(
        200,
        r#"{"users":[{"user":{"username":"a","full_name":"A","is_private":true,
        "is_verified":false,"profile_pic_url":"https://pic"}},{"username":"b"},
        {"user":{"username":""}},{"user":null,"username":"c"},{"user":{"username":"d",
        "is_verified":1}}]}"#,
    )
    .unwrap();
    let hits = hits_from_reply(&reply);
    let names: Vec<&str> = hits.iter().map(|h| h.username.as_str()).collect();
    assert_eq!(names, ["a", "b", "d"]);
    assert_eq!(hits[0].full_name, "A");
    assert!(hits[0].is_private && !hits[0].is_verified);
    assert_eq!(hits[0].profile_pic, "https://pic");
    assert!(!hits[1].is_private && hits[1].full_name.is_empty());
    assert!(!hits[2].is_verified);
    assert!(hits_from_reply(&Json::Null).is_empty());
}
