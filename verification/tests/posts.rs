//! Posts: their media, the text beside them, scanning and downloading.
use instagrab::download::{caption_file, plan_download, post_folder};
use instagrab::post::{assemble_post, post_info, MediaItem, Post};
use instagrab::reply::decode_api;
use instagrab::scan::Scan;
use instagrab::shortcode::shortcode_from_url;
use instagrab::timeline::PostSummary;

const PAGE: &str = "\"https://x.fbcdn.net/v/t51/11111111_n.jpg?stp=s1080x1080\" \
                    \"https://x.fbcdn.net/v/t51/11111111_n.jpg\" \
                    \"https://x.fbcdn.net/v/t51/22222222_n.jpg?stp=s1440x1800\"";

const INFO: &str = r#"{"items":[{"user":{"username":"someaccount"},"taken_at":1768383120,
"caption":{"text":"hello"},"carousel_media":[
{"image_versions2":{"candidates":[{"url":"https://api/11111111_720"},{"url":"https://api/tiny"}]},
 "original_width":1440,"original_height":1800},
{"image_versions2":{"candidates":[{"url":"https://api/none"}]}},
{"image_versions2":{"candidates":[{"url":"https://api/22222222_720"},{"width":1}]},
 "original_width":1440,"video_versions":[{"url":"https://v/small","width":360,"height":640},
 {"url":"https://v/big","width":720,"height":1280},{"url":"https://v/same","width":1280,"height":720},
 {"url":"https://v/odd","width":-1}]},
{"image_versions2":{"candidates":[{"url":"https://api/33333333_s640x480"}]},
 "video_versions":[]}
]}],"status":"ok"}"#;

fn sample() -> Post {
    let info = decode_api(200, INFO).unwrap();
    assemble_post("ABCDEFGHIJK", PAGE, &info).unwrap()
}

#[test]
fn structure_from_the_reply_and_stills_from_the_page() {
    let p = sample();
    assert_eq!(p.shortcode, "ABCDEFGHIJK");
    assert_eq!(p.owner, "someaccount");
    assert_eq!(p.caption, "hello");
    assert_eq!(p.taken_at, 1_768_383_120);
    // The second child belongs to no asset; the numbers count it all the same.
    let places: Vec<usize> = p.items.iter().map(|i| i.index).collect();
    assert_eq!(places, [1, 3, 4]);

    let a = &p.items[0];
    assert_eq!((a.kind.as_str(), a.width, a.height, a.bytes), ("photo", 1440, 1800, 0));
    assert_eq!(a.asset, "11111111");
    assert_eq!(a.image_url, "https://x.fbcdn.net/v/t51/11111111_n.jpg");
    assert_eq!(a.thumb_url, "https://api/tiny");
    assert_eq!(a.video_url, None);

    // A video takes the largest version, the last of equals; the size falls
    // back to the box in the URL where the original's is not known in full.
    let b = &p.items[1];
    assert_eq!((b.kind.as_str(), b.width, b.height), ("video", 1440, 1800));
    assert_eq!(b.video_url.as_deref(), Some("https://v/same"));
    assert_eq!(b.image_url, "https://x.fbcdn.net/v/t51/22222222_n.jpg?stp=s1440x1800");
    assert_eq!(b.thumb_url, "https://api/22222222_720");

    // An asset that the page does not quote keeps the URL of the reply.
    let c = &p.items[2];
    assert_eq!((c.kind.as_str(), c.width, c.height), ("photo", 640, 480));
    assert_eq!(c.image_url, "https://api/33333333_s640x480");
}

#[test]
fn a_single_post_is_its_own_item() {
    let info = decode_api(
        200,
        r#"{"items":[{"carousel_media":[],"image_versions2":{"candidates":[{"url":"/11111111_"}]}}]}"#,
    )
    .unwrap();
    let p = assemble_post("x", "", &info).unwrap();
    assert_eq!(p.owner, "unknown");
    assert_eq!(p.caption, "");
    assert_eq!(p.taken_at, 0);
    assert_eq!(p.items.len(), 1);
    assert_eq!(p.items[0].index, 1);
    assert_eq!((p.items[0].width, p.items[0].height), (0, 0));
}

#[test]
fn labels_keep_the_low_bits() {
    let info = decode_api(
        200,
        r#"{"items":[{"original_width":4294967297,"original_height":4294967298,
        "image_versions2":{"candidates":[{"url":"/11111111_s640x480"}]}}]}"#,
    )
    .unwrap();
    let p = assemble_post("x", "", &info).unwrap();
    assert_eq!((p.items[0].width, p.items[0].height), (1, 2));
}

#[test]
fn areas_of_videos_do_not_overflow() {
    let info = decode_api(
        200,
        r#"{"items":[{"image_versions2":{"candidates":[{"url":"/11111111_"}]},
        "video_versions":[{"url":"huge","width":18446744073709551615,"height":18446744073709551615},
        {"url":"small","width":720,"height":1280}]}]}"#,
    )
    .unwrap();
    let p = assemble_post("x", "", &info).unwrap();
    assert_eq!(p.items[0].video_url.as_deref(), Some("huge"));
}

#[test]
fn missing_posts_are_explained() {
    for body in [r#"{"items":[]}"#, "{}", "[]"] {
        let info = decode_api(200, body).unwrap();
        assert_eq!(
            assemble_post("x", "", &info).unwrap_err().message(),
            "post not found (private, deleted, or session expired)"
        );
    }
}

#[test]
fn info_leads_with_the_url() {
    let mut p = sample();
    let head = "https://www.instagram.com/p/ABCDEFGHIJK/\n\naccount: @someaccount\n\
                posted:  2026-01-14 09:32 UTC\nitems:   3 (2 photo, 1 video)\n";
    assert_eq!(post_info(&p), format!("{head}\n---\n\nhello\n"));
    assert_eq!(
        shortcode_from_url(post_info(&p).lines().next().unwrap()).unwrap(),
        p.shortcode
    );
    p.caption.clear();
    assert_eq!(post_info(&p), head);
}

fn summary(code: &str) -> PostSummary {
    PostSummary {
        shortcode: code.to_string(),
        thumb_url: String::new(),
        kind: "photo".to_string(),
        item_count: 1,
        taken_at: 0,
        caption: String::new(),
    }
}

fn page(codes: &[&str]) -> Vec<PostSummary> {
    codes.iter().map(|c| summary(c)).collect()
}

fn codes(scan: &Scan) -> Vec<&str> {
    scan.posts.iter().map(|p| p.shortcode.as_str()).collect()
}

#[test]
fn unlimited_scan_follows_the_cursors() {
    let mut scan = Scan::new(0, 5);
    assert!(scan.cursor.is_none());
    let t = scan.take_page(page(&["a", "b"]), Some("c1".to_string()));
    assert!(t.more);
    let p = t.progress.unwrap();
    assert_eq!((p.fetched, p.total, p.done), (2, 5, false));
    assert_eq!(scan.cursor.as_deref(), Some("c1"));
    let t = scan.take_page(page(&["c"]), None);
    assert!(!t.more);
    assert_eq!(t.progress.unwrap().fetched, 3);
    assert_eq!(codes(&scan), ["a", "b", "c"]);
    let end = scan.finished();
    assert_eq!((end.fetched, end.total, end.done), (3, 5, true));
}

#[test]
fn limited_scan_stops_at_the_limit() {
    let mut scan = Scan::new(3, 0);
    assert!(scan.take_page(page(&["a", "b"]), Some("c1".to_string())).more);
    let t = scan.take_page(page(&["c", "d"]), Some("c2".to_string()));
    assert!(!t.more);
    // Progress counts what came in, before it is cut down.
    assert_eq!(t.progress.unwrap().fetched, 4);
    assert_eq!(codes(&scan), ["a", "b", "c"]);
    assert_eq!(scan.finished().fetched, 3);
    assert_eq!(scan.cursor.as_deref(), Some("c1"));
}

#[test]
fn an_empty_page_ends_a_scan() {
    let mut scan = Scan::new(0, 0);
    assert!(scan.take_page(page(&["a"]), Some("c1".to_string())).more);
    let t = scan.take_page(page(&[]), Some("c2".to_string()));
    assert!(!t.more && t.progress.is_none());
    assert_eq!(codes(&scan), ["a"]);
}

#[test]
fn files_of_a_download() {
    let p = sample();
    let plan = plan_download(&p, &vec![]);
    let files: Vec<(&str, &str)> = plan
        .jobs
        .iter()
        .map(|j| (j.name.as_str(), j.url.as_str()))
        .collect();
    assert_eq!(
        files,
        [
            (
                "ABCDEFGHIJK_01_photo_1440x1800.jpg",
                "https://x.fbcdn.net/v/t51/11111111_n.jpg"
            ),
            ("ABCDEFGHIJK_03_video.mp4", "https://v/same"),
            (
                "ABCDEFGHIJK_03_cover_1440x1800.jpg",
                "https://x.fbcdn.net/v/t51/22222222_n.jpg?stp=s1440x1800"
            ),
            ("ABCDEFGHIJK_04_photo_640x480.jpg", "https://api/33333333_s640x480"),
        ]
    );
    assert_eq!(caption_file(&p), "ABCDEFGHIJK_caption.txt");
    assert_eq!(post_folder(&p, true).as_deref(), Some("ABCDEFGHIJK"));
    assert_eq!(post_folder(&p, false), None);

    let some = plan_download(&p, &vec![4, 2, 1]);
    let names: Vec<&str> = some.jobs.iter().map(|j| j.name.as_str()).collect();
    assert_eq!(
        names,
        [
            "ABCDEFGHIJK_01_photo_1440x1800.jpg",
            "ABCDEFGHIJK_04_photo_640x480.jpg"
        ]
    );
    assert!(plan_download(&p, &vec![9]).next_job().is_none());
}

#[test]
fn places_are_padded_to_two_digits() {
    let item = |index| MediaItem {
        index,
        kind: "photo".to_string(),
        width: 1,
        height: 2,
        image_url: String::new(),
        video_url: None,
        thumb_url: String::new(),
        asset: String::new(),
        bytes: 0,
    };
    let post = Post {
        shortcode: "c".to_string(),
        owner: String::new(),
        caption: String::new(),
        taken_at: 0,
        items: vec![item(0), item(9), item(10), item(123)],
    };
    let plan = plan_download(&post, &vec![]);
    let names: Vec<&str> = plan.jobs.iter().map(|j| j.name.as_str()).collect();
    assert_eq!(
        names,
        [
            "c_00_photo_1x2.jpg",
            "c_09_photo_1x2.jpg",
            "c_10_photo_1x2.jpg",
            "c_123_photo_1x2.jpg"
        ]
    );
}

#[test]
fn progress_of_a_download() {
    let p = sample();
    let mut d = plan_download(&p, &vec![3]);
    assert_eq!(d.next_job().unwrap().name, "ABCDEFGHIJK_03_video.mp4");
    let a = d.record(Err("CDN returned 403 Forbidden".to_string()));
    assert_eq!(a.file, "ABCDEFGHIJK_03_video.mp4");
    assert_eq!((a.done, a.total, a.bytes), (1, 2, 0));
    assert_eq!(a.error.as_deref(), Some("CDN returned 403 Forbidden"));
    assert_eq!(d.next_job().unwrap().name, "ABCDEFGHIJK_03_cover_1440x1800.jpg");
    let b = d.record(Ok(1234));
    assert_eq!((b.done, b.total, b.bytes), (2, 2, 1234));
    assert!(b.error.is_none());
    assert!(d.next_job().is_none());
    assert_eq!((d.done, d.written), (2, 1));
}
