//! Downloading a post: which files are fetched, what they are called, and how
//! far it has come.
use crate::encode;
use crate::encode::sanitize;
use crate::json::JsonView;
use crate::number;
use crate::number::to_decimal;
use crate::post;
use crate::post::{MediaItem, MediaItemView, Post};
use crate::shortcode;
use crate::text;
use crate::text::{joined, owned, push_text};
use vstd::prelude::*;

verus! {

/// A file to fetch: its name, and where it is fetched from.
#[derive(Debug)]
pub struct FileJob {
    pub name: String,
    pub url: String,
}

/// A file to fetch, over character sequences.
pub struct FileJobView {
    pub name: Seq<char>,
    pub url: Seq<char>,
}

impl View for FileJob {
    type V = FileJobView;

    open spec fn view(&self) -> FileJobView {
        FileJobView { name: self.name@, url: self.url@ }
    }
}

/// The files of a vector as views.
pub open spec fn job_views(v: Seq<FileJob>) -> Seq<FileJobView> {
    v.map_values(|j: FileJob| j@)
}

/// Whether an item at this place is to be kept.
pub open spec fn kept(index: nat, only: Seq<usize>) -> bool {
    only.len() == 0 || exists|j: int| 0 <= j < only.len() && #[trigger] only[j] == index
}

/// Those items that are to be kept, in their order.
pub open spec fn wanted(items: Seq<MediaItemView>, only: Seq<usize>) -> Seq<MediaItemView>
    decreases items.len(),
{
    if items.len() == 0 {
        Seq::empty()
    } else if kept(items.last().index, only) {
        wanted(items.drop_last(), only).push(items.last())
    } else {
        wanted(items.drop_last(), only)
    }
}

/// A place in the carousel in a file name: at least two digits.
pub open spec fn place_text(index: nat) -> Seq<char> {
    number::zero_padded(number::decimal(index), 2)
}

/// The part that the file names of an item start with.
pub open spec fn item_prefix(code: Seq<char>, index: nat) -> Seq<char> {
    code + "_"@ + place_text(index) + "_"@
}

/// The name of an item's video file.
pub open spec fn video_name(code: Seq<char>, index: nat) -> Seq<char> {
    item_prefix(code, index) + "video.mp4"@
}

/// The part of a still's name that says what it is and how large it is.
pub open spec fn still_label(item: MediaItemView) -> Seq<char> {
    (if item.video_url is Some {
        "cover"@
    } else {
        "photo"@
    }) + "_"@ + number::decimal(item.width as nat) + "x"@ + number::decimal(item.height as nat)
        + ".jpg"@
}

/// The name of the file of an item's still.
pub open spec fn still_name(code: Seq<char>, item: MediaItemView) -> Seq<char> {
    item_prefix(code, item.index) + still_label(item)
}

/// The name of the file with the text about a post.
pub open spec fn caption_name(code: Seq<char>) -> Seq<char> {
    code + "_caption.txt"@
}

/// The files of an item: the video and its cover frame, or the photo.
pub open spec fn item_jobs(code: Seq<char>, item: MediaItemView) -> Seq<FileJobView> {
    let still = FileJobView { name: still_name(code, item), url: item.image_url };
    match item.video_url {
        Some(url) => seq![FileJobView { name: video_name(code, item.index), url }, still],
        None => seq![still],
    }
}

/// The files of some items, one item after the other.
pub open spec fn jobs_of(code: Seq<char>, items: Seq<MediaItemView>) -> Seq<FileJobView>
    decreases items.len(),
{
    if items.len() == 0 {
        Seq::empty()
    } else {
        jobs_of(code, items.drop_last()) + item_jobs(code, items.last())
    }
}

/// The folder that a post is saved to below the destination, if it gets one of
/// its own.
pub open spec fn folder_of(code: Seq<char>, subfolder: bool) -> Option<Seq<char>> {
    if subfolder {
        Some(encode::sanitized(code))
    } else {
        None
    }
}

/// What is told of a file.
#[derive(Debug)]
pub struct DlProgress {
    pub file: String,
    pub done: usize,
    pub total: usize,
    pub bytes: u64,
    pub error: Option<String>,
}

/// A download: its files, how many of them are done with, and how many of those
/// were written.
#[derive(Debug)]
pub struct Download {
    pub jobs: Vec<FileJob>,
    pub done: usize,
    pub written: usize,
}

impl Download {
    /// No more files are written than are done with, and no more done with than
    /// there are.
    pub open spec fn valid(self) -> bool {
        self.written <= self.done <= self.jobs@.len()
    }

    /// The file to fetch next, none where all are done with.
    pub fn next_job(&self) -> (r: Option<&FileJob>)
        requires
            self.valid(),
        ensures
            match r {
                Some(job) => self.done < self.jobs@.len() && *job == self.jobs@[self.done as int],
                None => self.done == self.jobs@.len(),
            },
    {
        if self.done < self.jobs.len() {
            Some(&self.jobs[self.done])
        } else {
            None
        }
    }

    /// Notes what came of the next file: how many bytes were written, or why it
    /// could not be fetched. A file that could not be fetched is done with too.
    pub fn record(&mut self, outcome: Result<u64, String>) -> (r: DlProgress)
        requires
            old(self).valid(),
            old(self).done < old(self).jobs@.len(),
        ensures
            final(self).valid(),
            final(self).jobs == old(self).jobs,
            final(self).done == old(self).done + 1,
            final(self).written == old(self).written + (if outcome is Ok {
                1int
            } else {
                0int
            }),
            r.file@ == old(self).jobs@[old(self).done as int].name@,
            r.done == old(self).done + 1,
            r.total == old(self).jobs@.len(),
            match outcome {
                Ok(bytes) => r.bytes == bytes && r.error is None,
                Err(why) => r.bytes == 0 && r.error == Some(why),
            },
    {
        let file = self.jobs[self.done].name.clone();
        let total = self.jobs.len();
        self.done = self.done + 1;
        match outcome {
            Ok(bytes) => {
                self.written = self.written + 1;
                DlProgress { file, done: self.done, total, bytes, error: None }
            },
            Err(why) => DlProgress { file, done: self.done, total, bytes: 0, error: Some(why) },
        }
    }
}

/// Whether an item at this place is to be kept.
fn keeps(index: usize, only: &Vec<usize>) -> (r: bool)
    ensures
        r == kept(index as nat, only@),
{
    if only.len() == 0 {
        return true;
    }
    let mut j: usize = 0;
    while j < only.len()
        invariant
            only@.len() > 0,
            0 <= j <= only@.len(),
            forall|k: int| 0 <= k < j ==> #[trigger] only@[k] != index,
        decreases only@.len() - j,
    {
        if only[j] == index {
            return true;
        }
        j = j + 1;
    }
    false
}

/// The part that the file names of an item start with.
fn prefix_of(code: &str, index: usize) -> (r: String)
    ensures
        r@ == item_prefix(code@, index as nat),
{
    let digits = to_decimal(index as u128);
    let mut s = joined(code, "_");
    if index < 10 {
        push_text(&mut s, "0");
        proof {
            reveal_strlit("0");
            assert(number::zero_padded(digits@, 2) == "0"@ + digits@);
            assert(code@ + "_"@ + ("0"@ + digits@) == code@ + "_"@ + "0"@ + digits@);
        }
    } else {
        proof {
            number::lemma_decimal_digits((index / 10) as nat);
            assert(number::zero_padded(digits@, 2) == digits@);
        }
    }
    push_text(&mut s, digits.as_str());
    push_text(&mut s, "_");
    s
}

/// The name of the file of an item's still.
fn name_of_still(code: &str, item: &MediaItem) -> (r: String)
    ensures
        r@ == still_name(code@, item@),
{
    let mut label = match &item.video_url {
        Some(_) => owned("cover"),
        None => owned("photo"),
    };
    push_text(&mut label, "_");
    push_text(&mut label, to_decimal(item.width as u128).as_str());
    push_text(&mut label, "x");
    push_text(&mut label, to_decimal(item.height as u128).as_str());
    push_text(&mut label, ".jpg");
    joined(prefix_of(code, item.index).as_str(), label.as_str())
}

/// Appends the files of an item.
fn add_jobs(jobs: &mut Vec<FileJob>, code: &str, item: &MediaItem)
    ensures
        job_views(final(jobs)@) == job_views(old(jobs)@) + item_jobs(code@, item@),
{
    let ghost before = job_views(jobs@);
    let still = FileJob { name: name_of_still(code, item), url: item.image_url.clone() };
    let ghost still_view = still@;
    match &item.video_url {
        Some(url) => {
            let video = FileJob {
                name: joined(prefix_of(code, item.index).as_str(), "video.mp4"),
                url: url.clone(),
            };
            let ghost video_view = video@;
            jobs.push(video);
            jobs.push(still);
            assert(job_views(jobs@) == before + seq![video_view, still_view]);
        },
        None => {
            jobs.push(still);
            assert(job_views(jobs@) == before + seq![still_view]);
        },
    }
}

/// Plans the download of a post: the files of those items that are to be kept.
/// A video gives two files, itself and its cover frame.
pub fn plan_download(post: &Post, only: &Vec<usize>) -> (r: Download)
    ensures
        r.valid(),
        job_views(r.jobs@) == jobs_of(post@.shortcode, wanted(post@.items, only@)),
        r.done == 0,
        r.written == 0,
{
    let ghost all = post@.items;
    let code = post.shortcode.as_str();
    let mut jobs: Vec<FileJob> = Vec::new();
    let mut i: usize = 0;
    assert(job_views(jobs@) == Seq::<FileJobView>::empty());
    while i < post.items.len()
        invariant
            code@ == post@.shortcode,
            all == post::item_views(post.items@),
            0 <= i <= post.items@.len(),
            job_views(jobs@) == jobs_of(code@, wanted(all.subrange(0, i as int), only@)),
        decreases post.items@.len() - i,
    {
        proof {
            let next = all.subrange(0, i + 1);
            assert(next.drop_last() == all.subrange(0, i as int));
            assert(next.last() == post.items@[i as int]@);
        }
        if keeps(post.items[i].index, only) {
            add_jobs(&mut jobs, code, &post.items[i]);
            proof {
                let before = wanted(all.subrange(0, i as int), only@);
                let item = post.items@[i as int]@;
                assert(before.push(item).drop_last() == before);
                assert(before.push(item).last() == item);
            }
        }
        i = i + 1;
    }
    assert(all.subrange(0, all.len() as int) == all);
    Download { jobs, done: 0, written: 0 }
}

/// The folder that a post is saved to below the destination, if it gets one of
/// its own.
pub fn post_folder(post: &Post, subfolder: bool) -> (r: Option<String>)
    ensures
        text::opt_text(r) == folder_of(post@.shortcode, subfolder),
{
    if subfolder {
        Some(sanitize(post.shortcode.as_str()))
    } else {
        None
    }
}

/// The name of the file with the text about a post.
pub fn caption_file(post: &Post) -> (r: String)
    ensures
        r@ == caption_name(post@.shortcode),
{
    joined(post.shortcode.as_str(), "_caption.txt")
}

/// How many of some items have a video.
pub open spec fn with_video(items: Seq<MediaItemView>) -> nat
    decreases items.len(),
{
    if items.len() == 0 {
        0
    } else {
        with_video(items.drop_last()) + if items.last().video_url is Some {
            1nat
        } else {
            0nat
        }
    }
}

/// Each item gives one file, and each video one more.
pub proof fn law_files_per_item(code: Seq<char>, items: Seq<MediaItemView>)
    ensures
        jobs_of(code, items).len() == items.len() + with_video(items),
    decreases items.len(),
{
    if items.len() > 0 {
        law_files_per_item(code, items.drop_last());
    }
}

/// With no places given every item is kept; else exactly those at the places
/// given are.
pub proof fn law_only_the_wanted_items(items: Seq<MediaItemView>, only: Seq<usize>)
    ensures
        only.len() == 0 ==> wanted(items, only) == items,
        forall|k: int|
            0 <= k < wanted(items, only).len() ==> kept(
                (#[trigger] wanted(items, only)[k]).index,
                only,
            ) && items.contains(wanted(items, only)[k]),
        forall|k: int|
            0 <= k < items.len() && kept((#[trigger] items[k]).index, only) ==> wanted(
                items,
                only,
            ).contains(items[k]),
    decreases items.len(),
{
    if items.len() > 0 {
        let front = items.drop_last();
        let head = wanted(front, only);
        let all = wanted(items, only);
        law_only_the_wanted_items(front, only);
        if only.len() == 0 {
            assert(front.push(items.last()) == items);
        }
        assert forall|k: int| 0 <= k < all.len() implies kept((#[trigger] all[k]).index, only)
            && items.contains(all[k]) by {
            if k < head.len() {
                assert(all[k] == head[k]);
                let j = choose|j: int| 0 <= j < front.len() && front[j] == head[k];
                assert(items[j] == all[k]);
            } else {
                assert(items[items.len() - 1] == all[k]);
            }
        }
        assert forall|k: int|
            0 <= k < items.len() && kept((#[trigger] items[k]).index, only) implies all.contains(
            items[k],
        ) by {
            if k < front.len() {
                assert(front[k] == items[k]);
                let j = choose|j: int| 0 <= j < head.len() && head[j] == front[k];
                assert(all[j] == items[k]);
            } else {
                assert(all[head.len() as int] == items[k]);
            }
        }
    } else {
        assert(wanted(items, only) == items);
    }
}

/// A place in a file name is digits, and denotes the place.
proof fn lemma_place_text(index: nat)
    ensures
        place_text(index).len() >= 2,
        number::all_digits(place_text(index)),
        number::decimal_value(place_text(index)) == index,
{
    let d = number::decimal(index);
    number::lemma_decimal_digits(index);
    number::law_decimal_reads_back(index);
    if index < 10 {
        let p = place_text(index);
        assert(p == seq!['0'] + d);
        assert(p.drop_last() == seq!['0']);
        assert(seq!['0'].drop_last() == Seq::<char>::empty());
        reveal_with_fuel(number::decimal_value, 3);
        assert(p.last() == d[0]);
    } else {
        number::lemma_decimal_digits(index / 10);
        assert(place_text(index) == d);
    }
}

/// The digits of a place, as a predicate.
spec fn place_digits() -> spec_fn(char) -> bool {
    |c: char| number::ascii_digit(c)
}

/// Behind the code and an underscore, the digits of a name end where those of
/// its place end.
proof fn lemma_place_run(code: Seq<char>, index: nat, rest: Seq<char>)
    ensures
        text::run_end(item_prefix(code, index) + rest, code.len() as int + 1, place_digits())
            == code.len() + 1 + place_text(index).len(),
        (item_prefix(code, index) + rest).subrange(
            code.len() as int + 1,
            code.len() as int + 1 + place_text(index).len(),
        ) == place_text(index),
{
    reveal_strlit("_");
    lemma_place_text(index);
    let s = item_prefix(code, index) + rest;
    let a = code.len() as int + 1;
    let e = a + place_text(index).len();
    assert forall|k: int| a <= k < e implies place_digits()(#[trigger] s[k]) by {
        assert(s[k] == place_text(index)[k - a]);
    }
    assert(s[e] == '_');
    text::lemma_run_end_unique(s, a, e, place_digits());
    assert(s.subrange(a, e) == place_text(index));
}

/// Names for two places differ.
proof fn lemma_places_differ(code: Seq<char>, i: nat, j: nat, r: Seq<char>, s: Seq<char>)
    requires
        i != j,
    ensures
        item_prefix(code, i) + r != item_prefix(code, j) + s,
{
    if item_prefix(code, i) + r == item_prefix(code, j) + s {
        lemma_place_run(code, i, r);
        lemma_place_run(code, j, s);
        lemma_place_text(i);
        lemma_place_text(j);
    }
}

/// What a file is called behind its place: the video, or the label of the still.
proof fn lemma_job_names(code: Seq<char>, items: Seq<MediaItemView>, k: int)
    requires
        0 <= k < jobs_of(code, items).len(),
    ensures
        exists|i: int, rest: Seq<char>|
            #![trigger item_prefix(code, items[i].index) + rest]
            0 <= i < items.len() && jobs_of(code, items)[k].name == item_prefix(
                code,
                items[i].index,
            ) + rest,
    decreases items.len(),
{
    let front = items.drop_last();
    let head = jobs_of(code, front);
    let last = items.len() - 1;
    if k < head.len() {
        lemma_job_names(code, front, k);
        let (i, rest) = choose|i: int, rest: Seq<char>|
            #![trigger item_prefix(code, front[i].index) + rest]
            0 <= i < front.len() && head[k].name == item_prefix(code, front[i].index) + rest;
        assert(items[i] == front[i]);
        assert(jobs_of(code, items)[k].name == item_prefix(code, items[i].index) + rest);
    } else {
        let job = item_jobs(code, items.last())[k - head.len()];
        assert(jobs_of(code, items)[k] == job);
        if items.last().video_url is Some && k == head.len() {
            assert(job.name == item_prefix(code, items[last].index) + "video.mp4"@);
        } else {
            assert(job.name == item_prefix(code, items[last].index) + still_label(items[last]));
        }
    }
}

/// The video of an item and its cover frame have different names.
proof fn lemma_video_and_cover(code: Seq<char>, item: MediaItemView)
    ensures
        video_name(code, item.index) != still_name(code, item),
{
    reveal_strlit("video.mp4");
    reveal_strlit("cover");
    reveal_strlit("photo");
    let p = item_prefix(code, item.index);
    let n = p.len() as int;
    assert(video_name(code, item.index)[n] == 'v');
    assert(still_name(code, item)[n] == still_label(item)[0]);
}

/// No two files of a post have the same name, as long as its items stand at
/// different places; so no file overwrites another.
pub proof fn law_file_names_differ(code: Seq<char>, items: Seq<MediaItemView>, a: int, b: int)
    requires
        0 <= a < b < jobs_of(code, items).len(),
        forall|i: int, j: int|
            0 <= i < j < items.len() ==> (#[trigger] items[i]).index != (#[trigger] items[j]).index,
    ensures
        jobs_of(code, items)[a].name != jobs_of(code, items)[b].name,
    decreases items.len(),
{
    let front = items.drop_last();
    let head = jobs_of(code, front);
    let all = jobs_of(code, items);
    let last = items.last();
    let at = items.len() - 1;
    if b < head.len() {
        assert forall|i: int, j: int| 0 <= i < j < front.len() implies (#[trigger] front[i]).index
            != (#[trigger] front[j]).index by {
            assert(items[i].index != items[j].index);
        }
        law_file_names_differ(code, front, a, b);
        assert(all[a] == head[a] && all[b] == head[b]);
    } else {
        let r = if last.video_url is Some && b == head.len() {
            "video.mp4"@
        } else {
            still_label(last)
        };
        assert(all[b] == item_jobs(code, last)[b - head.len()]);
        assert(all[b].name == item_prefix(code, last.index) + r);
        if a < head.len() {
            lemma_job_names(code, front, a);
            let (i, rest) = choose|i: int, rest: Seq<char>|
                #![trigger item_prefix(code, front[i].index) + rest]
                0 <= i < front.len() && head[a].name == item_prefix(code, front[i].index) + rest;
            assert(all[a] == head[a]);
            assert(items[i].index != items[at].index);
            lemma_places_differ(code, front[i].index, last.index, rest, r);
        } else {
            assert(all[a] == item_jobs(code, last)[a - head.len()]);
            lemma_video_and_cover(code, last);
        }
    }
}

/// The text about a post does not overwrite any of its files.
pub proof fn law_caption_file_is_apart(code: Seq<char>, items: Seq<MediaItemView>, k: int)
    requires
        0 <= k < jobs_of(code, items).len(),
    ensures
        jobs_of(code, items)[k].name != caption_name(code),
{
    reveal_strlit("_caption.txt");
    reveal_strlit("_");
    lemma_job_names(code, items, k);
    let (i, rest) = choose|i: int, rest: Seq<char>|
        #![trigger item_prefix(code, items[i].index) + rest]
        0 <= i < items.len() && jobs_of(code, items)[k].name == item_prefix(code, items[i].index)
            + rest;
    let place = place_text(items[i].index);
    lemma_place_text(items[i].index);
    let n = code.len() as int + 1;
    assert((item_prefix(code, items[i].index) + rest)[n] == place[0]);
    assert(number::ascii_digit(place[0]));
    assert(caption_name(code)[n] == 'c');
}

/// The files that a post gives have different names whatever is wanted of it,
/// since the items of a post stand at different places.
pub proof fn law_post_files_differ(
    code: Seq<char>,
    media: Seq<JsonView>,
    best: spec_fn(Seq<char>) -> Option<Seq<char>>,
    only: Seq<usize>,
    a: int,
    b: int,
)
    requires
        0 <= a < b < jobs_of(code, wanted(post::media_items(media, best), only)).len(),
    ensures
        jobs_of(code, wanted(post::media_items(media, best), only))[a].name != jobs_of(
            code,
            wanted(post::media_items(media, best), only),
        )[b].name,
{
    let items = post::media_items(media, best);
    post::law_items_are_numbered_by_place(media, best);
    lemma_wanted_in_order(items, only);
    law_file_names_differ(code, wanted(items, only), a, b);
}

/// Items at rising places stay so when some are dropped.
proof fn lemma_wanted_in_order(items: Seq<MediaItemView>, only: Seq<usize>)
    requires
        forall|i: int, j: int|
            0 <= i < j < items.len() ==> (#[trigger] items[i]).index < (#[trigger] items[j]).index,
    ensures
        forall|i: int, j: int|
            0 <= i < j < wanted(items, only).len() ==> (#[trigger] wanted(items, only)[i]).index < (
            #[trigger] wanted(items, only)[j]).index,
    decreases items.len(),
{
    if items.len() > 0 {
        let front = items.drop_last();
        let head = wanted(front, only);
        let all = wanted(items, only);
        assert forall|i: int, j: int| 0 <= i < j < front.len() implies (#[trigger] front[i]).index
            < (#[trigger] front[j]).index by {
            assert(items[i].index < items[j].index);
        }
        lemma_wanted_in_order(front, only);
        law_only_the_wanted_items(front, only);
        assert forall|i: int, j: int| 0 <= i < j < all.len() implies (#[trigger] all[i]).index < (
        #[trigger] all[j]).index by {
            assert(all[i] == head[i]);
            if j < head.len() {
                assert(all[j] == head[j]);
            } else {
                let m = choose|m: int| 0 <= m < front.len() && front[m] == head[i];
                assert(items[m].index < items[items.len() - 1].index);
            }
        }
    }
}

/// A post's own folder is called by its code.
pub proof fn law_folder_is_the_code(code: Seq<char>)
    requires
        shortcode::all_code_chars(code),
    ensures
        folder_of(code, true) == Some(code),
{
    assert forall|i: int| 0 <= i < code.len() implies encode::folder_char(#[trigger] code[i]) by {
        assert(text::code_char(code[i]));
    }
    encode::law_sanitize_keeps_clean_text(code);
}

/// The wanted items are, in their order, those whose place is among the places
/// given, wherever in that list it stands; all of them where none is given.
pub proof fn law_wanted_are_the_chosen_places(items: Seq<MediaItemView>, only: Seq<usize>)
    requires
        forall|k: int| 0 <= k < items.len() ==> (#[trigger] items[k]).index <= usize::MAX,
    ensures
        only.len() == 0 ==> wanted(items, only) == items,
        only.len() > 0 ==> wanted(items, only) == items.filter(
            |item: MediaItemView| only.contains(item.index as usize),
        ),
    decreases items.len(),
{
    reveal(Seq::filter);
    let chosen = |item: MediaItemView| only.contains(item.index as usize);
    if items.len() > 0 {
        let front = items.drop_last();
        let last = items[items.len() - 1];
        assert forall|k: int| 0 <= k < front.len() implies (#[trigger] front[k]).index
            <= usize::MAX by {
            assert(front[k] == items[k]);
        }
        law_wanted_are_the_chosen_places(front, only);
        assert(front.push(last) == items);
        assert(last.index <= usize::MAX);
        if only.len() > 0 {
            if chosen(last) {
                let j = choose|j: int| 0 <= j < only.len() && only[j] == last.index as usize;
                assert(only[j] == last.index);
                assert(kept(last.index, only));
            } else if kept(last.index, only) {
                let j = choose|j: int| 0 <= j < only.len() && #[trigger] only[j] == last.index;
                assert(only[j] == last.index as usize);
                assert(only.contains(last.index as usize));
            }
        }
    } else {
        assert(wanted(items, only) == items);
    }
}

/// Each item at a chosen place is planned: its still is among the files, and so is
/// its video if it has one.
pub proof fn law_chosen_items_are_planned(
    code: Seq<char>,
    items: Seq<MediaItemView>,
    only: Seq<usize>,
    k: int,
)
    requires
        0 <= k < items.len(),
        items[k].index <= usize::MAX,
        only.len() == 0 || only.contains(items[k].index as usize),
    ensures
        exists|j: int|
            0 <= j < jobs_of(code, wanted(items, only)).len() && (#[trigger] jobs_of(
                code,
                wanted(items, only),
            )[j]).url == items[k].image_url,
        items[k].video_url matches Some(url) ==> exists|j: int|
            0 <= j < jobs_of(code, wanted(items, only)).len() && (#[trigger] jobs_of(
                code,
                wanted(items, only),
            )[j]).url == url,
{
    let keep = wanted(items, only);
    law_only_the_wanted_items(items, only);
    if only.len() > 0 {
        let j = choose|j: int| 0 <= j < only.len() && only[j] == items[k].index as usize;
        assert(only[j] == items[k].index);
    }
    assert(kept(items[k].index, only));
    assert(keep.contains(items[k]));
    let i = choose|i: int| 0 <= i < keep.len() && keep[i] == items[k];
    lemma_item_is_planned(code, keep, i);
}

/// The files of an item are among those of the items it belongs to.
proof fn lemma_item_is_planned(code: Seq<char>, items: Seq<MediaItemView>, i: int)
    requires
        0 <= i < items.len(),
    ensures
        exists|j: int|
            0 <= j < jobs_of(code, items).len() && (#[trigger] jobs_of(code, items)[j]).url
                == items[i].image_url,
        items[i].video_url matches Some(url) ==> exists|j: int|
            0 <= j < jobs_of(code, items).len() && (#[trigger] jobs_of(code, items)[j]).url == url,
    decreases items.len(),
{
    let front = items.drop_last();
    let head = jobs_of(code, front);
    let all = jobs_of(code, items);
    if i < front.len() {
        lemma_item_is_planned(code, front, i);
        assert(front[i] == items[i]);
        let j = choose|j: int|
            0 <= j < head.len() && (#[trigger] head[j]).url == items[i].image_url;
        assert(all[j] == head[j]);
        if let Some(url) = items[i].video_url {
            let v = choose|v: int| 0 <= v < head.len() && (#[trigger] head[v]).url == url;
            assert(all[v] == head[v]);
        }
    } else {
        let own = item_jobs(code, items.last());
        let n = head.len() as int;
        assert(all[n + own.len() - 1] == own[own.len() - 1]);
        assert(all[n] == own[0]);
    }
}

/// Planning goes item by item: the files of two lists of items one after the other
/// are those of the first and then those of the second.
pub proof fn law_files_keep_the_order(
    code: Seq<char>,
    a: Seq<MediaItemView>,
    b: Seq<MediaItemView>,
)
    ensures
        jobs_of(code, a + b) == jobs_of(code, a) + jobs_of(code, b),
    decreases b.len(),
{
    if b.len() == 0 {
        assert(a + b == a);
        assert(jobs_of(code, a) + jobs_of(code, b) == jobs_of(code, a));
    } else {
        law_files_keep_the_order(code, a, b.drop_last());
        assert((a + b).drop_last() == a + b.drop_last());
        assert((a + b).last() == b.last());
        assert(jobs_of(code, a + b) == jobs_of(code, a) + jobs_of(code, b));
    }
}

/// The files of one item: the video, if there is one, from the URL of the video,
/// and the still from the URL of the still. Both are called by the code of the
/// post and the place of the item, in two digits or more; the still tells its
/// size, and whether it is the cover of a video.
pub proof fn law_files_of_an_item(code: Seq<char>, item: MediaItemView, place: Seq<char>)
    requires
        number::all_digits(place),
        number::decimal_value(place) == item.index,
        place.len() >= 2,
        place.len() > 2 ==> place[0] != '0',
    ensures
        ({
            let files = jobs_of(code, seq![item]);
            let still = files[files.len() - 1];
            let start = code + "_"@ + place + "_"@;
            let size = number::decimal(item.width as nat) + "x"@ + number::decimal(
                item.height as nat,
            ) + ".jpg"@;
            &&& still.url == item.image_url
            &&& match item.video_url {
                Some(url) => files.len() == 2 && files[0].url == url && files[0].name == start
                    + "video.mp4"@ && still.name == start + ("cover_"@ + size),
                None => files.len() == 1 && still.name == start + ("photo_"@ + size),
            }
        }),
{
    reveal_strlit("_");
    reveal_strlit("cover");
    reveal_strlit("photo");
    reveal_strlit("cover_");
    reveal_strlit("photo_");
    let one = seq![item];
    assert(one.drop_last() == Seq::<MediaItemView>::empty());
    assert(jobs_of(code, one.drop_last()) == Seq::<FileJobView>::empty());
    assert(one.last() == item);
    assert(jobs_of(code, one) == item_jobs(code, item));
    lemma_place_is_unique(place, item.index);
    assert("cover_"@ == "cover"@ + "_"@);
    assert("photo_"@ == "photo"@ + "_"@);
    let w = number::decimal(item.width as nat);
    let h = number::decimal(item.height as nat);
    assert("cover"@ + "_"@ + w + "x"@ + h + ".jpg"@ == "cover_"@ + (w + "x"@ + h + ".jpg"@));
    assert("photo"@ + "_"@ + w + "x"@ + h + ".jpg"@ == "photo_"@ + (w + "x"@ + h + ".jpg"@));
}

/// There is one way to write a place in two digits or more without a zero in
/// front that is not needed.
proof fn lemma_place_is_unique(place: Seq<char>, index: nat)
    requires
        number::all_digits(place),
        number::decimal_value(place) == index,
        place.len() >= 2,
        place.len() > 2 ==> place[0] != '0',
    ensures
        place == place_text(index),
{
    reveal_with_fuel(number::decimal_value, 3);
    let own = place_text(index);
    lemma_place_text(index);
    if place[0] == '0' {
        let d = place.last();
        assert(number::ascii_digit(place[1]));
        assert(place.drop_last() == seq!['0']);
        assert(seq!['0'].drop_last() == Seq::<char>::empty());
        assert(index == d as int - 48);
        assert(number::decimal(index) == seq![d]);
        assert(place == own);
    } else {
        number::lemma_decimal_of_value(place);
        number::lemma_decimal_digits(index / 10);
        assert(index >= 10) by {
            if index < 10 {
                assert(number::decimal(index).len() == 1);
            }
        }
        assert(own == number::decimal(index));
    }
}

/// Without a folder of its own a post is saved to the destination itself; the
/// text about it is called by its code.
pub proof fn law_where_a_post_is_saved(code: Seq<char>)
    ensures
        folder_of(code, false) is None,
        folder_of(code, true) == Some(encode::sanitized(code)),
        caption_name(code) == code + "_caption.txt"@,
{
}

} // verus!
