//! Usernames, as users enter them.
use crate::error;
use crate::error::{Error, Failure};
use crate::text;
use crate::text::{
    chars_between, chars_of, find, same_text, skip_run, take_set, trim_start_set, trimmed_chars,
    whole_string, CharSet,
};
use vstd::prelude::*;

verus! {

/// Whether a path that starts with this segment leads to something else than a
/// profile.
pub open spec fn reserved(segment: Seq<char>) -> bool {
    ||| segment == "p"@
    ||| segment == "reel"@
    ||| segment == "reels"@
    ||| segment == "tv"@
    ||| segment == "stories"@
    ||| segment == "explore"@
}

/// A path without its query and fragment, and without the slashes that it starts
/// with.
pub open spec fn bare_path(path: Seq<char>) -> Seq<char> {
    text::trimmed_start(
        text::prefix_run(path, CharSet::ExceptEither('?', '#').pred()),
        CharSet::Only('/').pred(),
    )
}

/// The first segment of a path, its query and fragment left aside; empty where
/// there is none.
pub open spec fn first_segment(path: Seq<char>) -> Seq<char> {
    text::prefix_run(bare_path(path), CharSet::Except('/').pred())
}

/// Whether another segment follows the first one of a path, its query and
/// fragment left aside. Slashes alone are no segment.
pub open spec fn goes_deeper(path: Seq<char>) -> bool {
    let bare = bare_path(path);
    let behind = bare.subrange(
        text::run_end(bare, 0, CharSet::Except('/').pred()),
        bare.len() as int,
    );
    text::trimmed_start(behind, CharSet::Only('/').pred()).len() > 0
}

/// `s` without the at signs that it starts with.
pub open spec fn without_at(s: Seq<char>) -> Seq<char> {
    text::trimmed_start(s, CharSet::Only('@').pred())
}

/// All that follows the first mention of the site.
pub open spec fn site_path(s: Seq<char>, site: int) -> Seq<char> {
    s.subrange(site + "instagram.com"@.len(), s.len() as int)
}

/// What follows the first mention of the site, up to the next one.
pub open spec fn after_site(s: Seq<char>, site: int) -> Seq<char> {
    let from = site + "instagram.com"@.len();
    match text::find_at(s, "instagram.com"@, from) {
        Some(next) => s.subrange(from, next),
        None => s.subrange(from, s.len() as int),
    }
}

/// The username in what a user entered. A URL names one by the only segment of
/// its path: a deeper path, or one that starts with a reserved segment, is that of
/// a post.
pub open spec fn username_in(input: Seq<char>) -> Result<Seq<char>, Failure<Seq<char>>> {
    let s = text::trim(input);
    if s.len() == 0 {
        Err(Failure::EmptyUsername)
    } else {
        match text::find_at(s, "instagram.com"@, 0) {
            Some(site) => {
                let first = first_segment(after_site(s, site));
                if first.len() == 0 {
                    Err(Failure::NoUsernameInUrl)
                } else if reserved(first) || goes_deeper(site_path(s, site)) {
                    Err(Failure::PostLink)
                } else {
                    Ok(without_at(first))
                }
            },
            None => if s.contains('/') || s.contains(' ') {
                Err(Failure::NotAUsername)
            } else {
                Ok(without_at(s))
            },
        }
    }
}

/// Whether a path that starts with this segment leads to something else than a
/// profile.
fn is_reserved(segment: &str) -> (r: bool)
    ensures
        r == reserved(segment@),
{
    same_text(segment, "p") || same_text(segment, "reel") || same_text(segment, "reels")
        || same_text(segment, "tv") || same_text(segment, "stories") || same_text(
        segment,
        "explore",
    )
}

/// Whether `c` is among the characters.
fn has_char(s: &Vec<char>, c: char) -> (r: bool)
    ensures
        r == s@.contains(c),
{
    let i = skip_run(s, 0, CharSet::Except(c));
    proof {
        text::lemma_run_end(s@, 0, CharSet::Except(c).pred());
        if i < s@.len() {
            assert(s@[i as int] == c);
        } else {
            assert forall|k: int| 0 <= k < s@.len() implies s@[k] != c by {
                assert(CharSet::Except(c).pred()(s@[k]));
            }
        }
    }
    i < s.len()
}

/// Whether another segment follows the first one of a path.
fn is_deeper(path: &Vec<char>) -> (r: bool)
    ensures
        r == goes_deeper(path@),
{
    let bare = trim_start_set(
        &take_set(path, CharSet::ExceptEither('?', '#')),
        CharSet::Only('/'),
    );
    let first = skip_run(&bare, 0, CharSet::Except('/'));
    let behind = chars_between(&bare, first, bare.len());
    trim_start_set(&behind, CharSet::Only('/')).len() > 0
}

/// Accepts `name`, `@name`, or any profile URL, and returns the bare username.
///
/// A profile URL has the username as its first path segment, so anything with a
/// deeper path (`/p/…`, `/reel/…`) is a post, not a profile, and is rejected:
/// pasting a post link into the profile field is an easy mistake to make.
pub fn username_from_input(input: &str) -> (r: Result<String, Error>)
    ensures
        error::outcome(r) == username_in(input@),
{
    let s = trimmed_chars(input);
    if s.len() == 0 {
        return Err(Failure::EmptyUsername);
    }
    let site = chars_of("instagram.com");
    proof {
        text::lemma_find_at(s@, site@, 0);
    }
    if let Some(at) = find(&s, &site, 0) {
        let from = at + site.len();
        proof {
            text::lemma_find_at(s@, site@, from as int);
        }
        let to = match find(&s, &site, from) {
            Some(next) => next,
            None => s.len(),
        };
        let after = chars_between(&s, from, to);
        let path = take_set(&after, CharSet::ExceptEither('?', '#'));
        let first = take_set(&trim_start_set(&path, CharSet::Only('/')), CharSet::Except('/'));
        if first.len() == 0 {
            return Err(Failure::NoUsernameInUrl);
        }
        let whole = chars_between(&s, from, s.len());
        if is_reserved(whole_string(&first).as_str()) || is_deeper(&whole) {
            return Err(Failure::PostLink);
        }
        return Ok(whole_string(&trim_start_set(&first, CharSet::Only('@'))));
    }
    if has_char(&s, '/') || has_char(&s, ' ') {
        return Err(Failure::NotAUsername);
    }
    Ok(whole_string(&trim_start_set(&s, CharSet::Only('@'))))
}

/// A name on its own, with or without an at sign in front of it, gives itself.
pub proof fn law_name_gives_itself(input: Seq<char>, name: Seq<char>)
    requires
        text::trim(input) == name || text::trim(input) == seq!['@'] + name,
        name.len() > 0,
        name[0] != '@',
        !name.contains('/'),
        !name.contains(' '),
        !text::contains(text::trim(input), "instagram.com"@),
    ensures
        username_in(input) == Ok::<Seq<char>, Failure<Seq<char>>>(name),
{
    let s = text::trim(input);
    let at = CharSet::Only('@').pred();
    text::lemma_find_at(s, "instagram.com"@, 0);
    if s == name {
        assert(text::run_end(s, 0, at) == 0);
        assert(s.subrange(0, s.len() as int) == name);
    } else {
        assert(s[0] == '@' && s[1] == name[0]);
        assert(text::run_end(s, 1, at) == 1);
        assert(text::run_end(s, 0, at) == 1);
        assert(s.subrange(1, s.len() as int) == name);
        assert forall|c: char| c != '@' && s.contains(c) implies name.contains(c) by {
            let i = choose|i: int| 0 <= i < s.len() && s[i] == c;
            assert(name[i - 1] == c);
        }
    }
}

/// Of a path that starts with a slash and a name, the name is the first segment,
/// and whether it goes deeper is told by what follows the name.
proof fn lemma_path_parts(path: Seq<char>, name: Seq<char>, after: Seq<char>)
    requires
        path == "/"@ + name + after,
        name.len() > 0,
        !name.contains('/'),
        !name.contains('?'),
        !name.contains('#'),
        after.len() == 0 || after[0] == '/' || after[0] == '?' || after[0] == '#',
    ensures
        first_segment(path) == name,
        goes_deeper(path) == (text::trimmed_start(
            text::prefix_run(after, CharSet::ExceptEither('?', '#').pred()),
            CharSet::Only('/').pred(),
        ).len() > 0),
{
    reveal_strlit("/");
    let plain = CharSet::ExceptEither('?', '#').pred();
    let slash = CharSet::Only('/').pred();
    let inner = CharSet::Except('/').pred();
    let n = name.len() as int;
    text::lemma_run_end(after, 0, plain);
    let e = text::run_end(after, 0, plain);
    let tail = text::prefix_run(after, plain);
    assert forall|k: int| 0 <= k < 1 + n + e implies plain(#[trigger] path[k]) by {
        if 1 <= k <= n {
            assert(path[k] == name[k - 1]);
            assert(name.contains(name[k - 1]));
        } else if k > n {
            assert(path[k] == after[k - 1 - n]);
        }
    }
    if e < after.len() {
        assert(path[1 + n + e] == after[e]);
    }
    text::lemma_run_end_unique(path, 0, 1 + n + e, plain);
    let cut = path.subrange(0, 1 + n + e);
    assert(cut == seq!['/'] + name + tail);
    assert(slash(cut[0]));
    assert(cut[1] == name[0]);
    assert(name.contains(name[0]));
    text::lemma_run_end_unique(cut, 0, 1, slash);
    let bare = cut.subrange(1, cut.len() as int);
    assert(bare == name + tail);
    assert(bare_path(path) == bare);
    assert forall|k: int| 0 <= k < n implies inner(#[trigger] bare[k]) by {
        assert(bare[k] == name[k]);
        assert(name.contains(name[k]));
    }
    if n < bare.len() {
        assert(bare[n] == after[0]);
        assert(plain(after[0]));
    }
    text::lemma_run_end_unique(bare, 0, n, inner);
    assert(bare.subrange(0, n) == name);
    assert(bare.subrange(n, bare.len() as int) == tail);
}

/// A profile URL gives the name in its path, with slashes behind it or not, and
/// whatever query or fragment follows.
pub proof fn law_profile_url_gives_its_name(
    input: Seq<char>,
    before: Seq<char>,
    name: Seq<char>,
    slashes: Seq<char>,
    query: Seq<char>,
)
    requires
        text::trim(input) == before + "instagram.com"@ + "/"@ + name + slashes + query,
        text::find_at(text::trim(input), "instagram.com"@, 0) == Some(before.len() as int),
        text::find_at(
            text::trim(input),
            "instagram.com"@,
            before.len() as int + "instagram.com"@.len(),
        ) is None,
        name.len() > 0,
        name[0] != '@',
        !name.contains('/'),
        !name.contains('?'),
        !name.contains('#'),
        !reserved(name),
        forall|k: int| 0 <= k < slashes.len() ==> #[trigger] slashes[k] == '/',
        query.len() == 0 || query[0] == '?' || query[0] == '#',
    ensures
        username_in(input) == Ok::<Seq<char>, Failure<Seq<char>>>(name),
{
    let s = text::trim(input);
    let plain = CharSet::ExceptEither('?', '#').pred();
    let slash = CharSet::Only('/').pred();
    let after = slashes + query;
    let n = slashes.len() as int;
    let path = site_path(s, before.len() as int);
    assert(path == "/"@ + name + after);
    assert(after_site(s, before.len() as int) == path);
    if n > 0 {
        assert(after[0] == slashes[0]);
    }
    lemma_path_parts(path, name, after);
    assert forall|k: int| 0 <= k < n implies plain(#[trigger] after[k]) by {
        assert(after[k] == slashes[k]);
    }
    text::lemma_run_end_unique(after, 0, n, plain);
    let tail = after.subrange(0, n);
    assert(tail == slashes);
    assert forall|k: int| 0 <= k < n implies slash(#[trigger] tail[k]) by {
        assert(slashes[k] == '/');
    }
    text::lemma_run_end_unique(tail, 0, n, slash);
    assert(text::run_end(name, 0, CharSet::Only('@').pred()) == 0);
    assert(name.subrange(0, name.len() as int) == name);
}

/// A URL whose path goes deeper than its first segment is that of a post, and is
/// rejected, whatever that segment is. It is rejected as a post link unless the
/// path names the site once more.
pub proof fn law_deeper_path_is_rejected(
    input: Seq<char>,
    before: Seq<char>,
    name: Seq<char>,
    slashes: Seq<char>,
    more: Seq<char>,
)
    requires
        text::trim(input) == before + "instagram.com"@ + "/"@ + name + slashes + more,
        text::find_at(text::trim(input), "instagram.com"@, 0) == Some(before.len() as int),
        name.len() > 0,
        !name.contains('/'),
        !name.contains('?'),
        !name.contains('#'),
        slashes.len() > 0,
        forall|k: int| 0 <= k < slashes.len() ==> #[trigger] slashes[k] == '/',
        more.len() > 0,
        more[0] != '/' && more[0] != '?' && more[0] != '#',
    ensures
        username_in(input) is Err,
        text::find_at(
            text::trim(input),
            "instagram.com"@,
            before.len() as int + "instagram.com"@.len(),
        ) is None ==> username_in(input) == Err::<Seq<char>, Failure<Seq<char>>>(
            Failure::PostLink,
        ),
{
    let s = text::trim(input);
    let plain = CharSet::ExceptEither('?', '#').pred();
    let slash = CharSet::Only('/').pred();
    let after = slashes + more;
    let n = slashes.len() as int;
    let path = site_path(s, before.len() as int);
    assert(path == "/"@ + name + after);
    assert(after[0] == slashes[0]);
    lemma_path_parts(path, name, after);
    text::lemma_run_end(after, 0, plain);
    let e = text::run_end(after, 0, plain);
    assert(e > n) by {
        if e < n {
            assert(after[e] == slashes[e]);
        } else if e == n {
            assert(after[e] == more[0]);
        }
    }
    let tail = after.subrange(0, e);
    assert forall|k: int| 0 <= k < n implies slash(#[trigger] tail[k]) by {
        assert(tail[k] == slashes[k]);
    }
    assert(tail[n] == more[0]);
    text::lemma_run_end_unique(tail, 0, n, slash);
    assert(goes_deeper(path));
}

/// A post link is told apart from a profile and rejected as what it is.
pub proof fn law_post_link_is_rejected(
    input: Seq<char>,
    before: Seq<char>,
    marker: Seq<char>,
    after: Seq<char>,
)
    requires
        text::trim(input) == before + "instagram.com"@ + "/"@ + marker + after,
        text::find_at(text::trim(input), "instagram.com"@, 0) == Some(before.len() as int),
        text::find_at(
            text::trim(input),
            "instagram.com"@,
            before.len() as int + "instagram.com"@.len(),
        ) is None,
        reserved(marker),
        after.len() == 0 || after[0] == '/' || after[0] == '?' || after[0] == '#',
    ensures
        username_in(input) == Err::<Seq<char>, Failure<Seq<char>>>(Failure::PostLink),
{
    let s = text::trim(input);
    reveal_strlit("p");
    reveal_strlit("reel");
    reveal_strlit("reels");
    reveal_strlit("tv");
    reveal_strlit("stories");
    reveal_strlit("explore");
    let path = site_path(s, before.len() as int);
    assert(path == "/"@ + marker + after);
    assert(after_site(s, before.len() as int) == path);
    lemma_path_parts(path, marker, after);
}

/// A blank input is asked for again; one that mentions no site and has a slash or a
/// space in it is no username.
pub proof fn law_what_is_no_username(input: Seq<char>)
    ensures
        text::trim(input).len() == 0 ==> username_in(input) == Err::<
            Seq<char>,
            Failure<Seq<char>>,
        >(Failure::EmptyUsername),
        !text::contains(text::trim(input), "instagram.com"@) && (text::trim(input).contains('/')
            || text::trim(input).contains(' ')) ==> username_in(input) == Err::<
            Seq<char>,
            Failure<Seq<char>>,
        >(Failure::NotAUsername),
{
    text::lemma_find_at(text::trim(input), "instagram.com"@, 0);
}

/// All at signs in front of a name are dropped, and nothing else is: neither from a
/// name on its own nor from the name in a URL.
pub proof fn law_at_signs_are_dropped(signs: Seq<char>, name: Seq<char>)
    requires
        forall|k: int| 0 <= k < signs.len() ==> #[trigger] signs[k] == '@',
        name.len() > 0 ==> name[0] != '@',
    ensures
        without_at(signs + name) == name,
{
    let at = CharSet::Only('@').pred();
    let all = signs + name;
    let n = signs.len() as int;
    assert forall|k: int| 0 <= k < n implies at(#[trigger] all[k]) by {
        assert(all[k] == signs[k]);
    }
    if name.len() > 0 {
        assert(all[n] == name[0]);
    }
    text::lemma_run_end_unique(all, 0, n, at);
    assert(all.subrange(n, all.len() as int) == name);
}

/// A name of any length, with at signs in front of it, gives itself, on its own and
/// as the only segment of a URL.
pub proof fn law_name_with_at_signs_gives_itself(
    input: Seq<char>,
    before: Seq<char>,
    signs: Seq<char>,
    name: Seq<char>,
)
    requires
        forall|k: int| 0 <= k < signs.len() ==> #[trigger] signs[k] == '@',
        signs.len() > 0,
        name.len() > 0 ==> name[0] != '@',
        !name.contains('/'),
        !name.contains(' '),
        !name.contains('?'),
        !name.contains('#'),
    ensures
        text::trim(input) == signs + name && !text::contains(text::trim(input), "instagram.com"@)
            ==> username_in(input) == Ok::<Seq<char>, Failure<Seq<char>>>(name),
        text::trim(input) == before + "instagram.com"@ + "/"@ + (signs + name) && text::find_at(
            text::trim(input),
            "instagram.com"@,
            0,
        ) == Some(before.len() as int) && text::find_at(
            text::trim(input),
            "instagram.com"@,
            before.len() as int + "instagram.com"@.len(),
        ) is None ==> username_in(input) == Ok::<Seq<char>, Failure<Seq<char>>>(name),
{
    let s = text::trim(input);
    let whole = signs + name;
    law_at_signs_are_dropped(signs, name);
    text::lemma_find_at(s, "instagram.com"@, 0);
    assert(whole[0] == '@') by {
        assert(signs[0] == '@');
    }
    assert forall|c: char| c != '@' && whole.contains(c) implies name.contains(c) by {
        let i = choose|i: int| 0 <= i < whole.len() && whole[i] == c;
        if i < signs.len() {
            assert(whole[i] == signs[i]);
        }
        assert(name[i - signs.len()] == c);
    }
    assert(!reserved(whole)) by {
        reveal_strlit("p");
        reveal_strlit("reel");
        reveal_strlit("reels");
        reveal_strlit("tv");
        reveal_strlit("stories");
        reveal_strlit("explore");
    }
    if s == before + "instagram.com"@ + "/"@ + whole && text::find_at(s, "instagram.com"@, 0)
        == Some(before.len() as int) && text::find_at(
        s,
        "instagram.com"@,
        before.len() as int + "instagram.com"@.len(),
    ) is None {
        let path = site_path(s, before.len() as int);
        let none = Seq::<char>::empty();
        assert(path == "/"@ + whole + none);
        assert(after_site(s, before.len() as int) == path);
        lemma_path_parts(path, whole, none);
    }
}

/// The segments that lead to something else than a profile are these and no others.
pub proof fn law_only_these_segments_are_reserved(segment: Seq<char>)
    ensures
        reserved(segment) <==> (segment == "p"@ || segment == "reel"@ || segment == "reels"@
            || segment == "tv"@ || segment == "stories"@ || segment == "explore"@),
{
}

/// A URL of the site without a segment in its path has no username in it.
pub proof fn law_url_without_a_name(
    input: Seq<char>,
    before: Seq<char>,
    slashes: Seq<char>,
    query: Seq<char>,
)
    requires
        text::trim(input) == before + "instagram.com"@ + slashes + query,
        text::find_at(text::trim(input), "instagram.com"@, 0) == Some(before.len() as int),
        text::find_at(
            text::trim(input),
            "instagram.com"@,
            before.len() as int + "instagram.com"@.len(),
        ) is None,
        forall|k: int| 0 <= k < slashes.len() ==> #[trigger] slashes[k] == '/',
        query.len() == 0 || query[0] == '?' || query[0] == '#',
    ensures
        username_in(input) == Err::<Seq<char>, Failure<Seq<char>>>(Failure::NoUsernameInUrl),
{
    let s = text::trim(input);
    let plain = CharSet::ExceptEither('?', '#').pred();
    let slash = CharSet::Only('/').pred();
    let path = after_site(s, before.len() as int);
    let n = slashes.len() as int;
    text::lemma_find_at(s, "instagram.com"@, 0);
    assert(path == slashes + query);
    assert forall|k: int| 0 <= k < n implies plain(#[trigger] path[k]) by {
        assert(path[k] == slashes[k]);
    }
    if query.len() > 0 {
        assert(path[n] == query[0]);
    }
    text::lemma_run_end_unique(path, 0, n, plain);
    let cut = path.subrange(0, n);
    assert forall|k: int| 0 <= k < n implies slash(#[trigger] cut[k]) by {
        assert(cut[k] == slashes[k]);
    }
    text::lemma_run_end_unique(cut, 0, n, slash);
    assert(bare_path(path).len() == 0);
    reveal_strlit("instagram.com");
    assert(s.len() > 0);
}

} // verus!
