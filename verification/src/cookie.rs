//! Cookie jars: reading a value from one, and gathering one from a login window
//! or from what a user pastes.
use crate::error;
use crate::error::{Error, Failure};
use crate::text;
use crate::text::{
    chars_between, chars_of, has_text, joined, joined3, push_text, skip_run, stands_at, string_of,
    strip_leading, trim_set, trimmed_chars, whole_string, CharSet,
};
use vstd::prelude::*;

verus! {

/// The value of the first cookie of this name from index `i` of a jar on. The
/// cookies of a jar stand between semicolons, with white space around them or
/// not.
pub open spec fn cookie_from(jar: Seq<char>, name: Seq<char>, i: int) -> Option<Seq<char>>
    decreases jar.len() - i,
{
    let e = text::run_end(jar, i, CharSet::Except(';').pred());
    let part = text::trim(jar.subrange(i, e));
    if text::occurs_at(part, name + "="@, 0) {
        Some(part.subrange(name.len() as int + 1, part.len() as int))
    } else if i <= e < jar.len() {
        cookie_from(jar, name, e + 1)
    } else {
        None
    }
}

/// The value of the first cookie of this name in a jar.
pub open spec fn cookie_in(jar: Seq<char>, name: Seq<char>) -> Option<Seq<char>> {
    cookie_from(jar, name, 0)
}

/// A cookie as a login window holds it.
#[derive(Debug)]
pub struct Cookie {
    pub name: String,
    pub value: String,
    pub domain: Option<String>,
}

/// A cookie, over character sequences.
pub struct CookieView {
    pub name: Seq<char>,
    pub value: Seq<char>,
    pub domain: Option<Seq<char>>,
}

impl View for Cookie {
    type V = CookieView;

    open spec fn view(&self) -> CookieView {
        CookieView {
            name: self.name@,
            value: self.value@,
            domain: text::opt_text(self.domain),
        }
    }
}

/// The cookies of a vector as views.
pub open spec fn cookie_views(v: Seq<Cookie>) -> Seq<CookieView> {
    v.map_values(|c: Cookie| c@)
}

impl CookieView {
    /// Whether the cookie belongs to the site.
    pub open spec fn of_site(self) -> bool {
        match self.domain {
            Some(d) => text::contains(d, "instagram"@),
            None => false,
        }
    }

    /// The cookie as it stands in a jar.
    pub open spec fn text(self) -> Seq<char> {
        self.name + "="@ + self.value
    }
}

/// The texts of those cookies that belong to the site, in their order.
pub open spec fn site_texts(cookies: Seq<CookieView>) -> Seq<Seq<char>>
    decreases cookies.len(),
{
    if cookies.len() == 0 {
        Seq::empty()
    } else if cookies.last().of_site() {
        site_texts(cookies.drop_last()).push(cookies.last().text())
    } else {
        site_texts(cookies.drop_last())
    }
}

/// The jar of some cookies, which a semicolon and a space part.
pub open spec fn jar_of(parts: Seq<Seq<char>>) -> Seq<char>
    decreases parts.len(),
{
    if parts.len() == 0 {
        Seq::empty()
    } else if parts.len() == 1 {
        parts[0]
    } else {
        jar_of(parts.drop_last()) + "; "@ + parts.last()
    }
}

/// Whether one of some cookies is the session.
pub open spec fn has_session(parts: Seq<Seq<char>>) -> bool {
    exists|i: int| 0 <= i < parts.len() && text::occurs_at(#[trigger] parts[i], "sessionid="@, 0)
}

/// The jar of a login window: the cookies of the site, once the session is among
/// them.
pub open spec fn session_jar(cookies: Seq<CookieView>) -> Option<Seq<char>> {
    let parts = site_texts(cookies);
    if has_session(parts) {
        Some(jar_of(parts))
    } else {
        None
    }
}

/// A pasted cookie header without white space around it and without the name of
/// the header before it.
pub open spec fn bare_header(raw: Seq<char>) -> Seq<char> {
    text::trim(text::without_leading(text::trim(raw), "Cookie:"@))
}

/// The jar in a pasted cookie header.
pub open spec fn pasted_jar(raw: Seq<char>) -> Result<Seq<char>, Failure<Seq<char>>> {
    let cleaned = bare_header(raw);
    if text::contains(cleaned, "sessionid="@) {
        Ok(cleaned)
    } else {
        Err(Failure::NoSessionInPaste)
    }
}

/// The value of the first cookie of this name in a jar.
pub fn cookie_value(jar: &str, name: &str) -> (r: Option<String>)
    ensures
        text::opt_text(r) == cookie_in(jar@, name@),
{
    let chars = chars_of(jar);
    let key = chars_of(joined(name, "=").as_str());
    let n = chars.len();
    let mut i: usize = 0;
    proof {
        reveal_strlit("=");
    }
    loop
        invariant
            chars@ == jar@,
            n == chars@.len(),
            key@ == name@ + "="@,
            "="@.len() == 1,
            0 <= i <= n,
            cookie_in(jar@, name@) == cookie_from(jar@, name@, i as int),
        decreases n - i,
    {
        let e = skip_run(&chars, i, CharSet::Except(';'));
        let part = trim_set(&chars_between(&chars, i, e), CharSet::WhiteSpace);
        if stands_at(&part, &key, 0) {
            return Some(string_of(&part, key.len(), part.len()));
        }
        if e >= n {
            return None;
        }
        i = e + 1;
    }
}

/// Whether a cookie belongs to the site.
fn belongs(cookie: &Cookie) -> (r: bool)
    ensures
        r == cookie@.of_site(),
{
    match &cookie.domain {
        Some(d) => has_text(&chars_of(d.as_str()), "instagram"),
        None => false,
    }
}

/// The texts of those cookies that belong to the site.
fn texts_of_site(cookies: &Vec<Cookie>) -> (r: Vec<String>)
    ensures
        text::texts(r@) == site_texts(cookie_views(cookies@)),
{
    let ghost all = cookie_views(cookies@);
    let mut out: Vec<String> = Vec::new();
    let mut i: usize = 0;
    while i < cookies.len()
        invariant
            all == cookie_views(cookies@),
            0 <= i <= cookies@.len(),
            text::texts(out@) == site_texts(all.subrange(0, i as int)),
        decreases cookies@.len() - i,
    {
        let ghost before = out@;
        proof {
            assert(all.subrange(0, i + 1).drop_last() == all.subrange(0, i as int));
            assert(all.subrange(0, i + 1).last() == cookies@[i as int]@);
        }
        if belongs(&cookies[i]) {
            let t = joined3(cookies[i].name.as_str(), "=", cookies[i].value.as_str());
            out.push(t);
            assert(text::texts(out@) == text::texts(before).push(t@));
        }
        i = i + 1;
    }
    assert(all.subrange(0, all.len() as int) == all);
    out
}

/// Whether one of some cookies is the session.
fn holds_session(parts: &Vec<String>) -> (r: bool)
    ensures
        r == has_session(text::texts(parts@)),
{
    let ghost all = text::texts(parts@);
    let key = chars_of("sessionid=");
    let mut i: usize = 0;
    while i < parts.len()
        invariant
            all == text::texts(parts@),
            key@ == "sessionid="@,
            0 <= i <= parts@.len(),
            forall|k: int| 0 <= k < i ==> !text::occurs_at(#[trigger] all[k], "sessionid="@, 0),
        decreases parts@.len() - i,
    {
        assert(all[i as int] == parts@[i as int]@);
        if stands_at(&chars_of(parts[i].as_str()), &key, 0) {
            return true;
        }
        i = i + 1;
    }
    false
}

/// The jar of some cookies.
fn join_jar(parts: &Vec<String>) -> (r: String)
    ensures
        r@ == jar_of(text::texts(parts@)),
{
    let ghost all = text::texts(parts@);
    let mut out = String::new();
    let mut i: usize = 0;
    assert(out@ == jar_of(all.subrange(0, 0)));
    while i < parts.len()
        invariant
            all == text::texts(parts@),
            0 <= i <= parts@.len(),
            out@ == jar_of(all.subrange(0, i as int)),
        decreases parts@.len() - i,
    {
        proof {
            assert(all.subrange(0, i + 1).drop_last() == all.subrange(0, i as int));
            assert(all.subrange(0, i + 1).last() == parts@[i as int]@);
        }
        if i > 0 {
            push_text(&mut out, "; ");
        } else {
            assert(all.subrange(0, 1)[0] == parts@[0]@);
            assert(Seq::<char>::empty() + parts@[0]@ == parts@[0]@);
        }
        push_text(&mut out, parts[i].as_str());
        i = i + 1;
    }
    assert(all.subrange(0, all.len() as int) == all);
    out
}

/// The jar of a login window: the cookies of the site, once the session is among
/// them.
pub fn login_jar(cookies: &Vec<Cookie>) -> (r: Option<String>)
    ensures
        text::opt_text(r) == session_jar(cookie_views(cookies@)),
{
    let parts = texts_of_site(cookies);
    if holds_session(&parts) {
        Some(join_jar(&parts))
    } else {
        None
    }
}

/// The jar in a cookie header that was copied from a signed-in browser.
pub fn pasted_cookies(raw: &str) -> (r: Result<String, Error>)
    ensures
        error::outcome(r) == pasted_jar(raw@),
{
    proof {
        reveal_strlit("Cookie:");
    }
    let bare = strip_leading(&trimmed_chars(raw), "Cookie:");
    let cleaned = trim_set(&bare, CharSet::WhiteSpace);
    if has_text(&cleaned, "sessionid=") {
        Ok(whole_string(&cleaned))
    } else {
        Err(Failure::NoSessionInPaste)
    }
}

/// Whether a cookie can be read back from a jar: its name has no `=`, neither
/// name nor value has a `;`, and there is no white space at either end.
pub open spec fn plain_cookie(name: Seq<char>, value: Seq<char>) -> bool {
    &&& name.len() > 0 && !text::white_space(name[0])
    &&& value.len() > 0 ==> !text::white_space(value.last())
    &&& forall|k: int| 0 <= k < name.len() ==> #[trigger] name[k] != ';' && name[k] != '='
    &&& forall|k: int| 0 <= k < value.len() ==> #[trigger] value[k] != ';'
}

/// White space before a text that has none at its ends is trimmed away.
proof fn lemma_trim_lead(s: Seq<char>, lead: Seq<char>)
    requires
        s.len() > 0,
        !text::white_space(s[0]),
        !text::white_space(s.last()),
        forall|k: int| 0 <= k < lead.len() ==> text::white_space(#[trigger] lead[k]),
    ensures
        text::trim(lead + s) == s,
{
    let p = CharSet::WhiteSpace.pred();
    let all = lead + s;
    let a = lead.len() as int;
    assert forall|k: int| 0 <= k < a implies p(#[trigger] all[k]) by {
        assert(all[k] == lead[k]);
    }
    assert(all[a] == s[0]);
    text::lemma_run_end_unique(all, 0, a, p);
    assert(all[all.len() - 1] == s.last());
    assert(text::run_start(all, a, all.len() as int, p) == all.len());
    assert(all.subrange(a, all.len() as int) == s);
}

/// A cookie starts with a name and an equals sign exactly when it has that name.
proof fn lemma_cookie_name(name: Seq<char>, value: Seq<char>, sought: Seq<char>)
    requires
        plain_cookie(name, value),
        forall|k: int| 0 <= k < sought.len() ==> #[trigger] sought[k] != '=',
    ensures
        text::occurs_at(name + "="@ + value, sought + "="@, 0) <==> name == sought,
        name == sought ==> (name + "="@ + value).subrange(
            sought.len() as int + 1,
            (name + "="@ + value).len() as int,
        ) == value,
{
    reveal_strlit("=");
    let part = name + "="@ + value;
    let key = sought + "="@;
    if text::occurs_at(part, key, 0) {
        let head = part.subrange(0, key.len() as int);
        if name.len() < sought.len() {
            assert(head[name.len() as int] == part[name.len() as int]);
            assert(key[name.len() as int] == sought[name.len() as int]);
        } else if name.len() > sought.len() {
            assert(head[sought.len() as int] == name[sought.len() as int]);
            assert(key[sought.len() as int] == '=');
        } else {
            assert forall|k: int| 0 <= k < name.len() implies name[k] == sought[k] by {
                assert(head[k] == name[k]);
                assert(key[k] == sought[k]);
            }
            assert(name == sought);
        }
    }
    if name == sought {
        assert(part.subrange(0, key.len() as int) == key);
        assert(part.subrange(sought.len() as int + 1, part.len() as int) == value);
    }
}

/// Where the cookie at index `m` of a jar starts, with the space before it.
spec fn part_start(parts: Seq<Seq<char>>, m: int) -> int {
    if m == 0 {
        0
    } else {
        jar_of(parts.subrange(0, m)).len() as int + 1
    }
}

/// What stands between the semicolons of a jar.
spec fn padded_part(parts: Seq<Seq<char>>, m: int) -> Seq<char> {
    if m == 0 {
        parts[0]
    } else {
        " "@ + parts[m]
    }
}

/// The jar of the first cookies is how the jar of all of them starts, and behind
/// it comes a semicolon.
proof fn lemma_jar_prefix(parts: Seq<Seq<char>>, m: int)
    requires
        0 < m <= parts.len(),
    ensures
        jar_of(parts.subrange(0, m)).is_prefix_of(jar_of(parts)),
        m < parts.len() ==> jar_of(parts).len() > jar_of(parts.subrange(0, m)).len() && jar_of(
            parts,
        )[jar_of(parts.subrange(0, m)).len() as int] == ';',
    decreases parts.len(),
{
    reveal_strlit("; ");
    if m == parts.len() {
        assert(parts.subrange(0, m) == parts);
    } else {
        let front = parts.drop_last();
        lemma_jar_prefix(front, m);
        assert(front.subrange(0, m) == parts.subrange(0, m));
        let short = jar_of(parts.subrange(0, m));
        let jar = jar_of(front);
        let all = jar_of(parts);
        assert(all == jar + "; "@ + parts.last());
        assert(short == jar.subrange(0, short.len() as int));
        assert(short == all.subrange(0, short.len() as int));
    }
}

/// Between its semicolons a jar holds the cookies it was made of.
proof fn lemma_jar_part(parts: Seq<Seq<char>>, m: int)
    requires
        0 <= m < parts.len(),
    ensures
        ({
            let a = part_start(parts, m);
            let e = a + padded_part(parts, m).len();
            &&& 0 <= a <= e <= jar_of(parts).len()
            &&& jar_of(parts).subrange(a, e) == padded_part(parts, m)
            &&& m + 1 < parts.len() ==> e < jar_of(parts).len() && jar_of(parts)[e] == ';'
                && part_start(parts, m + 1) == e + 1
            &&& m + 1 == parts.len() ==> e == jar_of(parts).len()
        }),
{
    reveal_strlit("; ");
    reveal_strlit(" ");
    let upto = parts.subrange(0, m + 1);
    let all = jar_of(parts);
    let head = jar_of(upto);
    let a = part_start(parts, m);
    let e = a + padded_part(parts, m).len();
    assert(upto.drop_last() == parts.subrange(0, m));
    assert(upto.last() == parts[m]);
    if m == 0 {
        assert(head == parts[0]);
    } else {
        assert(head == jar_of(parts.subrange(0, m)) + "; "@ + parts[m]);
    }
    assert(head.len() == e);
    assert(head.subrange(a, e) == padded_part(parts, m));
    lemma_jar_prefix(parts, m + 1);
    assert(head == all.subrange(0, e));
    assert(all.subrange(a, e) == head.subrange(a, e));
    if m + 1 == parts.len() {
        assert(upto == parts);
    }
}

/// What stands between two semicolons of a jar of plain cookies is one of them.
proof fn lemma_part_is_cookie(
    cookies: Seq<(Seq<char>, Seq<char>)>,
    parts: Seq<Seq<char>>,
    m: int,
)
    requires
        0 <= m < cookies.len(),
        parts.len() == cookies.len(),
        plain_cookie(cookies[m].0, cookies[m].1),
        parts[m] == cookies[m].0 + "="@ + cookies[m].1,
    ensures
        ({
            let a = part_start(parts, m);
            let e = a + padded_part(parts, m).len();
            &&& 0 <= a <= e <= jar_of(parts).len()
            &&& text::run_end(jar_of(parts), a, CharSet::Except(';').pred()) == e
            &&& text::trim(jar_of(parts).subrange(a, e)) == parts[m]
            &&& m + 1 < parts.len() ==> e < jar_of(parts).len() && part_start(parts, m + 1) == e
                + 1
            &&& m + 1 == parts.len() ==> e == jar_of(parts).len()
        }),
{
    reveal_strlit("=");
    reveal_strlit(" ");
    let jar = jar_of(parts);
    let p = CharSet::Except(';').pred();
    let (name, value) = cookies[m];
    let part = parts[m];
    let a = part_start(parts, m);
    let e = a + padded_part(parts, m).len();
    lemma_jar_part(parts, m);
    assert forall|h: int| a <= h < e implies p(#[trigger] jar[h]) by {
        assert(jar[h] == jar.subrange(a, e)[h - a]);
        let q = if m == 0 {
            h - a
        } else {
            h - a - 1
        };
        if q >= 0 {
            assert(jar[h] == part[q]);
            if q < name.len() {
                assert(part[q] == name[q]);
            } else if q > name.len() {
                assert(part[q] == value[q - name.len() - 1]);
            }
        }
    }
    text::lemma_run_end_unique(jar, a, e, p);
    assert(part[0] == name[0]);
    assert(part.last() == if value.len() > 0 {
        value.last()
    } else {
        '='
    });
    if m == 0 {
        lemma_trim_lead(part, Seq::empty());
        assert(Seq::<char>::empty() + part == part);
    } else {
        lemma_trim_lead(part, " "@);
    }
}

/// The search for a cookie in a jar of plain cookies passes over those of other
/// names.
proof fn lemma_cookie_search(
    cookies: Seq<(Seq<char>, Seq<char>)>,
    parts: Seq<Seq<char>>,
    k: int,
    m: int,
)
    requires
        0 <= m <= k < cookies.len(),
        parts.len() == cookies.len(),
        forall|j: int|
            0 <= j < cookies.len() ==> plain_cookie(
                (#[trigger] cookies[j]).0,
                cookies[j].1,
            ) && parts[j] == cookies[j].0 + "="@ + cookies[j].1,
        forall|j: int| 0 <= j < k ==> (#[trigger] cookies[j]).0 != cookies[k].0,
    ensures
        cookie_from(jar_of(parts), cookies[k].0, part_start(parts, m)) == Some(cookies[k].1),
    decreases k - m,
{
    assert(plain_cookie(cookies[m].0, cookies[m].1));
    assert(plain_cookie(cookies[k].0, cookies[k].1));
    lemma_part_is_cookie(cookies, parts, m);
    lemma_cookie_name(cookies[m].0, cookies[m].1, cookies[k].0);
    if m < k {
        lemma_cookie_search(cookies, parts, k, m + 1);
    }
}

/// A jar gives back the cookies that it was made of: the value of each name is
/// that of the first cookie of that name.
pub proof fn law_jar_reads_back(cookies: Seq<(Seq<char>, Seq<char>)>, k: int)
    requires
        0 <= k < cookies.len(),
        forall|j: int|
            0 <= j < cookies.len() ==> plain_cookie((#[trigger] cookies[j]).0, cookies[j].1),
        forall|j: int| 0 <= j < k ==> (#[trigger] cookies[j]).0 != cookies[k].0,
    ensures
        cookie_in(
            jar_of(cookies.map_values(|c: (Seq<char>, Seq<char>)| c.0 + "="@ + c.1)),
            cookies[k].0,
        ) == Some(cookies[k].1),
{
    let parts = cookies.map_values(|c: (Seq<char>, Seq<char>)| c.0 + "="@ + c.1);
    lemma_cookie_search(cookies, parts, k, 0);
}

/// A pasted header is accepted with and without its name before it, and with
/// white space around it or not: what comes of it is the jar itself.
pub proof fn law_header_name_is_dropped(jar: Seq<char>, lead: Seq<char>)
    requires
        text::contains(jar, "sessionid="@),
        !text::white_space(jar[0]),
        !text::white_space(jar.last()),
        !text::occurs_at(jar, "Cookie:"@, 0),
        lead == Seq::<char>::empty() || lead == "Cookie:"@ || lead == "Cookie: "@,
    ensures
        pasted_jar(lead + jar) == Ok::<Seq<char>, Failure<Seq<char>>>(jar),
{
    reveal_strlit("Cookie:");
    reveal_strlit("Cookie: ");
    reveal_strlit("sessionid=");
    let i = choose|i: int| text::occurs_at(jar, "sessionid="@, i);
    assert(jar.len() > 0);
    let raw = lead + jar;
    let space = if lead == "Cookie: "@ {
        seq![' ']
    } else {
        Seq::empty()
    };
    assert(raw[0] == if lead.len() > 0 {
        'C'
    } else {
        jar[0]
    });
    assert(raw.last() == jar.last());
    lemma_trim_lead(raw, Seq::empty());
    assert(Seq::<char>::empty() + raw == raw);
    let bare = text::without_leading(raw, "Cookie:"@);
    if lead.len() == 0 {
        assert(raw == jar);
        assert(bare == jar);
        lemma_trim_lead(jar, Seq::empty());
        assert(Seq::<char>::empty() + jar == jar);
    } else {
        assert(raw.subrange(0, 7) == "Cookie:"@);
        assert(text::occurs_at(raw, "Cookie:"@, 0));
        if text::occurs_at(raw, "Cookie:"@, 7) {
            assert(raw.subrange(7, 14)[0] == 'C');
            if space.len() == 0 {
                assert(jar.subrange(0, 7) == raw.subrange(7, 14));
                assert(text::occurs_at(jar, "Cookie:"@, 0));
            } else {
                assert(raw[7] == ' ');
            }
        }
        assert(text::repeats_end(raw, "Cookie:"@, 7) == 7);
        assert(bare == space + jar);
        lemma_trim_lead(jar, space);
    }
}

/// A jar is made of the cookies of the site and of no others, in their order, each
/// with its name, an equals sign and its value.
pub proof fn law_jar_holds_the_site_cookies(cookies: Seq<CookieView>)
    ensures
        site_texts(cookies) == cookies.filter(
            |c: CookieView|
                match c.domain {
                    Some(d) => text::contains(d, "instagram"@),
                    None => false,
                },
        ).map_values(|c: CookieView| c.name + "="@ + c.value),
    decreases cookies.len(),
{
    reveal(Seq::filter);
    let ours = |c: CookieView|
        match c.domain {
            Some(d) => text::contains(d, "instagram"@),
            None => false,
        };
    let told = |c: CookieView| c.name + "="@ + c.value;
    if cookies.len() > 0 {
        let front = cookies.drop_last();
        law_jar_holds_the_site_cookies(front);
        let kept = front.filter(ours);
        if ours(cookies.last()) {
            assert(cookies.filter(ours) == kept.push(cookies.last()));
            assert(kept.push(cookies.last()).map_values(told) == kept.map_values(told).push(
                told(cookies.last()),
            ));
        } else {
            assert(cookies.filter(ours) == kept);
        }
    } else {
        assert(cookies.filter(ours).map_values(told) == Seq::<Seq<char>>::empty());
    }
}

/// A login window gives a jar exactly when a cookie of the site named `sessionid`
/// is among its cookies, whatever others there are, as long as no name holds an
/// equals sign; the jar is that of all cookies of the site.
pub proof fn law_session_makes_the_jar(cookies: Seq<CookieView>)
    requires
        forall|i: int, k: int|
            0 <= i < cookies.len() && 0 <= k < cookies[i].name.len() ==> #[trigger] cookies[i].name[k]
                != '=',
    ensures
        session_jar(cookies) is Some <==> exists|i: int|
            0 <= i < cookies.len() && (#[trigger] cookies[i]).name == "sessionid"@ && (
            cookies[i].domain matches Some(d) && text::contains(d, "instagram"@)),
        session_jar(cookies) matches Some(jar) ==> jar == jar_of(site_texts(cookies)),
{
    lemma_session_among(cookies);
}

/// The session is among the texts of the site exactly when its cookie is among the
/// cookies.
proof fn lemma_session_among(cookies: Seq<CookieView>)
    requires
        forall|i: int, k: int|
            0 <= i < cookies.len() && 0 <= k < cookies[i].name.len() ==> #[trigger] cookies[i].name[k]
                != '=',
    ensures
        has_session(site_texts(cookies)) <==> exists|i: int|
            0 <= i < cookies.len() && (#[trigger] cookies[i]).name == "sessionid"@ && (
            cookies[i].domain matches Some(d) && text::contains(d, "instagram"@)),
    decreases cookies.len(),
{
    if cookies.len() > 0 {
        let front = cookies.drop_last();
        let last = cookies[cookies.len() - 1];
        let head = site_texts(front);
        let all = site_texts(cookies);
        assert(last == cookies.last());
        assert forall|i: int, k: int|
            0 <= i < front.len() && 0 <= k < front[i].name.len() implies #[trigger] front[i].name[k]
            != '=' by {
            assert(front[i] == cookies[i]);
            assert(cookies[i].name[k] != '=');
        }
        lemma_session_among(front);
        assert forall|k: int| 0 <= k < last.name.len() implies #[trigger] last.name[k] != '=' by {
            assert(cookies[cookies.len() - 1].name[k] != '=');
        }
        lemma_session_name(last.name, last.value);
        if has_session(head) {
            let j = choose|j: int|
                0 <= j < head.len() && text::occurs_at(#[trigger] head[j], "sessionid="@, 0);
            assert(all[j] == head[j]);
            let i = choose|i: int|
                0 <= i < front.len() && (#[trigger] front[i]).name == "sessionid"@ && (
                front[i].domain matches Some(d) && text::contains(d, "instagram"@));
            assert(cookies[i] == front[i]);
        }
        if last.of_site() {
            assert(all[head.len() as int] == last.text());
        }
        if has_session(all) && !has_session(head) {
            let j = choose|j: int|
                0 <= j < all.len() && text::occurs_at(#[trigger] all[j], "sessionid="@, 0);
            if j < head.len() {
                assert(all[j] == head[j]);
            }
            assert(cookies[cookies.len() - 1].name == "sessionid"@);
        }
        if exists|i: int|
            0 <= i < cookies.len() && (#[trigger] cookies[i]).name == "sessionid"@ && (
            cookies[i].domain matches Some(d) && text::contains(d, "instagram"@)) {
            let i = choose|i: int|
                0 <= i < cookies.len() && (#[trigger] cookies[i]).name == "sessionid"@ && (
                cookies[i].domain matches Some(d) && text::contains(d, "instagram"@));
            if i < front.len() {
                assert(front[i] == cookies[i]);
            } else {
                assert(text::occurs_at(all[head.len() as int], "sessionid="@, 0));
            }
        }
    }
}

/// A cookie is the session exactly when it is named so.
proof fn lemma_session_name(name: Seq<char>, value: Seq<char>)
    requires
        forall|k: int| 0 <= k < name.len() ==> #[trigger] name[k] != '=',
    ensures
        text::occurs_at(name + "="@ + value, "sessionid="@, 0) <==> name == "sessionid"@,
{
    reveal_strlit("sessionid=");
    reveal_strlit("sessionid");
    reveal_strlit("=");
    let s = name + "="@ + value;
    let key = "sessionid="@;
    if text::occurs_at(s, key, 0) {
        let head = s.subrange(0, key.len() as int);
        assert(head == key);
        if name.len() < 9 {
            assert(head[name.len() as int] == '=');
        } else if name.len() > 9 {
            assert(head[9] == name[9]);
        } else {
            assert forall|k: int| 0 <= k < 9 implies name[k] == "sessionid"@[k] by {
                assert(head[k] == name[k]);
            }
            assert(name == "sessionid"@);
        }
    }
    if name == "sessionid"@ {
        assert(s.subrange(0, key.len() as int) == key);
    }
}

/// A jar gives nothing for a name that none of its cookies has.
pub proof fn law_jar_has_no_other_cookies(
    cookies: Seq<(Seq<char>, Seq<char>)>,
    name: Seq<char>,
)
    requires
        cookies.len() > 0,
        forall|j: int|
            0 <= j < cookies.len() ==> plain_cookie((#[trigger] cookies[j]).0, cookies[j].1),
        forall|j: int| 0 <= j < cookies.len() ==> (#[trigger] cookies[j]).0 != name,
        forall|k: int| 0 <= k < name.len() ==> #[trigger] name[k] != '=',
    ensures
        cookie_in(
            jar_of(cookies.map_values(|c: (Seq<char>, Seq<char>)| c.0 + "="@ + c.1)),
            name,
        ) is None,
{
    let parts = cookies.map_values(|c: (Seq<char>, Seq<char>)| c.0 + "="@ + c.1);
    lemma_cookie_absent(cookies, parts, name, 0);
}

/// The search for a name that no cookie has comes to the end of the jar.
proof fn lemma_cookie_absent(
    cookies: Seq<(Seq<char>, Seq<char>)>,
    parts: Seq<Seq<char>>,
    name: Seq<char>,
    m: int,
)
    requires
        0 <= m < cookies.len(),
        parts.len() == cookies.len(),
        forall|j: int|
            0 <= j < cookies.len() ==> plain_cookie(
                (#[trigger] cookies[j]).0,
                cookies[j].1,
            ) && parts[j] == cookies[j].0 + "="@ + cookies[j].1 && cookies[j].0 != name,
        forall|k: int| 0 <= k < name.len() ==> #[trigger] name[k] != '=',
    ensures
        cookie_from(jar_of(parts), name, part_start(parts, m)) is None,
    decreases cookies.len() - m,
{
    assert(plain_cookie(cookies[m].0, cookies[m].1));
    lemma_part_is_cookie(cookies, parts, m);
    lemma_cookie_name(cookies[m].0, cookies[m].1, name);
    if m + 1 < cookies.len() {
        lemma_cookie_absent(cookies, parts, name, m + 1);
    }
}

/// What is pasted is taken, without the white space around it and without the name
/// of the header in front of it, exactly when a session is in it.
pub proof fn law_paste_needs_a_session(lead: Seq<char>, header: Seq<char>, tail: Seq<char>)
    requires
        forall|k: int| 0 <= k < lead.len() ==> text::white_space(#[trigger] lead[k]),
        forall|k: int| 0 <= k < tail.len() ==> text::white_space(#[trigger] tail[k]),
        header.len() > 0,
        !text::white_space(header[0]),
        !text::white_space(header[header.len() - 1]),
        !"Cookie:"@.is_prefix_of(header),
    ensures
        text::contains(header, "sessionid="@) ==> pasted_jar(lead + header + tail) == Ok::<
            Seq<char>,
            Failure<Seq<char>>,
        >(header),
        !text::contains(header, "sessionid="@) ==> pasted_jar(lead + header + tail) == Err::<
            Seq<char>,
            Failure<Seq<char>>,
        >(Failure::NoSessionInPaste),
{
    reveal_strlit("Cookie:");
    let none = Seq::<char>::empty();
    text::law_trim_takes_away_white_space(lead, header, tail);
    text::law_leading_copies_are_dropped(header, "Cookie:"@);
    text::law_trim_takes_away_white_space(none, header, none);
    assert(none + header + none == header);
}

/// A jar grows by a semicolon, a space and the next cookie; the first one stands
/// alone.
pub proof fn law_jar_grows_cookie_by_cookie(parts: Seq<Seq<char>>, next: Seq<char>)
    ensures
        jar_of(seq![next]) == next,
        parts.len() > 0 ==> jar_of(parts.push(next)) == jar_of(parts) + "; "@ + next,
{
    assert(parts.push(next).drop_last() == parts);
}

} // verus!
