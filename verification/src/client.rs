//! The requests of a signed-in session, as the web client shapes them.
//!
//! A request is a plain value here. Whoever holds the network sends it and hands
//! the reply to the functions that read it.
use crate::cdn;
use crate::cdn::unescape;
use crate::cookie;
use crate::cookie::cookie_value;
use crate::encode;
use crate::encode::urlencode;
use crate::error::{Error, Failure};
use crate::json;
use crate::json::quote_json;
use crate::post;
use crate::shortcode;
use crate::shortcode::resolve_media_id;
use crate::text;
use crate::text::{joined3, owned, push_text, trimmed_chars, whole_string};
use vstd::prelude::*;
use vstd::utf8;

verus! {

/// The id of the web client.
pub const APP_ID: &'static str = "936619743392459";

/// The id of the persisted query that the web client makes as a profile's grid
/// is scrolled.
///
/// If it is retired, the current one can be read in the console of a signed-in
/// browser tab on any profile page:
///
/// ```text
/// require("PolarisProfilePostsTabContentQuery_connection.graphql").params.id
/// ```
///
/// Every name listed in `.params.providedVariables` of the same object must
/// appear among the variables, or the server answers only "execution error".
pub const DOC_PROFILE_POSTS: &'static str = "39535953862670189";

/// The name of that query.
pub const PROFILE_POSTS: &'static str = "PolarisProfilePostsTabContentQuery_connection";

/// Sent because the browser sends one; the server does not verify it.
pub const LSD: &'static str = "AVqbxe3tYU";

/// The browser that requests present themselves as.
pub const UA: &'static str =
    "Mozilla/5.0 (Macintosh; Intel Mac OS X 10_15_7) AppleWebKit/537.36 (KHTML, like Gecko) Chrome/131.0.0.0 Safari/537.36";

/// What a request does.
#[derive(Clone, Copy, Debug, PartialEq, Eq, Structural)]
pub enum Method {
    Get,
    /// Posts the form of the request.
    Post,
}

/// A request to send: headers and form fields in their order.
#[derive(Debug)]
pub struct Request {
    pub method: Method,
    pub url: String,
    pub headers: Vec<(String, String)>,
    pub form: Vec<(String, String)>,
}

/// A request, over character sequences.
pub struct RequestView {
    pub method: Method,
    pub url: Seq<char>,
    pub headers: Seq<(Seq<char>, Seq<char>)>,
    pub form: Seq<(Seq<char>, Seq<char>)>,
}

/// Pairs of strings as pairs of character sequences.
pub open spec fn pair_views(v: Seq<(String, String)>) -> Seq<(Seq<char>, Seq<char>)> {
    v.map_values(|p: (String, String)| (p.0@, p.1@))
}

impl View for Request {
    type V = RequestView;

    open spec fn view(&self) -> RequestView {
        RequestView {
            method: self.method,
            url: self.url@,
            headers: pair_views(self.headers@),
            form: pair_views(self.form@),
        }
    }
}

/// The headers of a call of the private API.
pub open spec fn api_headers(cookies: Seq<char>) -> Seq<(Seq<char>, Seq<char>)> {
    seq![
        ("Cookie"@, cookies),
        ("X-IG-App-ID"@, APP_ID@),
        ("Accept-Language"@, "en-US,en;q=0.9"@),
    ]
}

/// The headers of a navigation to a page, as a real browser sends them. A page
/// that is not asked for like this comes stripped, without the URLs of the
/// full-size stills.
pub open spec fn doc_headers(cookies: Seq<char>) -> Seq<(Seq<char>, Seq<char>)> {
    seq![
        ("Cookie"@, cookies),
        ("User-Agent"@, UA@),
        ("Accept"@, "text/html,application/xhtml+xml,application/xml;q=0.9,*/*;q=0.8"@),
        ("Accept-Language"@, "en-US,en;q=0.9"@),
        ("Sec-Fetch-Dest"@, "document"@),
        ("Sec-Fetch-Mode"@, "navigate"@),
        ("Sec-Fetch-Site"@, "none"@),
        ("Upgrade-Insecure-Requests"@, "1"@),
    ]
}

/// A request that gets a URL with these headers.
pub open spec fn get_request(url: Seq<char>, headers: Seq<(Seq<char>, Seq<char>)>) -> RequestView {
    RequestView { method: Method::Get, url, headers, form: Seq::empty() }
}

/// The URL of the settings form, which names the signed-in user.
pub open spec fn settings_url() -> Seq<char> {
    "https://www.instagram.com/api/v1/accounts/edit/web_form_data/"@
}

/// The request for the settings form.
pub open spec fn settings_request(cookies: Seq<char>) -> RequestView {
    get_request(
        settings_url(),
        api_headers(cookies).push(("X-Requested-With"@, "XMLHttpRequest"@)).push(
            ("Referer"@, "https://www.instagram.com/accounts/edit/"@),
        ),
    )
}

/// The URL of a search for accounts.
pub open spec fn search_url(query: Seq<char>) -> Seq<char> {
    "https://www.instagram.com/api/v1/web/search/topsearch/?context=blended&query="@
        + encode::percent_encoded(utf8::encode_utf8(query)) + "&count=8"@
}

/// The request of a search for accounts, none for a blank one.
pub open spec fn search_request_of(cookies: Seq<char>, query: Seq<char>) -> Option<RequestView> {
    let q = text::trim(query);
    if q.len() == 0 {
        None
    } else {
        Some(get_request(search_url(q), api_headers(cookies)))
    }
}

/// The form of a persisted query.
pub open spec fn query_form(doc_id: Seq<char>, name: Seq<char>, variables: Seq<char>) -> Seq<
    (Seq<char>, Seq<char>),
> {
    seq![
        ("av"@, "0"@),
        ("__d"@, "www"@),
        ("__user"@, "0"@),
        ("__a"@, "1"@),
        ("__req"@, "1"@),
        ("dpr"@, "2"@),
        ("__ccg"@, "GOOD"@),
        ("lsd"@, LSD@),
        ("fb_api_caller_class"@, "RelayModern"@),
        ("fb_api_req_friendly_name"@, name),
        ("server_timestamps"@, "true"@),
        ("doc_id"@, doc_id),
        ("variables"@, variables),
    ]
}

/// The headers of a persisted query.
pub open spec fn query_headers(cookies: Seq<char>, csrf: Seq<char>, name: Seq<char>) -> Seq<
    (Seq<char>, Seq<char>),
> {
    seq![
        ("Cookie"@, cookies),
        ("X-CSRFToken"@, csrf),
        ("X-IG-App-ID"@, APP_ID@),
        ("X-FB-LSD"@, LSD@),
        ("X-FB-Friendly-Name"@, name),
        ("Origin"@, "https://www.instagram.com"@),
        ("Referer"@, "https://www.instagram.com/"@),
        ("Accept"@, "*/*"@),
        ("Accept-Language"@, "en-US,en;q=0.9"@),
    ]
}

/// The request of a persisted query. It must carry the token that its cookies
/// hold: without the header the answer is a login page.
pub open spec fn query_request(
    cookies: Seq<char>,
    doc_id: Seq<char>,
    name: Seq<char>,
    variables: Seq<char>,
) -> Result<RequestView, Failure<Seq<char>>> {
    match cookie::cookie_in(cookies, "csrftoken"@) {
        None => Err(Failure::NoCsrfToken),
        Some(csrf) => Ok(
            RequestView {
                method: Method::Post,
                url: "https://www.instagram.com/graphql/query"@,
                headers: query_headers(cookies, csrf, name),
                form: query_form(doc_id, name, variables),
            },
        ),
    }
}

/// Text in JSON, `null` where there is none.
pub open spec fn quoted_or_null(s: Option<Seq<char>>) -> Seq<char> {
    match s {
        Some(t) => json::json_quoted(t),
        None => "null"@,
    }
}

/// The variables of one page of a profile's grid: twelve posts from a cursor on.
pub open spec fn grid_variables(username: Seq<char>, after: Option<Seq<char>>) -> Seq<char> {
    "{\"__relay_internal__pv__PolarisMultiCaptionCarouselEnabledrelayprovider\":false,\"__relay_internal__pv__PolarisReelsRecoDebugOverlayEnabledrelayprovider\":false,\"__relay_internal__pv__PolarisShortDramaEnabledrelayprovider\":false,\"after\":"@
        + quoted_or_null(after)
        + ",\"before\":null,\"data\":{\"count\":12,\"include_reel_media_seen_timestamp\":true,\"include_relationship_info\":true,\"latest_besties_reel_media\":true,\"latest_reel_media\":true},\"first\":12,\"include_multi_captions\":false,\"last\":null,\"username\":"@
        + json::json_quoted(username) + "}"@
}

/// The URL of a profile.
pub open spec fn profile_url(username: Seq<char>) -> Seq<char> {
    "https://www.instagram.com/"@ + username + "/"@
}

/// The URL of a post's media reply.
pub open spec fn media_url(id: Seq<char>) -> Seq<char> {
    "https://www.instagram.com/api/v1/media/"@ + id + "/info/"@
}

/// What follows the page of a post: the page with its escapes undone, and the
/// request for the media reply of the post.
pub open spec fn after_page(cookies: Seq<char>, code: Seq<char>, page: Seq<char>) -> Result<
    (Seq<char>, RequestView),
    Failure<Seq<char>>,
> {
    let unescaped = cdn::unescaped(page);
    match shortcode::resolved_media_id(code, unescaped) {
        Ok(id) => Ok((unescaped, get_request(media_url(id), api_headers(cookies)))),
        Err(e) => Err(e),
    }
}

/// A request as it is returned, over views.
pub open spec fn request_view(r: Result<Request, Error>) -> Result<
    RequestView,
    Failure<Seq<char>>,
> {
    match r {
        Ok(request) => Ok(request@),
        Err(e) => Err(e@),
    }
}

/// Appends a pair of strings.
fn add_pair(v: &mut Vec<(String, String)>, name: &str, value: &str)
    ensures
        pair_views(final(v)@) == pair_views(old(v)@).push((name@, value@)),
{
    let ghost before = v@;
    let pair = (owned(name), owned(value));
    v.push(pair);
    assert(pair_views(v@) == pair_views(before).push((pair.0@, pair.1@)));
}

/// No pairs.
fn no_pairs() -> (r: Vec<(String, String)>)
    ensures
        pair_views(r@) == Seq::<(Seq<char>, Seq<char>)>::empty(),
{
    let r: Vec<(String, String)> = Vec::new();
    assert(pair_views(r@) == Seq::<(Seq<char>, Seq<char>)>::empty());
    r
}

/// A request that gets a URL with these headers.
fn get_with(url: String, headers: Vec<(String, String)>) -> (r: Request)
    ensures
        r@ == get_request(url@, pair_views(headers@)),
{
    Request { method: Method::Get, url, headers, form: no_pairs() }
}

/// The form of a persisted query.
fn form_of(doc_id: &str, name: &str, variables: &str) -> (r: Vec<(String, String)>)
    ensures
        pair_views(r@) == query_form(doc_id@, name@, variables@),
{
    let mut form = no_pairs();
    add_pair(&mut form, "av", "0");
    add_pair(&mut form, "__d", "www");
    add_pair(&mut form, "__user", "0");
    add_pair(&mut form, "__a", "1");
    add_pair(&mut form, "__req", "1");
    add_pair(&mut form, "dpr", "2");
    add_pair(&mut form, "__ccg", "GOOD");
    add_pair(&mut form, "lsd", LSD);
    add_pair(&mut form, "fb_api_caller_class", "RelayModern");
    add_pair(&mut form, "fb_api_req_friendly_name", name);
    add_pair(&mut form, "server_timestamps", "true");
    add_pair(&mut form, "doc_id", doc_id);
    add_pair(&mut form, "variables", variables);
    form
}

/// Text in JSON, `null` where there is none.
fn json_or_null(s: Option<&str>) -> (r: String)
    ensures
        r@ == quoted_or_null(
            match s {
                Some(t) => Some(t@),
                None => None,
            },
        ),
{
    match s {
        Some(t) => quote_json(t),
        None => owned("null"),
    }
}

/// The variables of one page of a profile's grid.
pub fn profile_variables(username: &str, after: Option<&str>) -> (r: String)
    ensures
        r@ == grid_variables(
            username@,
            match after {
                Some(t) => Some(t@),
                None => None,
            },
        ),
{
    let mut s = owned(
        "{\"__relay_internal__pv__PolarisMultiCaptionCarouselEnabledrelayprovider\":false,\"__relay_internal__pv__PolarisReelsRecoDebugOverlayEnabledrelayprovider\":false,\"__relay_internal__pv__PolarisShortDramaEnabledrelayprovider\":false,\"after\":",
    );
    push_text(&mut s, json_or_null(after).as_str());
    push_text(
        &mut s,
        ",\"before\":null,\"data\":{\"count\":12,\"include_reel_media_seen_timestamp\":true,\"include_relationship_info\":true,\"latest_besties_reel_media\":true,\"latest_reel_media\":true},\"first\":12,\"include_multi_captions\":false,\"last\":null,\"username\":",
    );
    push_text(&mut s, quote_json(username).as_str());
    push_text(&mut s, "}");
    s
}

/// A session with the site: the cookies of one account.
pub struct Client {
    cookies: String,
}

impl View for Client {
    type V = Seq<char>;

    /// The cookies of the session.
    closed spec fn view(&self) -> Seq<char> {
        self.cookies@
    }
}

impl Client {
    /// A session with these cookies. A page needs the whole jar: with the session
    /// cookie alone it comes stripped.
    pub fn new(cookies: String) -> (r: Client)
        ensures
            r@ == cookies@,
    {
        Client { cookies }
    }

    /// The headers of a call of the private API.
    fn api_pairs(&self) -> (r: Vec<(String, String)>)
        ensures
            pair_views(r@) == api_headers(self@),
    {
        let mut h = no_pairs();
        add_pair(&mut h, "Cookie", self.cookies.as_str());
        add_pair(&mut h, "X-IG-App-ID", APP_ID);
        add_pair(&mut h, "Accept-Language", "en-US,en;q=0.9");
        h
    }

    /// A call of the private API.
    pub fn api_req(&self, url: &str) -> (r: Request)
        ensures
            r@ == get_request(url@, api_headers(self@)),
    {
        get_with(owned(url), self.api_pairs())
    }

    /// A navigation to a page. It has to look like a real one, or the page comes
    /// stripped, without the URLs of the full-size stills.
    pub fn doc_req(&self, url: &str) -> (r: Request)
        ensures
            r@ == get_request(url@, doc_headers(self@)),
    {
        let mut h = no_pairs();
        add_pair(&mut h, "Cookie", self.cookies.as_str());
        add_pair(&mut h, "User-Agent", UA);
        add_pair(
            &mut h,
            "Accept",
            "text/html,application/xhtml+xml,application/xml;q=0.9,*/*;q=0.8",
        );
        add_pair(&mut h, "Accept-Language", "en-US,en;q=0.9");
        add_pair(&mut h, "Sec-Fetch-Dest", "document");
        add_pair(&mut h, "Sec-Fetch-Mode", "navigate");
        add_pair(&mut h, "Sec-Fetch-Site", "none");
        add_pair(&mut h, "Upgrade-Insecure-Requests", "1");
        assert(pair_views(h@) == doc_headers(self@));
        get_with(owned(url), h)
    }

    /// Asks which account the cookies belong to. The obvious endpoints refuse on
    /// the web API; the settings form is what reliably names the viewer.
    pub fn whoami_request(&self) -> (r: Request)
        ensures
            r@ == settings_request(self@),
    {
        let mut h = self.api_pairs();
        add_pair(&mut h, "X-Requested-With", "XMLHttpRequest");
        add_pair(&mut h, "Referer", "https://www.instagram.com/accounts/edit/");
        get_with(owned("https://www.instagram.com/api/v1/accounts/edit/web_form_data/"), h)
    }

    /// Searches for accounts by name; a blank query asks nothing.
    pub fn search_request(&self, query: &str) -> (r: Option<Request>)
        ensures
            match r {
                Some(request) => search_request_of(self@, query@) == Some(request@),
                None => search_request_of(self@, query@) is None,
            },
    {
        let q = trimmed_chars(query);
        if q.len() == 0 {
            return None;
        }
        let url = joined3(
            "https://www.instagram.com/api/v1/web/search/topsearch/?context=blended&query=",
            urlencode(whole_string(&q).as_str()).as_str(),
            "&count=8",
        );
        Some(self.api_req(url.as_str()))
    }

    /// One persisted query, as the web client sends it. The token header is
    /// mandatory and has to match the `csrftoken` cookie, so the jar is required
    /// to hold one.
    pub fn graphql(&self, doc_id: &str, name: &str, variables: &str) -> (r: Result<Request, Error>)
        ensures
            request_view(r) == query_request(self@, doc_id@, name@, variables@),
    {
        let csrf = match cookie_value(self.cookies.as_str(), "csrftoken") {
            Some(token) => token,
            None => {
                return Err(Failure::NoCsrfToken);
            },
        };
        let mut h = no_pairs();
        add_pair(&mut h, "Cookie", self.cookies.as_str());
        add_pair(&mut h, "X-CSRFToken", csrf.as_str());
        add_pair(&mut h, "X-IG-App-ID", APP_ID);
        add_pair(&mut h, "X-FB-LSD", LSD);
        add_pair(&mut h, "X-FB-Friendly-Name", name);
        add_pair(&mut h, "Origin", "https://www.instagram.com");
        add_pair(&mut h, "Referer", "https://www.instagram.com/");
        add_pair(&mut h, "Accept", "*/*");
        add_pair(&mut h, "Accept-Language", "en-US,en;q=0.9");
        assert(pair_views(h@) == query_headers(self@, csrf@, name@));
        Ok(
            Request {
                method: Method::Post,
                url: owned("https://www.instagram.com/graphql/query"),
                headers: h,
                form: form_of(doc_id, name, variables),
            },
        )
    }

    /// Asks for one page of a profile's grid, newest first: twelve posts behind
    /// the cursor that came with the page before.
    pub fn profile_page_request(&self, username: &str, after: Option<&str>) -> (r: Result<
        Request,
        Error,
    >)
        ensures
            request_view(r) == query_request(
                self@,
                DOC_PROFILE_POSTS@,
                PROFILE_POSTS@,
                grid_variables(
                    username@,
                    match after {
                        Some(t) => Some(t@),
                        None => None,
                    },
                ),
            ),
    {
        let variables = profile_variables(username, after);
        self.graphql(DOC_PROFILE_POSTS, PROFILE_POSTS, variables.as_str())
    }

    /// Asks for the page of a profile, whose description tells how many posts it
    /// has.
    pub fn profile_request(&self, username: &str) -> (r: Request)
        ensures
            r@ == get_request(profile_url(username@), doc_headers(self@)),
    {
        self.doc_req(joined3("https://www.instagram.com/", username, "/").as_str())
    }

    /// Asks for the page of a post.
    pub fn post_request(&self, shortcode: &str) -> (r: Request)
        ensures
            r@ == get_request(post::post_url(shortcode@), doc_headers(self@)),
    {
        self.doc_req(joined3("https://www.instagram.com/p/", shortcode, "/").as_str())
    }

    /// Goes on from the page of a post: undoes the escapes of the page, and asks
    /// for the media reply. One page does double duty: it quotes the full-size
    /// stills, and it names the media id of a code too long to decode.
    pub fn media_request(&self, shortcode: &str, page: &str) -> (r: Result<
        (String, Request),
        Error,
    >)
        ensures
            match r {
                Ok((unescaped, request)) => after_page(self@, shortcode@, page@) == Ok::<
                    (Seq<char>, RequestView),
                    Failure<Seq<char>>,
                >((unescaped@, request@)),
                Err(e) => after_page(self@, shortcode@, page@) == Err::<
                    (Seq<char>, RequestView),
                    Failure<Seq<char>>,
                >(e@),
            },
    {
        let unescaped = unescape(page);
        match resolve_media_id(shortcode, unescaped.as_str()) {
            Ok(id) => {
                let url = joined3(
                    "https://www.instagram.com/api/v1/media/",
                    id.as_str(),
                    "/info/",
                );
                Ok((unescaped, self.api_req(url.as_str())))
            },
            Err(e) => Err(e),
        }
    }

    /// Asks for the bytes of one media URL.
    pub fn file_request(&self, url: &str) -> (r: Request)
        ensures
            r@ == get_request(url@, seq![("Cookie"@, self@)]),
    {
        let mut h = no_pairs();
        add_pair(&mut h, "Cookie", self.cookies.as_str());
        get_with(owned(url), h)
    }
}

/// A query is sent exactly when the cookies hold a token, and the token that it
/// carries is the one that they hold.
pub proof fn law_query_carries_the_token(
    cookies: Seq<char>,
    doc_id: Seq<char>,
    name: Seq<char>,
    variables: Seq<char>,
)
    ensures
        query_request(cookies, doc_id, name, variables) is Ok <==> cookie::cookie_in(
            cookies,
            "csrftoken"@,
        ) is Some,
        query_request(cookies, doc_id, name, variables) matches Ok(request) ==> {
            &&& request.headers.contains(("Cookie"@, cookies))
            &&& request.headers.contains(
                ("X-CSRFToken"@, cookie::cookie_in(cookies, "csrftoken"@)->0),
            )
            &&& request.form.contains(("variables"@, variables))
        },
{
    if let Some(csrf) = cookie::cookie_in(cookies, "csrftoken"@) {
        let headers = query_headers(cookies, csrf, name);
        let form = query_form(doc_id, name, variables);
        assert(headers[0] == ("Cookie"@, cookies));
        assert(headers[1] == ("X-CSRFToken"@, csrf));
        assert(form[12] == ("variables"@, variables));
    }
}

/// A session made of a plain jar can send queries as soon as the jar holds a
/// token, and the token sent is the one that was put into the jar.
pub proof fn law_jar_with_token_can_query(
    cookies: Seq<(Seq<char>, Seq<char>)>,
    k: int,
    doc_id: Seq<char>,
    name: Seq<char>,
    variables: Seq<char>,
)
    requires
        0 <= k < cookies.len(),
        cookies[k].0 == "csrftoken"@,
        forall|j: int|
            0 <= j < cookies.len() ==> cookie::plain_cookie((#[trigger] cookies[j]).0, cookies[j].1),
        forall|j: int| 0 <= j < k ==> (#[trigger] cookies[j]).0 != "csrftoken"@,
    ensures
        query_request(
            cookie::jar_of(cookies.map_values(|c: (Seq<char>, Seq<char>)| c.0 + "="@ + c.1)),
            doc_id,
            name,
            variables,
        ) matches Ok(request) && request.headers.contains(("X-CSRFToken"@, cookies[k].1)),
{
    let jar = cookie::jar_of(cookies.map_values(|c: (Seq<char>, Seq<char>)| c.0 + "="@ + c.1));
    cookie::law_jar_reads_back(cookies, k);
    law_query_carries_the_token(jar, doc_id, name, variables);
}

/// Every call of the private API carries the cookies and the id of the web client;
/// the request for the settings form also says where it comes from.
pub proof fn law_api_calls_carry_the_cookies(cookies: Seq<char>)
    ensures
        api_headers(cookies).len() == 3,
        api_headers(cookies).contains(("Cookie"@, cookies)),
        api_headers(cookies).contains(("X-IG-App-ID"@, "936619743392459"@)),
        api_headers(cookies).contains(("Accept-Language"@, "en-US,en;q=0.9"@)),
        settings_request(cookies).method == Method::Get,
        settings_request(cookies).url
            == "https://www.instagram.com/api/v1/accounts/edit/web_form_data/"@,
        api_headers(cookies).is_prefix_of(settings_request(cookies).headers),
        settings_request(cookies).headers.contains(("X-Requested-With"@, "XMLHttpRequest"@)),
        settings_request(cookies).headers.contains(
            ("Referer"@, "https://www.instagram.com/accounts/edit/"@),
        ),
        settings_request(cookies).headers.len() == 5,
{
    let h = api_headers(cookies);
    assert(h[0] == ("Cookie"@, cookies));
    assert(h[1] == ("X-IG-App-ID"@, "936619743392459"@));
    assert(h[2] == ("Accept-Language"@, "en-US,en;q=0.9"@));
    let s = settings_request(cookies).headers;
    assert(h == s.subrange(0, 3));
    assert(s[3] == ("X-Requested-With"@, "XMLHttpRequest"@));
    assert(s[4] == ("Referer"@, "https://www.instagram.com/accounts/edit/"@));
}

/// A request for a page carries the cookies and looks like the navigation of a real
/// browser.
pub proof fn law_page_requests_look_like_navigation(cookies: Seq<char>)
    ensures
        doc_headers(cookies).len() == 8,
        doc_headers(cookies).contains(("Cookie"@, cookies)),
        doc_headers(cookies).contains(("User-Agent"@, UA@)),
        doc_headers(cookies).contains(
            ("Accept"@, "text/html,application/xhtml+xml,application/xml;q=0.9,*/*;q=0.8"@),
        ),
        doc_headers(cookies).contains(("Accept-Language"@, "en-US,en;q=0.9"@)),
        doc_headers(cookies).contains(("Sec-Fetch-Dest"@, "document"@)),
        doc_headers(cookies).contains(("Sec-Fetch-Mode"@, "navigate"@)),
        doc_headers(cookies).contains(("Sec-Fetch-Site"@, "none"@)),
        doc_headers(cookies).contains(("Upgrade-Insecure-Requests"@, "1"@)),
{
    let h = doc_headers(cookies);
    assert(h[0] == ("Cookie"@, cookies));
    assert(h[1] == ("User-Agent"@, UA@));
    assert(h[2] == (
        "Accept"@,
        "text/html,application/xhtml+xml,application/xml;q=0.9,*/*;q=0.8"@,
    ));
    assert(h[3] == ("Accept-Language"@, "en-US,en;q=0.9"@));
    assert(h[4] == ("Sec-Fetch-Dest"@, "document"@));
    assert(h[5] == ("Sec-Fetch-Mode"@, "navigate"@));
    assert(h[6] == ("Sec-Fetch-Site"@, "none"@));
    assert(h[7] == ("Upgrade-Insecure-Requests"@, "1"@));
}

/// A search asks nothing for a blank query. Any other query is sent without the
/// white space around it, so that decoding its part of the URL gives it back.
pub proof fn law_search_sends_the_query(cookies: Seq<char>, query: Seq<char>)
    ensures
        text::trim(query).len() == 0 ==> search_request_of(cookies, query) is None,
        text::trim(query).len() > 0 ==> (search_request_of(cookies, query) matches Some(request)
            && {
            &&& request.method == Method::Get
            &&& request.headers == api_headers(cookies)
            &&& exists|sent: Seq<char>|
                request.url
                    == "https://www.instagram.com/api/v1/web/search/topsearch/?context=blended&query="@
                    + sent + "&count=8"@ && #[trigger] encode::percent_decoded(sent, 0)
                    == utf8::encode_utf8(text::trim(query))
        }),
{
    let q = utf8::encode_utf8(text::trim(query));
    encode::law_encoding_reads_back(q);
    assert(encode::percent_decoded(encode::percent_encoded(q), 0) == q);
}

/// A query names itself and its document in its form and its headers, and posts
/// what it is given.
pub proof fn law_query_names_its_document(
    cookies: Seq<char>,
    doc_id: Seq<char>,
    name: Seq<char>,
    variables: Seq<char>,
)
    ensures
        query_request(cookies, doc_id, name, variables) matches Ok(request) ==> {
            &&& request.method == Method::Post
            &&& request.url == "https://www.instagram.com/graphql/query"@
            &&& request.form.len() == 13 && request.headers.len() == 9
            &&& request.form.contains(("doc_id"@, doc_id))
            &&& request.form.contains(("fb_api_req_friendly_name"@, name))
            &&& request.form.contains(("variables"@, variables))
            &&& request.form.contains(("lsd"@, LSD@))
            &&& request.headers.contains(("X-FB-Friendly-Name"@, name))
            &&& request.headers.contains(("X-FB-LSD"@, LSD@))
            &&& request.headers.contains(("X-IG-App-ID"@, "936619743392459"@))
        },
{
    if let Some(csrf) = cookie::cookie_in(cookies, "csrftoken"@) {
        let headers = query_headers(cookies, csrf, name);
        let form = query_form(doc_id, name, variables);
        assert(form[7] == ("lsd"@, LSD@));
        assert(form[9] == ("fb_api_req_friendly_name"@, name));
        assert(form[11] == ("doc_id"@, doc_id));
        assert(form[12] == ("variables"@, variables));
        assert(headers[2] == ("X-IG-App-ID"@, "936619743392459"@));
        assert(headers[3] == ("X-FB-LSD"@, LSD@));
        assert(headers[4] == ("X-FB-Friendly-Name"@, name));
    }
}

/// The variables of a grid page name the profile and the cursor, quoted as JSON, or
/// `null` for the first page, and are the same in all else for every profile and
/// every page.
pub proof fn law_variables_name_profile_and_cursor(
    username: Seq<char>,
    other: Seq<char>,
    cursor: Seq<char>,
    after: Option<Seq<char>>,
)
    ensures
        ("\"username\":"@ + json::json_quoted(username) + "}"@).is_suffix_of(
            grid_variables(username, after),
        ),
        grid_variables(username, after).take(
            grid_variables(username, after).len() - json::json_quoted(username).len() - 1,
        ) == grid_variables(other, after).take(
            grid_variables(other, after).len() - json::json_quoted(other).len() - 1,
        ),
        text::contains(
            grid_variables(username, Some(cursor)),
            "\"after\":"@ + json::json_quoted(cursor) + ",\"before\":null"@,
        ),
        text::contains(grid_variables(username, None), "\"after\":null,\"before\":null"@),
        grid_variables(username, Some(cursor)).len() - json::json_quoted(cursor).len()
            == grid_variables(username, None).len() - 4,
{
    let a =
        "{\"__relay_internal__pv__PolarisMultiCaptionCarouselEnabledrelayprovider\":false,\"__relay_internal__pv__PolarisReelsRecoDebugOverlayEnabledrelayprovider\":false,\"__relay_internal__pv__PolarisShortDramaEnabledrelayprovider\":false,\"after\":"@;
    let b =
        ",\"before\":null,\"data\":{\"count\":12,\"include_reel_media_seen_timestamp\":true,\"include_relationship_info\":true,\"latest_besties_reel_media\":true,\"latest_reel_media\":true},\"first\":12,\"include_multi_captions\":false,\"last\":null,\"username\":"@;
    let start = "\"after\":"@;
    let next = ",\"before\":null"@;
    let user = "\"username\":"@;
    reveal_strlit("\"after\":");
    reveal_strlit(",\"before\":null");
    reveal_strlit("\"username\":");
    reveal_strlit("null");
    reveal_strlit("}");
    reveal_strlit("\"after\":null,\"before\":null");
    reveal_strlit(
        "{\"__relay_internal__pv__PolarisMultiCaptionCarouselEnabledrelayprovider\":false,\"__relay_internal__pv__PolarisReelsRecoDebugOverlayEnabledrelayprovider\":false,\"__relay_internal__pv__PolarisShortDramaEnabledrelayprovider\":false,\"after\":",
    );
    reveal_strlit(
        ",\"before\":null,\"data\":{\"count\":12,\"include_reel_media_seen_timestamp\":true,\"include_relationship_info\":true,\"latest_besties_reel_media\":true,\"latest_reel_media\":true},\"first\":12,\"include_multi_captions\":false,\"last\":null,\"username\":",
    );
    let head = a.subrange(0, a.len() - 8);
    let rest = b.subrange(14, b.len() as int);
    let middle = b.subrange(0, b.len() - 11);
    assert(a == head + start);
    assert(b == next + rest);
    assert(b == middle + user);
    assert("\"after\":null,\"before\":null"@ == start + "null"@ + next);
    lemma_variables_parts(a, b, head, start, next, rest, middle, user, username, after);
    lemma_variables_parts(a, b, head, start, next, rest, middle, user, other, after);
    lemma_variables_parts(a, b, head, start, next, rest, middle, user, username, Some(cursor));
    lemma_variables_parts(a, b, head, start, next, rest, middle, user, username, None);
}

/// Where the name and the cursor stand in text that frames them.
proof fn lemma_variables_parts(
    a: Seq<char>,
    b: Seq<char>,
    head: Seq<char>,
    start: Seq<char>,
    next: Seq<char>,
    rest: Seq<char>,
    middle: Seq<char>,
    user: Seq<char>,
    username: Seq<char>,
    after: Option<Seq<char>>,
)
    requires
        a == head + start,
        b == next + rest,
        b == middle + user,
        "}"@.len() == 1,
    ensures
        ({
            let all = a + quoted_or_null(after) + b + json::json_quoted(username) + "}"@;
            &&& (user + json::json_quoted(username) + "}"@).is_suffix_of(all)
            &&& all.take(all.len() - json::json_quoted(username).len() - 1) == a
                + quoted_or_null(after) + b
            &&& text::contains(all, start + quoted_or_null(after) + next)
        }),
{
    let q = quoted_or_null(after);
    let u = json::json_quoted(username);
    let all = a + q + b + u + "}"@;
    let tail = user + u + "}"@;
    let mark = start + q + next;
    assert(all == (a + q + middle) + tail);
    assert(all.subrange(all.len() - tail.len(), all.len() as int) == tail);
    assert(all.take(all.len() - u.len() - 1) == a + q + b);
    let i = head.len() as int;
    assert(all == head + mark + (rest + u + "}"@));
    assert(all.subrange(i, i + mark.len()) == mark);
    assert(text::occurs_at(all, mark, i));
}

/// The page of a post leads on to its media reply exactly when the media id is
/// known; the page goes on unescaped.
pub proof fn law_page_leads_to_the_media_reply(
    cookies: Seq<char>,
    code: Seq<char>,
    page: Seq<char>,
)
    ensures
        match shortcode::resolved_media_id(code, cdn::unescaped(page)) {
            Ok(id) => after_page(cookies, code, page) matches Ok((unescaped, request)) && {
                &&& unescaped == cdn::unescaped(page)
                &&& request.method == Method::Get
                &&& request.url == "https://www.instagram.com/api/v1/media/"@ + id + "/info/"@
                &&& request.headers == api_headers(cookies)
            },
            Err(e) => after_page(cookies, code, page) == Err::<
                (Seq<char>, RequestView),
                Failure<Seq<char>>,
            >(e),
        },
        profile_url(code) == "https://www.instagram.com/"@ + code + "/"@,
        post::post_url(code) == "https://www.instagram.com/p/"@ + code + "/"@,
{
}

/// A request that gets a URL asks for that URL, with the headers that it is given
/// and without a form.
pub proof fn law_get_asks_for_its_url(url: Seq<char>, headers: Seq<(Seq<char>, Seq<char>)>)
    ensures
        get_request(url, headers).method == Method::Get,
        get_request(url, headers).url == url,
        get_request(url, headers).headers == headers,
        get_request(url, headers).form.len() == 0,
{
}

} // verus!
