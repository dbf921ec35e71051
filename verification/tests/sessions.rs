//! Cookies, requests, logins and accounts.
use instagrab::accounts::{
    auth_answer, load_accounts, no_account_state, snapshot_of, Account, Accounts,
};
use instagrab::client::{
    profile_variables, Client, Method, Request, APP_ID, DOC_PROFILE_POSTS, LSD, PROFILE_POSTS, UA,
};
use instagrab::cookie::{cookie_value, login_jar, pasted_cookies, Cookie};
use instagrab::login::{
    accept_captured, accept_pasted, capture_jar, store_login, LoginAction, LoginEvent, LoginWatch,
};

#[test]
fn reads_cookie_values() {
    let jar = "mid=abc; csrftoken=tok-1; sessionid=s%3Ax";
    assert_eq!(cookie_value(jar, "csrftoken").as_deref(), Some("tok-1"));
    assert_eq!(cookie_value(jar, "sessionid").as_deref(), Some("s%3Ax"));
    assert_eq!(cookie_value(jar, "token").as_deref(), None);
}

#[test]
fn cookies_in_odd_jars() {
    let get = |jar, name| cookie_value(jar, name);
    assert_eq!(get(" a = 1 ;b=2=3;b=4;c=", "b").as_deref(), Some("2=3"));
    assert_eq!(get(" a = 1 ;b=2=3;b=4;c=", "a"), None);
    assert_eq!(get(" a = 1 ;b=2=3;b=4;c=", "a ").as_deref(), Some(" 1"));
    assert_eq!(get("a;b=2;c=", "c").as_deref(), Some(""));
    assert_eq!(get("", "a"), None);
    assert_eq!(get(";;a=1", "a").as_deref(), Some("1"));
    assert_eq!(get("=x", "").as_deref(), Some("x"));
}

fn cookie(name: &str, value: &str, domain: Option<&str>) -> Cookie {
    Cookie {
        name: name.to_string(),
        value: value.to_string(),
        domain: domain.map(|d| d.to_string()),
    }
}

fn site(name: &str, value: &str) -> Cookie {
    cookie(name, value, Some(".instagram.com"))
}

#[test]
fn login_jar_needs_a_session() {
    assert_eq!(login_jar(&vec![]), None);
    assert_eq!(login_jar(&vec![site("mid", "1")]), None);
    assert_eq!(
        login_jar(&vec![cookie("sessionid", "s", Some(".example.com"))]),
        None
    );
    assert_eq!(login_jar(&vec![cookie("sessionid", "s", None)]), None);
    let jar = login_jar(&vec![
        site("mid", "1"),
        cookie("other", "2", Some(".facebook.com")),
        site("sessionid", "s"),
        site("csrftoken", "t"),
    ])
    .unwrap();
    assert_eq!(jar, "mid=1; sessionid=s; csrftoken=t");
    // What was put in can be read back.
    assert_eq!(cookie_value(&jar, "mid").as_deref(), Some("1"));
    assert_eq!(cookie_value(&jar, "sessionid").as_deref(), Some("s"));
    assert_eq!(cookie_value(&jar, "csrftoken").as_deref(), Some("t"));
}

#[test]
fn pasted_headers_are_cleaned() {
    for raw in [
        "sessionid=s; mid=1",
        "  sessionid=s; mid=1\n",
        "Cookie: sessionid=s; mid=1",
        "Cookie:Cookie:\tsessionid=s; mid=1",
    ] {
        assert_eq!(pasted_cookies(raw).unwrap(), "sessionid=s; mid=1");
    }
    for raw in ["", "Cookie: mid=1", "sessionid"] {
        assert_eq!(
            pasted_cookies(raw).unwrap_err().message(),
            "That doesn't contain a sessionid= cookie."
        );
    }
}

fn header<'a>(r: &'a Request, name: &str) -> Option<&'a str> {
    r.headers
        .iter()
        .find(|(n, _)| n == name)
        .map(|(_, v)| v.as_str())
}

fn names(r: &Request) -> Vec<&str> {
    r.headers.iter().map(|(n, _)| n.as_str()).collect()
}

#[test]
fn api_and_page_requests() {
    let c = Client::new("a=1".to_string());
    let api = c.api_req("https://u");
    assert_eq!(api.method, Method::Get);
    assert_eq!(api.url, "https://u");
    assert_eq!(names(&api), ["Cookie", "X-IG-App-ID", "Accept-Language"]);
    assert_eq!(header(&api, "Cookie"), Some("a=1"));
    assert_eq!(header(&api, "X-IG-App-ID"), Some("936619743392459"));
    assert!(api.form.is_empty());

    let doc = c.post_request("ABC");
    assert_eq!(doc.url, "https://www.instagram.com/p/ABC/");
    assert_eq!(header(&doc, "Sec-Fetch-Dest"), Some("document"));
    assert_eq!(header(&doc, "Sec-Fetch-Mode"), Some("navigate"));
    assert_eq!(header(&doc, "Sec-Fetch-Site"), Some("none"));
    assert_eq!(header(&doc, "Upgrade-Insecure-Requests"), Some("1"));
    assert_eq!(
        header(&doc, "Accept"),
        Some("text/html,application/xhtml+xml,application/xml;q=0.9,*/*;q=0.8")
    );
    assert_eq!(header(&doc, "Cookie"), Some("a=1"));
    assert_eq!(header(&doc, "User-Agent"), Some(UA));
    assert_eq!(
        c.profile_request("user").url,
        "https://www.instagram.com/user/"
    );

    let who = c.whoami_request();
    assert_eq!(
        who.url,
        "https://www.instagram.com/api/v1/accounts/edit/web_form_data/"
    );
    assert_eq!(header(&who, "X-Requested-With"), Some("XMLHttpRequest"));
    assert_eq!(
        header(&who, "Referer"),
        Some("https://www.instagram.com/accounts/edit/")
    );

    let file = c.file_request("https://cdn/x");
    assert_eq!(file.url, "https://cdn/x");
    assert_eq!(names(&file), ["Cookie"]);
    assert!(UA.starts_with("Mozilla/5.0 (Macintosh; Intel Mac OS X 10_15_7) AppleWebKit/537.36"));
}

#[test]
fn search_requests() {
    let c = Client::new("a=1".to_string());
    assert!(c.search_request(" \n").is_none());
    assert_eq!(
        c.search_request(" two words ").unwrap().url,
        "https://www.instagram.com/api/v1/web/search/topsearch/?context=blended&query=two%20words&count=8"
    );
}

#[test]
fn queries_carry_the_token() {
    let c = Client::new("mid=1; csrftoken=tok; sessionid=s".to_string());
    let r = c.graphql("42", "Name", "{}").unwrap();
    assert_eq!(r.method, Method::Post);
    assert_eq!(r.url, "https://www.instagram.com/graphql/query");
    assert_eq!(
        names(&r),
        [
            "Cookie",
            "X-CSRFToken",
            "X-IG-App-ID",
            "X-FB-LSD",
            "X-FB-Friendly-Name",
            "Origin",
            "Referer",
            "Accept",
            "Accept-Language"
        ]
    );
    assert_eq!(header(&r, "X-CSRFToken"), Some("tok"));
    assert_eq!(header(&r, "X-IG-App-ID"), Some(APP_ID));
    assert_eq!(header(&r, "X-FB-LSD"), Some(LSD));
    assert_eq!(header(&r, "X-FB-Friendly-Name"), Some("Name"));
    let form: Vec<(&str, &str)> = r
        .form
        .iter()
        .map(|(k, v)| (k.as_str(), v.as_str()))
        .collect();
    assert_eq!(
        form,
        [
            ("av", "0"),
            ("__d", "www"),
            ("__user", "0"),
            ("__a", "1"),
            ("__req", "1"),
            ("dpr", "2"),
            ("__ccg", "GOOD"),
            ("lsd", LSD),
            ("fb_api_caller_class", "RelayModern"),
            ("fb_api_req_friendly_name", "Name"),
            ("server_timestamps", "true"),
            ("doc_id", "42"),
            ("variables", "{}"),
        ]
    );
    let none = Client::new("sessionid=s".to_string());
    assert_eq!(
        none.graphql("42", "Name", "{}").unwrap_err().message(),
        "the stored cookies have no csrftoken — sign in again"
    );
}

#[test]
fn grid_variables_are_json() {
    let odd: String = ('\0'..'\u{20}').chain("\"\\/\u{7f}\u{e9}\u{2028}\u{1f600}".chars()).collect();
    let text = profile_variables(&odd, Some("cursor\"1"));
    let v: serde_json::Value = serde_json::from_str(&text).unwrap();
    assert_eq!(v["username"].as_str(), Some(odd.as_str()));
    assert_eq!(v["after"].as_str(), Some("cursor\"1"));
    assert_eq!(v["first"].as_u64(), Some(12));
    assert_eq!(v["data"]["count"].as_u64(), Some(12));
    assert_eq!(v["data"]["include_relationship_info"].as_bool(), Some(true));
    assert!(v["before"].is_null() && v["last"].is_null());
    assert_eq!(v.as_object().unwrap().len(), 10);
    assert_eq!(v["data"].as_object().unwrap().len(), 5);
    // The text is the one that the serialiser gives for this document.
    assert_eq!(v.to_string(), text);
    let first = profile_variables("u", None);
    let v: serde_json::Value = serde_json::from_str(&first).unwrap();
    assert!(v["after"].is_null());
}

#[test]
fn grid_requests() {
    let c = Client::new("csrftoken=t".to_string());
    let r = c.profile_page_request("user", Some("cur")).unwrap();
    let field = |n: &str| {
        r.form
            .iter()
            .find(|(k, _)| k == n)
            .map(|(_, v)| v.clone())
            .unwrap()
    };
    assert_eq!(field("doc_id"), DOC_PROFILE_POSTS);
    assert_eq!(field("doc_id"), "39535953862670189");
    assert_eq!(field("fb_api_req_friendly_name"), PROFILE_POSTS);
    assert_eq!(field("variables"), profile_variables("user", Some("cur")));
    assert!(Client::new(String::new())
        .profile_page_request("user", None)
        .is_err());
}

#[test]
fn media_request_follows_the_page() {
    let c = Client::new("a=1".to_string());
    let (page, r) = c.media_request("BA", "x\\/y").unwrap();
    assert_eq!(page, "x/y");
    assert_eq!(r.url, "https://www.instagram.com/api/v1/media/64/info/");
    let (_, r) = c
        .media_request("ABCDEFGHIJKLM", "instagram:\\/\\/media?id=1234567890")
        .unwrap();
    assert_eq!(
        r.url,
        "https://www.instagram.com/api/v1/media/1234567890/info/"
    );
    assert_eq!(
        c.media_request("ABCDEFGHIJKLM", "").unwrap_err().message(),
        "couldn't find a media id on the page for ABCDEFGHIJKLM"
    );
}

#[test]
fn watch_waits_for_a_name() {
    let mut w = LoginWatch::new();
    assert!(matches!(w.next(LoginEvent::Opened), LoginAction::Poll));
    assert!(matches!(w.next(LoginEvent::Unreadable), LoginAction::Poll));
    assert!(matches!(
        w.next(LoginEvent::Cookies(vec![site("mid", "1")])),
        LoginAction::Poll
    ));
    let LoginAction::Identify(jar) = w.next(LoginEvent::Cookies(vec![site("sessionid", "s")])) else {
        panic!("a session should be asked for its name");
    };
    assert_eq!(jar, "sessionid=s");
    assert!(matches!(w.next(LoginEvent::Refused), LoginAction::Poll));
    // A name that nothing was asked about is no answer.
    assert!(matches!(
        w.next(LoginEvent::Named("me".to_string())),
        LoginAction::Poll
    ));
    let cookies = vec![site("sessionid", "t"), site("mid", "1")];
    assert!(matches!(
        w.next(LoginEvent::Cookies(cookies)),
        LoginAction::Identify(_)
    ));
    let LoginAction::Store { name, jar } = w.next(LoginEvent::Named("me".to_string())) else {
        panic!("a named session should be stored");
    };
    // What is stored is the jar that was asked about last.
    assert_eq!((name.as_str(), jar.as_str()), ("me", "sessionid=t; mid=1"));
    assert!(matches!(w.next(LoginEvent::Gone), LoginAction::Cancel));
}

#[test]
fn watch_gives_up() {
    let mut w = LoginWatch::new();
    let mut polls = 0;
    while matches!(w.next(LoginEvent::Refused), LoginAction::Poll) {
        polls += 1;
    }
    assert_eq!(polls, 300);
    assert!(matches!(w.next(LoginEvent::Refused), LoginAction::TimeOut));
}

#[test]
fn capture_on_demand() {
    assert_eq!(
        capture_jar(None).unwrap_err().message(),
        "The login window isn't open."
    );
    assert_eq!(
        capture_jar(Some(vec![site("mid", "1")])).unwrap_err().message(),
        "No session cookie yet — finish logging in, then press Done."
    );
    assert_eq!(
        capture_jar(Some(vec![site("sessionid", "s")])).unwrap(),
        "sessionid=s"
    );
}

fn account(name: &str, cookies: &str) -> Account {
    Account {
        username: name.to_string(),
        cookies: cookies.to_string(),
    }
}

fn listed(a: &Accounts) -> Vec<(&str, &str)> {
    a.accounts
        .iter()
        .map(|x| (x.username.as_str(), x.cookies.as_str()))
        .collect()
}

#[test]
fn upserting_and_switching() {
    let mut a = Accounts::default();
    assert_eq!(a.active_cookies(), None);
    a.upsert("x".to_string(), "1".to_string());
    a.upsert("y".to_string(), "2".to_string());
    a.upsert("x".to_string(), "3".to_string());
    assert_eq!(listed(&a), [("x", "3"), ("y", "2")]);
    assert_eq!(a.active, "x");
    assert_eq!(a.active_cookies().as_deref(), Some("3"));
    assert!(a.switch_to("y").is_ok());
    assert_eq!(a.active_cookies().as_deref(), Some("2"));
    assert_eq!(
        a.switch_to("z").unwrap_err().message(),
        "no stored account called @z"
    );
    assert_eq!(a.active, "y");
}

#[test]
fn removing_accounts() {
    let mut a = Accounts::default();
    for (n, c) in [("x", "1"), ("y", "2"), ("z", "3")] {
        a.upsert(n.to_string(), c.to_string());
    }
    a.remove("y");
    assert_eq!(listed(&a), [("x", "1"), ("z", "3")]);
    assert_eq!(a.active, "z");
    a.remove("z");
    assert_eq!(a.active, "x");
    a.remove("nobody");
    assert_eq!(listed(&a), [("x", "1")]);
    a.remove("x");
    assert_eq!(a.active, "");
    assert!(a.accounts.is_empty());
}

#[test]
fn sessions_need_cookies() {
    let mut a = Accounts::default();
    assert_eq!(
        a.session_cookies().unwrap_err().message(),
        "Not signed in — add an account first."
    );
    a.upsert("x".to_string(), String::new());
    assert_eq!(a.active_cookies().as_deref(), Some(""));
    assert_eq!(a.usable_cookies(), None);
    assert!(a.session_cookies().is_err());
    a.upsert("x".to_string(), "c".to_string());
    assert_eq!(a.session_cookies().unwrap(), "c");
}

#[test]
fn loading_accounts() {
    let stored = Accounts {
        active: "x".to_string(),
        accounts: vec![account("x", "1")],
    };
    let a = load_accounts(Some(stored), Some("legacy"));
    assert_eq!(listed(&a), [("x", "1")]);
    let a = load_accounts(None, Some(" sessionid=s\n"));
    assert_eq!(listed(&a), [("(unknown)", "sessionid=s")]);
    assert_eq!(a.active, "(unknown)");
    assert!(load_accounts(None, Some(" \n")).accounts.is_empty());
    let a = load_accounts(None, None);
    assert!(a.accounts.is_empty() && a.active.is_empty());
}

#[test]
fn legacy_account_is_labelled() {
    let mut a = load_accounts(None, Some("sessionid=s"));
    let (state, changed) = auth_answer(&mut a, Ok("me".to_string()));
    assert!(changed && state.signed_in);
    assert_eq!(state.username, "me");
    assert_eq!(state.detail, "signed in as @me");
    assert_eq!(state.accounts, ["me"]);
    assert_eq!(listed(&a), [("me", "sessionid=s")]);
    let (_, changed) = auth_answer(&mut a, Ok("me".to_string()));
    assert!(!changed);
}

#[test]
fn invalid_sessions_are_shown() {
    let mut a = load_accounts(None, Some("sessionid=s"));
    let (state, changed) = auth_answer(&mut a, Err("not signed in (HTTP 401)".to_string()));
    assert!(!changed && !state.signed_in);
    assert_eq!(state.detail, "session invalid — not signed in (HTTP 401)");
    assert_eq!(state.accounts, ["(unknown)"]);
    let none = no_account_state(&Accounts::default());
    assert!(!none.signed_in && none.username.is_empty());
    assert_eq!(none.detail, "no account added yet");
}

#[test]
fn stored_logins_are_shown() {
    let mut a = Accounts::default();
    a.upsert("x".to_string(), "1".to_string());
    let state = store_login(&mut a, "me".to_string(), "jar".to_string());
    assert_eq!(state.detail, "signed in as @me");
    assert_eq!(state.username, "me");
    assert_eq!(state.accounts, ["x", "me"]);
    assert_eq!(a.active_cookies().as_deref(), Some("jar"));
    let shown = snapshot_of(&a, true, String::new());
    assert_eq!(shown.accounts, state.accounts);
    assert!(shown.detail.is_empty());
}

#[test]
fn refused_sessions_change_nothing() {
    let mut a = Accounts::default();
    a.upsert("x".to_string(), "1".to_string());
    assert_eq!(
        accept_captured(&mut a, "jar".to_string(), Err("why".to_string()))
            .unwrap_err()
            .message(),
        "captured cookies but couldn't identify the account: why"
    );
    assert_eq!(
        accept_pasted(&mut a, "jar".to_string(), Err("why".to_string()))
            .unwrap_err()
            .message(),
        "those cookies didn't authenticate: why"
    );
    assert_eq!(listed(&a), [("x", "1")]);
    assert_eq!(a.active, "x");
    assert!(accept_captured(&mut a, "jar".to_string(), Ok("y".to_string())).is_ok());
    assert!(accept_pasted(&mut a, "new".to_string(), Ok("x".to_string())).is_ok());
    assert_eq!(listed(&a), [("x", "new"), ("y", "jar")]);
    assert_eq!(a.active, "x");
}
