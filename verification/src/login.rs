//! The login window: watching it until it holds a session that works.
use crate::accounts;
use crate::accounts::{snapshot_of, Accounts, AccountsView, AuthState};
use crate::cookie;
use crate::cookie::{login_jar, Cookie, CookieView};
use crate::error;
use crate::error::{Error, Failure};
use crate::reply;
use crate::text;
use crate::text::joined;
use vstd::prelude::*;

verus! {

/// How often the window is looked at, once a second, before the watch gives up.
pub const POLLS: u32 = 300;

/// What a watch is told.
#[derive(Debug)]
pub enum LoginEvent {
    /// The window was opened.
    Opened,
    /// The window is no longer there.
    Gone,
    /// The window is there, but its cookies could not be read.
    Unreadable,
    /// The cookies that the window holds.
    Cookies(Vec<Cookie>),
    /// The session did not tell who it belongs to.
    Refused,
    /// The session that was asked about belongs to the account of this name.
    Named(String),
}

/// What a watch asks to be done.
#[derive(Debug)]
pub enum LoginAction {
    /// Wait a second and look at the window.
    Poll,
    /// Tell that the login was cancelled, and end.
    Cancel,
    /// Ask who the session with this jar belongs to.
    Identify(String),
    /// Store the account, close the window, and end.
    Store {
        name: String,
        jar: String,
    },
    /// Tell that the time is up, and end.
    TimeOut,
}

/// What a watch is told, over views.
pub enum LoginEventView {
    Opened,
    Gone,
    Unreadable,
    Cookies(Seq<CookieView>),
    Refused,
    Named(Seq<char>),
}

/// What a watch asks to be done, over views.
pub enum LoginActionView {
    Poll,
    Cancel,
    Identify(Seq<char>),
    Store { name: Seq<char>, jar: Seq<char> },
    TimeOut,
}

impl View for LoginEvent {
    type V = LoginEventView;

    open spec fn view(&self) -> LoginEventView {
        match *self {
            LoginEvent::Opened => LoginEventView::Opened,
            LoginEvent::Gone => LoginEventView::Gone,
            LoginEvent::Unreadable => LoginEventView::Unreadable,
            LoginEvent::Cookies(c) => LoginEventView::Cookies(cookie::cookie_views(c@)),
            LoginEvent::Refused => LoginEventView::Refused,
            LoginEvent::Named(name) => LoginEventView::Named(name@),
        }
    }
}

impl View for LoginAction {
    type V = LoginActionView;

    open spec fn view(&self) -> LoginActionView {
        match *self {
            LoginAction::Poll => LoginActionView::Poll,
            LoginAction::Cancel => LoginActionView::Cancel,
            LoginAction::Identify(jar) => LoginActionView::Identify(jar@),
            LoginAction::Store { name, jar } => LoginActionView::Store { name: name@, jar: jar@ },
            LoginAction::TimeOut => LoginActionView::TimeOut,
        }
    }
}

/// A watch, over views.
pub struct WatchView {
    pub polls: u32,
    pub asked: Option<Seq<char>>,
}

/// A watch that has not looked yet.
pub open spec fn new_watch() -> WatchView {
    WatchView { polls: 0, asked: None }
}

/// Looking once more, unless the window was looked at often enough.
pub open spec fn look_again(polls: u32) -> (WatchView, LoginActionView) {
    if polls < POLLS {
        (WatchView { polls: (polls + 1) as u32, asked: None }, LoginActionView::Poll)
    } else {
        (WatchView { polls, asked: None }, LoginActionView::TimeOut)
    }
}

/// What comes of an event: the watch after it, and what is to be done.
///
/// A session cookie alone is no proof of a finished login: it can appear before
/// a second factor or a checkpoint is passed. So an account is stored only once
/// its session has told its name, and with the jar that was asked about. A name
/// that comes when no jar was asked about tells nothing.
pub open spec fn watch_step(watch: WatchView, event: LoginEventView) -> (
    WatchView,
    LoginActionView,
) {
    let polls = watch.polls;
    match event {
        LoginEventView::Gone => (WatchView { polls, asked: None }, LoginActionView::Cancel),
        LoginEventView::Cookies(cookies) => match cookie::session_jar(cookies) {
            Some(jar) => (WatchView { polls, asked: Some(jar) }, LoginActionView::Identify(jar)),
            None => look_again(polls),
        },
        LoginEventView::Named(name) => match watch.asked {
            Some(jar) => (
                WatchView { polls, asked: None },
                LoginActionView::Store { name, jar },
            ),
            None => look_again(polls),
        },
        LoginEventView::Opened | LoginEventView::Unreadable | LoginEventView::Refused => look_again(
            polls,
        ),
    }
}

/// A watch over a login window.
#[derive(Debug)]
pub struct LoginWatch {
    /// How often the window was asked to be looked at.
    pub polls: u32,
    /// The jar that was asked about, until the answer has come.
    pub asked: Option<String>,
}

impl View for LoginWatch {
    type V = WatchView;

    open spec fn view(&self) -> WatchView {
        WatchView { polls: self.polls, asked: text::opt_text(self.asked) }
    }
}

impl LoginWatch {
    /// A watch that has not looked yet.
    pub fn new() -> (r: LoginWatch)
        ensures
            r@ == new_watch(),
    {
        LoginWatch { polls: 0, asked: None }
    }

    /// Looks once more, unless the window was looked at often enough.
    fn again(&mut self) -> (r: LoginAction)
        ensures
            (final(self)@, r@) == look_again(old(self).polls),
    {
        self.asked = None;
        if self.polls < POLLS {
            self.polls = self.polls + 1;
            LoginAction::Poll
        } else {
            LoginAction::TimeOut
        }
    }

    /// Takes an event and tells what is to be done.
    pub fn next(&mut self, event: LoginEvent) -> (r: LoginAction)
        ensures
            (final(self)@, r@) == watch_step(old(self)@, event@),
    {
        match event {
            LoginEvent::Gone => {
                self.asked = None;
                LoginAction::Cancel
            },
            LoginEvent::Cookies(cookies) => match login_jar(&cookies) {
                Some(jar) => {
                    self.asked = Some(jar.clone());
                    LoginAction::Identify(jar)
                },
                None => self.again(),
            },
            LoginEvent::Named(name) => match self.asked.take() {
                Some(jar) => LoginAction::Store { name, jar },
                None => self.again(),
            },
            LoginEvent::Opened | LoginEvent::Unreadable | LoginEvent::Refused => self.again(),
        }
    }
}

/// Stores the account that a login has given, and gives what is then shown.
pub fn store_login(a: &mut Accounts, name: String, jar: String) -> (r: AuthState)
    ensures
        final(a)@ == old(a)@.upserted(name@, jar@),
        r@ == accounts::shown(old(a)@.upserted(name@, jar@), true, "signed in as @"@ + name@),
{
    let detail = joined("signed in as @", name.as_str());
    a.upsert(name, jar);
    snapshot_of(a, true, detail)
}

/// What comes of a session's answer to who it belongs to: the account is stored,
/// or nothing changes and the reason is told by `refusal`.
pub open spec fn settled(
    a: AccountsView,
    jar: Seq<char>,
    who: Result<Seq<char>, Seq<char>>,
    refusal: spec_fn(Seq<char>) -> Failure<Seq<char>>,
) -> (AccountsView, Result<(), Failure<Seq<char>>>) {
    match who {
        Ok(name) => (a.upserted(name, jar), Ok(())),
        Err(why) => (a, Err(refusal(why))),
    }
}

/// Takes the answer of a session that was captured from the login window, so
/// that an account is named before it is stored.
pub fn accept_captured(a: &mut Accounts, jar: String, who: Result<String, String>) -> (r: Result<
    (),
    Error,
>)
    ensures
        (final(a)@, reply::checked(r)) == settled(
            old(a)@,
            jar@,
            accounts::name_or_reason(who),
            |why: Seq<char>| Failure::Unidentified(why),
        ),
{
    match who {
        Ok(name) => {
            a.upsert(name, jar);
            Ok(())
        },
        Err(why) => Err(Failure::Unidentified(why)),
    }
}

/// Takes the answer of a session whose cookies were pasted.
pub fn accept_pasted(a: &mut Accounts, jar: String, who: Result<String, String>) -> (r: Result<
    (),
    Error,
>)
    ensures
        (final(a)@, reply::checked(r)) == settled(
            old(a)@,
            jar@,
            accounts::name_or_reason(who),
            |why: Seq<char>| Failure::Unauthenticated(why),
        ),
{
    match who {
        Ok(name) => {
            a.upsert(name, jar);
            Ok(())
        },
        Err(why) => Err(Failure::Unauthenticated(why)),
    }
}

/// The jar that is captured from a login window on demand: none where the window
/// is closed, or where it holds no session yet.
pub open spec fn captured(window: Option<Seq<CookieView>>) -> Result<
    Seq<char>,
    Failure<Seq<char>>,
> {
    match window {
        None => Err(Failure::LoginWindowClosed),
        Some(cookies) => match cookie::session_jar(cookies) {
            Some(jar) => Ok(jar),
            None => Err(Failure::NoSessionCookie),
        },
    }
}

/// The cookies of a window as a view.
pub open spec fn window_view(window: Option<Vec<Cookie>>) -> Option<Seq<CookieView>> {
    match window {
        Some(cookies) => Some(cookie::cookie_views(cookies@)),
        None => None,
    }
}

/// Captures the jar of a login window on demand. `window` holds its cookies, if
/// it is open.
pub fn capture_jar(window: Option<Vec<Cookie>>) -> (r: Result<String, Error>)
    ensures
        error::outcome(r) == captured(window_view(window)),
{
    match window {
        None => Err(Failure::LoginWindowClosed),
        Some(cookies) => match login_jar(&cookies) {
            Some(jar) => Ok(jar),
            None => Err(Failure::NoSessionCookie),
        },
    }
}

/// A watch after some events.
pub open spec fn watch_after(events: Seq<LoginEventView>) -> WatchView
    decreases events.len(),
{
    if events.len() == 0 {
        new_watch()
    } else {
        watch_step(watch_after(events.drop_last()), events.last()).0
    }
}

/// What a watch asks to be done after some events and one more.
pub open spec fn answer(events: Seq<LoginEventView>, event: LoginEventView) -> LoginActionView {
    watch_step(watch_after(events), event).1
}

/// How many of the answers to some events were to look at the window.
pub open spec fn poll_count(events: Seq<LoginEventView>) -> nat
    decreases events.len(),
{
    if events.len() == 0 {
        0
    } else {
        poll_count(events.drop_last()) + if answer(events.drop_last(), events.last()) is Poll {
            1nat
        } else {
            0nat
        }
    }
}

/// Whatever happens, a watch looks at the window at most 300 times, and it keeps
/// count of that; so it comes to an end.
pub proof fn law_watch_ends(events: Seq<LoginEventView>)
    ensures
        poll_count(events) == watch_after(events).polls,
        poll_count(events) <= POLLS,
    decreases events.len(),
{
    if events.len() > 0 {
        law_watch_ends(events.drop_last());
    }
}

/// A watch gives up exactly when it would look once more and has looked 300
/// times.
pub proof fn law_watch_gives_up(events: Seq<LoginEventView>, event: LoginEventView)
    ensures
        answer(events, event) is TimeOut <==> poll_count(events) == POLLS && (event is Opened
            || event is Unreadable || event is Refused || (event matches LoginEventView::Cookies(c)
            && cookie::session_jar(c) is None) || (event is Named && watch_after(
            events,
        ).asked is None)),
{
    law_watch_ends(events);
}

/// A session that does not tell its name changes nothing that is stored; one
/// that does is stored under that name and made the active one.
pub proof fn law_refused_sessions_change_nothing(
    a: AccountsView,
    jar: Seq<char>,
    who: Result<Seq<char>, Seq<char>>,
    refusal: spec_fn(Seq<char>) -> Failure<Seq<char>>,
)
    ensures
        match who {
            Ok(name) => settled(a, jar, who, refusal).0.active == name && settled(
                a,
                jar,
                who,
                refusal,
            ).0.cookies_of(name) == Some(jar) && settled(a, jar, who, refusal).1 is Ok,
            Err(_) => settled(a, jar, who, refusal).0 == a && settled(a, jar, who, refusal).1
                is Err,
        },
{
    if let Ok(name) = who {
        accounts::law_upsert_activates(a, name, jar);
    }
}

/// An account is stored exactly when its session has told its name right after it
/// was asked for it, and what is stored is the jar that was asked about.
pub proof fn law_stored_jar_was_asked_about(
    events: Seq<LoginEventView>,
    event: LoginEventView,
    name: Seq<char>,
    jar: Seq<char>,
)
    ensures
        answer(events, event) == (LoginActionView::Store { name, jar }) <==> event
            == LoginEventView::Named(name) && events.len() > 0 && answer(
            events.drop_last(),
            events.last(),
        ) == LoginActionView::Identify(jar),
{
}

/// A session is asked for its name exactly when the window holds a session
/// cookie, and with the jar of the window; the cookie alone stores nothing.
pub proof fn law_session_cookie_only_asks(events: Seq<LoginEventView>, cookies: Seq<CookieView>)
    ensures
        match cookie::session_jar(cookies) {
            Some(jar) => answer(events, LoginEventView::Cookies(cookies))
                == LoginActionView::Identify(jar),
            None => answer(events, LoginEventView::Cookies(cookies)) is Poll || answer(
                events,
                LoginEventView::Cookies(cookies),
            ) is TimeOut,
        },
{
}

/// A login is cancelled exactly when the window is gone, and a watch that has to
/// wait looks again as long as it has not looked 300 times.
pub proof fn law_watch_waits_and_cancels(events: Seq<LoginEventView>, event: LoginEventView)
    ensures
        answer(events, event) is Cancel <==> event is Gone,
        poll_count(events) < 300 && (event is Opened || event is Unreadable || event is Refused || (
        event matches LoginEventView::Cookies(c) && cookie::session_jar(c) is None)) ==> answer(
            events,
            event,
        ) is Poll,
{
    law_watch_ends(events);
}

/// What a window gives on demand: a closed one nothing, an open one its jar as soon
/// as it holds a session.
pub proof fn law_capture_on_demand(cookies: Seq<CookieView>)
    ensures
        captured(None) == Err::<Seq<char>, Failure<Seq<char>>>(Failure::LoginWindowClosed),
        match cookie::session_jar(cookies) {
            Some(jar) => captured(Some(cookies)) == Ok::<Seq<char>, Failure<Seq<char>>>(jar),
            None => captured(Some(cookies)) == Err::<Seq<char>, Failure<Seq<char>>>(
                Failure::NoSessionCookie,
            ),
        },
{
}

} // verus!
