//! What can go wrong, and how it is told to the user.
use crate::number;
use crate::number::{to_decimal, to_signed_decimal};
use crate::text;
use crate::text::{joined, joined3, joined5, owned};
use vstd::prelude::*;

verus! {

/// A failure; `T` is what text is held in.
#[derive(Debug)]
pub enum Failure<T> {
    /// Neither a post URL nor a post code.
    UnreadablePost,
    /// Nothing was entered where a username is wanted.
    EmptyUsername,
    /// A URL of the site without a path.
    NoUsernameInUrl,
    /// A link to a post where a profile is wanted.
    PostLink,
    /// Neither a username nor a profile URL.
    NotAUsername,
    /// A code too long to be decoded into a media id.
    LongShareLink(T),
    /// A byte of a shortcode outside the alphabet, as the character of that number.
    BadCharacter(char),
    /// A reply without a timeline in it.
    NoTimeline,
    /// The platform asks to log in.
    SessionRefused,
    /// The platform rejects the request, with a summary and a code.
    Rejected(T, i64),
    /// The account that was asked for does not exist.
    NoSuchAccount,
    /// The signed-in account is blocked from this action for a while.
    Blocked,
    /// A query failed, with the detail given.
    Answered(T),
    /// A reply without data and without errors.
    EmptyReply(u16),
    /// The session was turned away.
    SessionRejected(u16),
    /// A reply that is not JSON and gives no other hint.
    NotJson(u16),
    /// The session has ended.
    SessionExpired,
    /// An error reply without a message.
    AnsweredStatus(u16),
    /// An error reply with a message.
    AnsweredMessage(T, u16),
    /// A post page that names no media id.
    NoMediaId(T),
    /// The media reply holds no post.
    PostNotFound,
    /// The post's page led to the site's front page.
    RedirectedAway,
    /// The post's page led to a profile.
    NotVisible(T),
    /// The settings form was refused, with the status line given.
    NotSignedIn(T),
    /// The settings form is not JSON.
    SettingsNotJson,
    /// The settings form names no user.
    NoSignedInName,
    /// The cookies lack the token that a query must carry.
    NoCsrfToken,
    /// A media file was refused, with the status line given.
    CdnStatus(T),
    /// No account with cookies is active.
    NoAccount,
    /// No stored account has this name.
    UnknownAccount(T),
    /// There is no login window to read.
    LoginWindowClosed,
    /// The login window holds no session yet.
    NoSessionCookie,
    /// A pasted header holds no session.
    NoSessionInPaste,
    /// Captured cookies that name no account, with the reason.
    Unidentified(T),
    /// Pasted cookies that name no account, with the reason.
    Unauthenticated(T),
}

/// A failure as the functions of this library return it.
pub type Error = Failure<String>;

impl View for Failure<String> {
    type V = Failure<Seq<char>>;

    open spec fn view(&self) -> Failure<Seq<char>> {
        match *self {
            Failure::UnreadablePost => Failure::UnreadablePost,
            Failure::EmptyUsername => Failure::EmptyUsername,
            Failure::NoUsernameInUrl => Failure::NoUsernameInUrl,
            Failure::PostLink => Failure::PostLink,
            Failure::NotAUsername => Failure::NotAUsername,
            Failure::LongShareLink(a) => Failure::LongShareLink(a@),
            Failure::BadCharacter(a) => Failure::BadCharacter(a),
            Failure::NoTimeline => Failure::NoTimeline,
            Failure::SessionRefused => Failure::SessionRefused,
            Failure::Rejected(a, b) => Failure::Rejected(a@, b),
            Failure::NoSuchAccount => Failure::NoSuchAccount,
            Failure::Blocked => Failure::Blocked,
            Failure::Answered(a) => Failure::Answered(a@),
            Failure::EmptyReply(a) => Failure::EmptyReply(a),
            Failure::SessionRejected(a) => Failure::SessionRejected(a),
            Failure::NotJson(a) => Failure::NotJson(a),
            Failure::SessionExpired => Failure::SessionExpired,
            Failure::AnsweredStatus(a) => Failure::AnsweredStatus(a),
            Failure::AnsweredMessage(a, b) => Failure::AnsweredMessage(a@, b),
            Failure::NoMediaId(a) => Failure::NoMediaId(a@),
            Failure::PostNotFound => Failure::PostNotFound,
            Failure::RedirectedAway => Failure::RedirectedAway,
            Failure::NotVisible(a) => Failure::NotVisible(a@),
            Failure::NotSignedIn(a) => Failure::NotSignedIn(a@),
            Failure::SettingsNotJson => Failure::SettingsNotJson,
            Failure::NoSignedInName => Failure::NoSignedInName,
            Failure::NoCsrfToken => Failure::NoCsrfToken,
            Failure::CdnStatus(a) => Failure::CdnStatus(a@),
            Failure::NoAccount => Failure::NoAccount,
            Failure::UnknownAccount(a) => Failure::UnknownAccount(a@),
            Failure::LoginWindowClosed => Failure::LoginWindowClosed,
            Failure::NoSessionCookie => Failure::NoSessionCookie,
            Failure::NoSessionInPaste => Failure::NoSessionInPaste,
            Failure::Unidentified(a) => Failure::Unidentified(a@),
            Failure::Unauthenticated(a) => Failure::Unauthenticated(a@),
        }
    }
}

/// A result that holds text, as a result that holds characters.
pub open spec fn outcome(r: Result<String, Error>) -> Result<Seq<char>, Failure<Seq<char>>> {
    match r {
        Ok(s) => Ok(s@),
        Err(e) => Err(e@),
    }
}

/// The text that `Debug` formatting gives for a character.
pub uninterp spec fn char_debug(c: char) -> Seq<char>;

/// `Debug` formatting of a `char`. It depends on the character alone. A
/// printable ASCII character other than a quote or a backslash comes out as
/// itself between single quotes.
#[verifier::external_body]
fn debug_char(c: char) -> (r: String)
    ensures
        r@ == char_debug(c),
        ' ' <= c <= '~' && c != '\'' && c != '"' && c != '\\' ==> r@ == seq!['\'', c, '\''],
{
    format!("{:?}", c)
}

impl Failure<Seq<char>> {
    /// The sentence that tells the user what went wrong.
    pub open spec fn sentence(self) -> Seq<char> {
        match self {
            Failure::UnreadablePost => "couldn't read a post from that — paste an Instagram post URL, or just its code"@,
            Failure::EmptyUsername => "enter a username"@,
            Failure::NoUsernameInUrl => "that URL has no username in it"@,
            Failure::PostLink => "that's a post link, not a profile — use the Single post tab"@,
            Failure::NotAUsername => "that doesn't look like a username or profile URL"@,
            Failure::LongShareLink(a) => a + " is a long share link, not a classic shortcode — resolve its media id from the post page"@,
            Failure::BadCharacter(a) => "bad character "@ + char_debug(a) + " in shortcode"@,
            Failure::NoTimeline => "Instagram's reply had no timeline in it"@,
            Failure::SessionRefused => "Instagram doesn't accept this session for profile browsing (\"Log in to continue\"). Remove the account and sign in again."@,
            Failure::Rejected(a, b) => "Instagram rejected the request: "@ + a + " (error "@ + number::signed_decimal(b as int) + ")"@,
            Failure::NoSuchAccount => "no such account — check the spelling"@,
            Failure::Blocked => "Instagram has temporarily blocked this action for the signed-in account (\"feedback_required\"). Single posts still work. The block usually clears within a day on its own; retrying makes it last longer."@,
            Failure::Answered(a) => "Instagram answered: "@ + a,
            Failure::EmptyReply(a) => "Instagram sent an empty reply (HTTP "@ + number::decimal(a as nat) + ")"@,
            Failure::SessionRejected(a) => "the session was rejected (HTTP "@ + number::decimal(a as nat) + ") — remove the account and sign in again"@,
            Failure::NotJson(a) => "Instagram answered HTTP "@ + number::decimal(a as nat) + " with something that isn't JSON"@,
            Failure::SessionExpired => "the session has expired — remove the account and sign in again"@,
            Failure::AnsweredStatus(a) => "Instagram answered HTTP "@ + number::decimal(a as nat),
            Failure::AnsweredMessage(a, b) => "Instagram answered: "@ + a + " (HTTP "@ + number::decimal(b as nat) + ")"@,
            Failure::NoMediaId(a) => "couldn't find a media id on the page for "@ + a,
            Failure::PostNotFound => "post not found (private, deleted, or session expired)"@,
            Failure::RedirectedAway => "Instagram redirected away from the post — the session may have expired."@,
            Failure::NotVisible(a) => "This post isn't visible to the signed-in account. Instagram redirected to @"@ + a + ", which normally means the account is private and isn't followed by the account you're signed in as (it can also mean the post was deleted)."@,
            Failure::NotSignedIn(a) => "not signed in (HTTP "@ + a + ")"@,
            Failure::SettingsNotJson => "settings form was not JSON"@,
            Failure::NoSignedInName => "could not read the signed-in username"@,
            Failure::NoCsrfToken => "the stored cookies have no csrftoken — sign in again"@,
            Failure::CdnStatus(a) => "CDN returned "@ + a,
            Failure::NoAccount => "Not signed in — add an account first."@,
            Failure::UnknownAccount(a) => "no stored account called @"@ + a,
            Failure::LoginWindowClosed => "The login window isn't open."@,
            Failure::NoSessionCookie => "No session cookie yet — finish logging in, then press Done."@,
            Failure::NoSessionInPaste => "That doesn't contain a sessionid= cookie."@,
            Failure::Unidentified(a) => "captured cookies but couldn't identify the account: "@ + a,
            Failure::Unauthenticated(a) => "those cookies didn't authenticate: "@ + a,
        }
    }
}

impl Failure<String> {
    /// The sentence that tells the user what went wrong.
    pub fn message(&self) -> (r: String)
        ensures
            r@ == self@.sentence(),
    {
        match self {
            Failure::UnreadablePost => owned("couldn't read a post from that — paste an Instagram post URL, or just its code"),
            Failure::EmptyUsername => owned("enter a username"),
            Failure::NoUsernameInUrl => owned("that URL has no username in it"),
            Failure::PostLink => owned("that's a post link, not a profile — use the Single post tab"),
            Failure::NotAUsername => owned("that doesn't look like a username or profile URL"),
            Failure::LongShareLink(a) => joined(a.as_str(), " is a long share link, not a classic shortcode — resolve its media id from the post page"),
            Failure::BadCharacter(a) => joined3("bad character ", debug_char(*a).as_str(), " in shortcode"),
            Failure::NoTimeline => owned("Instagram's reply had no timeline in it"),
            Failure::SessionRefused => owned("Instagram doesn't accept this session for profile browsing (\"Log in to continue\"). Remove the account and sign in again."),
            Failure::Rejected(a, b) => joined5("Instagram rejected the request: ", a.as_str(), " (error ", to_signed_decimal(*b).as_str(), ")"),
            Failure::NoSuchAccount => owned("no such account — check the spelling"),
            Failure::Blocked => owned("Instagram has temporarily blocked this action for the signed-in account (\"feedback_required\"). Single posts still work. The block usually clears within a day on its own; retrying makes it last longer."),
            Failure::Answered(a) => joined("Instagram answered: ", a.as_str()),
            Failure::EmptyReply(a) => joined3("Instagram sent an empty reply (HTTP ", to_decimal(*a as u128).as_str(), ")"),
            Failure::SessionRejected(a) => joined3("the session was rejected (HTTP ", to_decimal(*a as u128).as_str(), ") — remove the account and sign in again"),
            Failure::NotJson(a) => joined3("Instagram answered HTTP ", to_decimal(*a as u128).as_str(), " with something that isn't JSON"),
            Failure::SessionExpired => owned("the session has expired — remove the account and sign in again"),
            Failure::AnsweredStatus(a) => joined("Instagram answered HTTP ", to_decimal(*a as u128).as_str()),
            Failure::AnsweredMessage(a, b) => joined5("Instagram answered: ", a.as_str(), " (HTTP ", to_decimal(*b as u128).as_str(), ")"),
            Failure::NoMediaId(a) => joined("couldn't find a media id on the page for ", a.as_str()),
            Failure::PostNotFound => owned("post not found (private, deleted, or session expired)"),
            Failure::RedirectedAway => owned("Instagram redirected away from the post — the session may have expired."),
            Failure::NotVisible(a) => joined3("This post isn't visible to the signed-in account. Instagram redirected to @", a.as_str(), ", which normally means the account is private and isn't followed by the account you're signed in as (it can also mean the post was deleted)."),
            Failure::NotSignedIn(a) => joined3("not signed in (HTTP ", a.as_str(), ")"),
            Failure::SettingsNotJson => owned("settings form was not JSON"),
            Failure::NoSignedInName => owned("could not read the signed-in username"),
            Failure::NoCsrfToken => owned("the stored cookies have no csrftoken — sign in again"),
            Failure::CdnStatus(a) => joined("CDN returned ", a.as_str()),
            Failure::NoAccount => owned("Not signed in — add an account first."),
            Failure::UnknownAccount(a) => joined("no stored account called @", a.as_str()),
            Failure::LoginWindowClosed => owned("The login window isn't open."),
            Failure::NoSessionCookie => owned("No session cookie yet — finish logging in, then press Done."),
            Failure::NoSessionInPaste => owned("That doesn't contain a sessionid= cookie."),
            Failure::Unidentified(a) => joined("captured cookies but couldn't identify the account: ", a.as_str()),
            Failure::Unauthenticated(a) => joined("those cookies didn't authenticate: ", a.as_str()),
        }
    }
}

/// A text with something before and behind it is contained in the whole.
proof fn lemma_holds(all: Seq<char>, before: Seq<char>, t: Seq<char>, behind: Seq<char>)
    requires
        all =~= before + t + behind,
    ensures
        text::contains(all, t),
{
    assert(all.subrange(before.len() as int, before.len() as int + t.len()) == t);
    assert(text::occurs_at(all, t, before.len() as int));
}

/// A sentence tells the details of its failure: the text that came with it, and the
/// numbers in decimal notation.
pub proof fn law_sentences_tell_the_details(a: Seq<char>, status: u16, code: i64)
    ensures
        text::contains(Failure::LongShareLink(a).sentence(), a),
        text::contains(Failure::Rejected(a, code).sentence(), a),
        text::contains(Failure::Rejected(a, code).sentence(), number::signed_decimal(code as int)),
        text::contains(Failure::Answered(a).sentence(), a),
        text::contains(Failure::EmptyReply(status).sentence(), number::decimal(status as nat)),
        text::contains(Failure::SessionRejected(status).sentence(), number::decimal(status as nat)),
        text::contains(Failure::NotJson(status).sentence(), number::decimal(status as nat)),
        text::contains(Failure::AnsweredStatus(status).sentence(), number::decimal(status as nat)),
        text::contains(Failure::AnsweredMessage(a, status).sentence(), a),
        text::contains(Failure::AnsweredMessage(a, status).sentence(), number::decimal(status as nat)),
        text::contains(Failure::NoMediaId(a).sentence(), a),
        text::contains(Failure::NotVisible(a).sentence(), a),
        text::contains(Failure::NotSignedIn(a).sentence(), a),
        text::contains(Failure::CdnStatus(a).sentence(), a),
        text::contains(Failure::UnknownAccount(a).sentence(), a),
        text::contains(Failure::Unidentified(a).sentence(), a),
        text::contains(Failure::Unauthenticated(a).sentence(), a),
{
    let none = Seq::<char>::empty();
    lemma_holds(Failure::LongShareLink(a).sentence(), none, a, (" is a long share link, not a classic shortcode — resolve its media id from the post page"@));
    lemma_holds(Failure::Rejected(a, code).sentence(), "Instagram rejected the request: "@, a, (" (error "@ + number::signed_decimal(code as int) + ")"@));
    lemma_holds(Failure::Rejected(a, code).sentence(), "Instagram rejected the request: "@ + a + " (error "@, number::signed_decimal(code as int), (")"@));
    lemma_holds(Failure::Answered(a).sentence(), "Instagram answered: "@, a, none);
    lemma_holds(Failure::EmptyReply(status).sentence(), "Instagram sent an empty reply (HTTP "@, number::decimal(status as nat), (")"@));
    lemma_holds(Failure::SessionRejected(status).sentence(), "the session was rejected (HTTP "@, number::decimal(status as nat), (") — remove the account and sign in again"@));
    lemma_holds(Failure::NotJson(status).sentence(), "Instagram answered HTTP "@, number::decimal(status as nat), (" with something that isn't JSON"@));
    lemma_holds(Failure::AnsweredStatus(status).sentence(), "Instagram answered HTTP "@, number::decimal(status as nat), none);
    lemma_holds(Failure::AnsweredMessage(a, status).sentence(), "Instagram answered: "@, a, (" (HTTP "@ + number::decimal(status as nat) + ")"@));
    lemma_holds(Failure::AnsweredMessage(a, status).sentence(), "Instagram answered: "@ + a + " (HTTP "@, number::decimal(status as nat), (")"@));
    lemma_holds(Failure::NoMediaId(a).sentence(), "couldn't find a media id on the page for "@, a, none);
    lemma_holds(Failure::NotVisible(a).sentence(), "This post isn't visible to the signed-in account. Instagram redirected to @"@, a, (", which normally means the account is private and isn't followed by the account you're signed in as (it can also mean the post was deleted)."@));
    lemma_holds(Failure::NotSignedIn(a).sentence(), "not signed in (HTTP "@, a, (")"@));
    lemma_holds(Failure::CdnStatus(a).sentence(), "CDN returned "@, a, none);
    lemma_holds(Failure::UnknownAccount(a).sentence(), "no stored account called @"@, a, none);
    lemma_holds(Failure::Unidentified(a).sentence(), "captured cookies but couldn't identify the account: "@, a, none);
    lemma_holds(Failure::Unauthenticated(a).sentence(), "those cookies didn't authenticate: "@, a, none);
}

} // verus!
