//! Replies: telling a document from a failure, and saying what went wrong.
use crate::error;
use crate::error::{Error, Failure};
use crate::json;
use crate::json::{array_at, i64_at, parse_json, text_at, Json, JsonView};
use crate::text;
use crate::text::{
    chars_of, has_text, owned, same_text, strip_leading, to_lower, trim_set, whole_string, CharSet,
};
use vstd::prelude::*;

verus! {

/// What a reply means that is not JSON.
pub open spec fn non_json(status: u16, body: Seq<char>) -> Failure<Seq<char>> {
    let lower = text::lowered(body);
    if text::contains(lower, "feedback_required"@) || status == 429 {
        Failure::Blocked
    } else if text::contains(lower, "/accounts/login/"@) || status == 401 || status == 403 {
        Failure::SessionRejected(status)
    } else {
        Failure::NotJson(status)
    }
}

/// Whether a query came back with data: some root field is not null.
pub open spec fn has_data(reply: JsonView) -> bool {
    match reply.field("data"@) {
        JsonView::Object(fields) => exists|i: int|
            0 <= i < fields.len() && !((#[trigger] fields[i]).1 is Null),
        _ => false,
    }
}

/// What the first of the errors of a reply says.
pub open spec fn first_error(reply: JsonView) -> Option<Seq<char>> {
    let errors = reply.field("errors"@).items();
    if errors.len() == 0 {
        None
    } else {
        match errors[0].field("description"@).as_text() {
            Some(d) => Some(d),
            None => match errors[0].field("message"@).as_text() {
                Some(m) => Some(m),
                None => Some("unknown error"@),
            },
        }
    }
}

/// What the failed query of a reply without data means.
pub open spec fn query_failure(status: u16, reply: JsonView) -> Failure<Seq<char>> {
    match first_error(reply) {
        Some(d) => if text::contains(d, "User lookup returned null"@) {
            Failure::NoSuchAccount
        } else if text::contains(d, "feedback_required"@) {
            Failure::Blocked
        } else {
            Failure::Answered(d)
        },
        None => Failure::EmptyReply(status),
    }
}

/// What the reply to a query gives; `parsed` is its document, if it is JSON.
pub open spec fn query_result(status: u16, body: Seq<char>, parsed: Option<JsonView>) -> Result<
    JsonView,
    Failure<Seq<char>>,
> {
    match parsed {
        None => Err(non_json(status, body)),
        Some(reply) => match reply.field("errorSummary"@).as_text() {
            Some(summary) => {
                let code = reply.field("error"@).i64_or(0);
                if code == 1357001 {
                    Err(Failure::SessionRefused)
                } else {
                    Err(Failure::Rejected(summary, code))
                }
            },
            None => if has_data(reply) {
                Ok(reply)
            } else {
                Err(query_failure(status, reply))
            },
        },
    }
}

/// Whether a status is one of success.
pub open spec fn success(status: u16) -> bool {
    200 <= status < 300
}

/// What a reply of the private API gives; `parsed` is its document, if it is
/// JSON.
pub open spec fn api_result(status: u16, body: Seq<char>, parsed: Option<JsonView>) -> Result<
    JsonView,
    Failure<Seq<char>>,
> {
    match parsed {
        None => Err(non_json(status, body)),
        Some(reply) => if reply.field("status"@).as_text() == Some("fail"@) || !success(status) {
            let msg = reply.field("message"@).text_or_empty();
            if msg == "feedback_required"@ {
                Err(Failure::Blocked)
            } else if msg == "login_required"@ {
                Err(Failure::SessionExpired)
            } else if msg.len() == 0 {
                Err(Failure::AnsweredStatus(status))
            } else {
                Err(Failure::AnsweredMessage(msg, status))
            }
        } else {
            Ok(reply)
        },
    }
}

/// The name in the settings form of the signed-in user; `parsed` is the form, if
/// it is JSON, and `line` is the status with its reason.
pub open spec fn settings_name(status: u16, line: Seq<char>, parsed: Option<JsonView>) -> Result<
    Seq<char>,
    Failure<Seq<char>>,
> {
    if !success(status) {
        Err(Failure::NotSignedIn(line))
    } else {
        match parsed {
            None => Err(Failure::SettingsNotJson),
            Some(form) => match form.field("form_data"@).field("username"@).as_text() {
                Some(name) => Ok(name),
                None => Err(Failure::NoSignedInName),
            },
        }
    }
}

/// Whether the page of a post was reached, by the path where its URL led to. A
/// viewer who may not see a post is led to its author's profile.
pub open spec fn landing(path: Seq<char>) -> Result<(), Failure<Seq<char>>> {
    let who = text::trimmed(path, CharSet::Only('/').pred());
    if text::contains(path, "/p/"@) {
        Ok(())
    } else if who.len() == 0 {
        Err(Failure::RedirectedAway)
    } else {
        Err(Failure::NotVisible(who))
    }
}

/// Whether a media file was served; `line` is the status with its reason.
pub open spec fn served(status: u16, line: Seq<char>) -> Result<(), Failure<Seq<char>>> {
    if success(status) {
        Ok(())
    } else {
        Err(Failure::CdnStatus(line))
    }
}

/// A check as it is returned, over views.
pub open spec fn checked(r: Result<(), Error>) -> Result<(), Failure<Seq<char>>> {
    match r {
        Ok(()) => Ok(()),
        Err(e) => Err(e@),
    }
}

/// The reply to a query without the guards that it may start with.
pub open spec fn unguarded(body: Seq<char>) -> Seq<char> {
    text::without_leading(body, "for (;;);"@)
}

/// A decoded reply, over views.
pub open spec fn decoded(r: Result<Json, Error>) -> Result<JsonView, Failure<Seq<char>>> {
    match r {
        Ok(j) => Ok(j@),
        Err(e) => Err(e@),
    }
}

/// An optional document, over views.
pub open spec fn opt_document(o: Option<Json>) -> Option<JsonView> {
    match o {
        Some(j) => Some(j@),
        None => None,
    }
}

/// What to say when the signed-in account is blocked from an action.
pub fn blocked_message() -> (r: Error)
    ensures
        r@ == Failure::<Seq<char>>::Blocked,
{
    Failure::Blocked
}

/// What a reply means that is not JSON.
pub fn describe_non_json(status: u16, body: &str) -> (r: Error)
    ensures
        r@ == non_json(status, body@),
{
    let lower = to_lower(&chars_of(body));
    if has_text(&lower, "feedback_required") || status == 429 {
        blocked_message()
    } else if has_text(&lower, "/accounts/login/") || status == 401 || status == 403 {
        Failure::SessionRejected(status)
    } else {
        Failure::NotJson(status)
    }
}

/// Whether a query came back with data: some root field is not null.
fn any_data(reply: &Json) -> (r: bool)
    ensures
        r == has_data(reply@),
{
    match reply.get("data") {
        Some(Json::Object(fields)) => {
            let ghost all = reply@.field("data"@)->Object_0;
            let mut i: usize = 0;
            while i < fields.len()
                invariant
                    reply@.field("data"@) == JsonView::Object(all),
                    all.len() == fields@.len(),
                    forall|k: int|
                        0 <= k < all.len() ==> (#[trigger] all[k]).1 == fields@[k].1@,
                    0 <= i <= fields@.len(),
                    forall|k: int| 0 <= k < i ==> (#[trigger] all[k]).1 is Null,
                decreases fields@.len() - i,
            {
                assert(all[i as int].1 == fields@[i as int].1@);
                if !fields[i].1.is_null() {
                    return true;
                }
                i = i + 1;
            }
            false
        },
        _ => false,
    }
}

/// What the first of the errors of a reply says.
fn error_detail(reply: &Json) -> (r: Option<String>)
    ensures
        text::opt_text(r) == first_error(reply@),
{
    match array_at(reply.get("errors")) {
        Some(errors) => if errors.len() > 0 {
            let e = &errors[0];
            assert(reply@.field("errors"@).items()[0] == e@);
            match e.get("description") {
                Some(Json::Text(d)) => {
                    return Some(d.clone());
                },
                _ => {},
            }
            match e.get("message") {
                Some(Json::Text(m)) => Some(m.clone()),
                _ => Some(owned("unknown error")),
            }
        } else {
            None
        },
        None => None,
    }
}

/// Turns the reply to a query into its document or into a failure. `parsed` is
/// the document of the reply, if it is JSON.
pub fn judge_graphql(status: u16, body: &str, parsed: Option<Json>) -> (r: Result<Json, Error>)
    ensures
        decoded(r) == query_result(status, body@, opt_document(parsed)),
{
    let j = match parsed {
        Some(j) => j,
        None => {
            return Err(describe_non_json(status, body));
        },
    };
    match j.get("errorSummary") {
        Some(Json::Text(summary)) => {
            let code = i64_at(j.get("error"), 0);
            if code == 1357001 {
                return Err(Failure::SessionRefused);
            }
            return Err(Failure::Rejected(summary.clone(), code));
        },
        _ => {},
    }
    if any_data(&j) {
        return Ok(j);
    }
    match error_detail(&j) {
        Some(d) => {
            let chars = chars_of(d.as_str());
            if has_text(&chars, "User lookup returned null") {
                Err(Failure::NoSuchAccount)
            } else if has_text(&chars, "feedback_required") {
                Err(blocked_message())
            } else {
                Err(Failure::Answered(d))
            }
        },
        None => Err(Failure::EmptyReply(status)),
    }
}

/// Turns the reply to a query into its document or into a sentence about why it
/// failed. Failures arrive in three shapes: an envelope of the outer platform
/// behind a `for (;;);` guard (bad session), an `errors` array (bad query,
/// unknown user), or an HTML page (rate limit, expired session).
pub fn decode_graphql(status: u16, body: &str) -> (r: Result<Json, Error>)
    ensures
        decoded(r) == query_result(status, body@, json::json_of(unguarded(body@))),
{
    proof {
        reveal_strlit("for (;;);");
    }
    let plain = whole_string(&strip_leading(&chars_of(body), "for (;;);"));
    let parsed = parse_json(plain.as_str());
    judge_graphql(status, body, parsed)
}

/// Turns a reply of the private API into its document or into a failure.
/// `parsed` is the document of the reply, if it is JSON.
pub fn judge_api(status: u16, body: &str, parsed: Option<Json>) -> (r: Result<Json, Error>)
    ensures
        decoded(r) == api_result(status, body@, opt_document(parsed)),
{
    let j = match parsed {
        Some(j) => j,
        None => {
            return Err(describe_non_json(status, body));
        },
    };
    let failed = match j.get("status") {
        Some(Json::Text(s)) => same_text(s.as_str(), "fail"),
        _ => false,
    };
    if failed || !(200 <= status && status < 300) {
        let msg = text_at(j.get("message"));
        return Err(
            if same_text(msg.as_str(), "feedback_required") {
                blocked_message()
            } else if same_text(msg.as_str(), "login_required") {
                Failure::SessionExpired
            } else if msg.as_str().is_empty() {
                Failure::AnsweredStatus(status)
            } else {
                Failure::AnsweredMessage(msg, status)
            },
        );
    }
    Ok(j)
}

/// Turns a reply of the private API into its document or into a sentence about
/// why it failed. The envelope of an error is `{"message": "…", "status":
/// "fail"}`, and the message `feedback_required` is the action block.
pub fn decode_api(status: u16, body: &str) -> (r: Result<Json, Error>)
    ensures
        decoded(r) == api_result(status, body@, json::json_of(body@)),
{
    let parsed = parse_json(body);
    judge_api(status, body, parsed)
}

/// The name in the settings form of the signed-in user. `parsed` is the form, if
/// it is JSON.
pub fn judge_whoami(status: u16, line: &str, parsed: Option<Json>) -> (r: Result<String, Error>)
    ensures
        error::outcome(r) == settings_name(status, line@, opt_document(parsed)),
{
    if !(200 <= status && status < 300) {
        return Err(Failure::NotSignedIn(owned(line)));
    }
    match parsed {
        None => Err(Failure::SettingsNotJson),
        Some(form) => match form.get2("form_data", "username") {
            Some(Json::Text(name)) => Ok(name.clone()),
            _ => Err(Failure::NoSignedInName),
        },
    }
}

/// Reads the signed-in user's name from the reply to the settings form; `line`
/// is the status with its reason.
pub fn decode_whoami(status: u16, line: &str, body: &str) -> (r: Result<String, Error>)
    ensures
        error::outcome(r) == settings_name(status, line@, json::json_of(body@)),
{
    let parsed = parse_json(body);
    judge_whoami(status, line, parsed)
}

/// Tells from the path where a post's URL led to whether its page was reached.
/// A path that is no longer that of a post means "no access" rather than "no
/// such post".
pub fn check_landing(path: &str) -> (r: Result<(), Error>)
    ensures
        checked(r) == landing(path@),
{
    let chars = chars_of(path);
    if has_text(&chars, "/p/") {
        return Ok(());
    }
    let who = trim_set(&chars, CharSet::Only('/'));
    if who.len() == 0 {
        Err(Failure::RedirectedAway)
    } else {
        Err(Failure::NotVisible(whole_string(&who)))
    }
}

/// Tells from the status whether a media file was served; `line` is the status
/// with its reason.
pub fn check_served(status: u16, line: &str) -> (r: Result<(), Error>)
    ensures
        checked(r) == served(status, line@),
{
    if 200 <= status && status < 300 {
        Ok(())
    } else {
        Err(Failure::CdnStatus(owned(line)))
    }
}

/// A wall of HTML in place of a reply reads as the action block where the status
/// says "too many requests", whatever the page says, on either route.
pub proof fn law_rate_limit_reads_as_block(body: Seq<char>)
    ensures
        query_result(429, body, None) == Err::<JsonView, Failure<Seq<char>>>(Failure::Blocked),
        api_result(429, body, None) == Err::<JsonView, Failure<Seq<char>>>(Failure::Blocked),
{
}

/// A query succeeds exactly when its reply is JSON, has no error summary and has
/// some data; it then gives the document as it came.
pub proof fn law_query_success(status: u16, body: Seq<char>, parsed: Option<JsonView>)
    ensures
        query_result(status, body, parsed) is Ok <==> (parsed is Some
            && parsed->0.field("errorSummary"@).as_text() is None && has_data(parsed->0)),
        query_result(status, body, parsed) matches Ok(j) ==> parsed == Some(j),
{
}

/// A reply of the private API is a success exactly when it is JSON, has a status
/// of success and is not marked as failed; it then gives the document as it
/// came.
pub proof fn law_api_success(status: u16, body: Seq<char>, parsed: Option<JsonView>)
    ensures
        api_result(status, body, parsed) is Ok <==> (parsed is Some && success(status)
            && parsed->0.field("status"@).as_text() != Some("fail"@)),
        api_result(status, body, parsed) matches Ok(j) ==> parsed == Some(j),
{
}

/// A post whose URL leads to a profile instead is explained as not visible, and
/// the explanation names that profile and says that it may be private.
pub proof fn law_hidden_post_explains_itself(name: Seq<char>, path: Seq<char>)
    requires
        path == "/"@ + name + "/"@,
        name.len() > 0,
        name[0] != '/',
        name.last() != '/',
        !text::contains(path, "/p/"@),
    ensures
        landing(path) == Err::<(), Failure<Seq<char>>>(Failure::NotVisible(name)),
        text::contains(Failure::NotVisible(name).sentence(), "@"@ + name),
        text::contains(Failure::NotVisible(name).sentence(), "private"@),
{
    let p = CharSet::Only('/').pred();
    let n = path.len() as int;
    reveal_strlit("/");
    assert(p(path[0]));
    assert(path[1] == name[0]);
    text::lemma_run_end_unique(path, 0, 1, p);
    assert(p(path[n - 1]));
    assert(path[n - 2] == name.last());
    assert(text::run_start(path, 1, n, p) == text::run_start(path, 1, n - 1, p));
    assert(text::run_start(path, 1, n - 1, p) == n - 1);
    assert(path.subrange(1, n - 1) == name);
    let lead = "This post isn't visible to the signed-in account. Instagram redirected to @"@;
    let tail =
        ", which normally means the account is private and isn't followed by the account you're signed in as (it can also mean the post was deleted)."@;
    let all = Failure::NotVisible(name).sentence();
    reveal_strlit(
        "This post isn't visible to the signed-in account. Instagram redirected to @",
    );
    reveal_strlit(
        ", which normally means the account is private and isn't followed by the account you're signed in as (it can also mean the post was deleted).",
    );
    reveal_strlit("private");
    reveal_strlit("@");
    assert(all == lead + name + tail);
    let a = lead.len() - 1;
    assert(all.subrange(a, a + 1 + name.len()) == "@"@ + name);
    assert(text::occurs_at(all, "@"@ + name, a));
    let b = (lead.len() + name.len() + 38) as int;
    assert(tail.subrange(38, 45) == "private"@);
    assert(all.subrange(b, b + 7) == tail.subrange(38, 45));
    assert(text::occurs_at(all, "private"@, b));
}

/// What a reply means that is not JSON, on either route: the action block where it
/// speaks of one, in capitals or not, or where there were too many requests; a
/// rejected session where it leads to the login page or is forbidden; and nothing
/// more than that it is not JSON otherwise.
pub proof fn law_pages_in_place_of_json(status: u16, body: Seq<char>)
    ensures
        query_result(status, body, None) == api_result(status, body, None),
        text::contains(text::lowered(body), "feedback_required"@) || status == 429
            ==> query_result(status, body, None) == Err::<JsonView, Failure<Seq<char>>>(Failure::Blocked),
        !(text::contains(text::lowered(body), "feedback_required"@) || status == 429) && (
        text::contains(text::lowered(body), "/accounts/login/"@) || status == 401 || status == 403)
            ==> query_result(status, body, None) == Err::<JsonView, Failure<Seq<char>>>(Failure::SessionRejected(status)),
        !(text::contains(text::lowered(body), "feedback_required"@) || status == 429
            || text::contains(text::lowered(body), "/accounts/login/"@) || status == 401 || status
            == 403) ==> query_result(status, body, None) == Err::<JsonView, Failure<Seq<char>>>(Failure::NotJson(status)),
{
}

/// A reply with some root field that is not null, and without an error summary, is
/// a success whatever its status and whatever errors it lists.
pub proof fn law_data_makes_a_success(
    status: u16,
    body: Seq<char>,
    reply: JsonView,
    fields: Seq<(Seq<char>, JsonView)>,
    i: int,
)
    requires
        !(reply.field("errorSummary"@) is Text),
        reply.field("data"@) == JsonView::Object(fields),
        0 <= i < fields.len(),
        !(fields[i].1 is Null),
    ensures
        query_result(status, body, Some(reply)) == Ok::<JsonView, Failure<Seq<char>>>(reply),
{
}

/// An error summary is a failure, data or not: the session is refused where the
/// error is the one that asks to log in, and the request is rejected otherwise,
/// with the summary and the number of the error.
pub proof fn law_error_summary_is_a_failure(
    status: u16,
    body: Seq<char>,
    reply: JsonView,
    summary: Seq<char>,
)
    requires
        reply.field("errorSummary"@) == JsonView::Text(summary),
    ensures
        match reply.field("error"@) {
            JsonView::Unsigned(n) => if n == 1357001 {
                query_result(status, body, Some(reply)) == Err::<JsonView, Failure<Seq<char>>>(Failure::SessionRefused)
            } else {
                n <= 0x7fff_ffff_ffff_ffff ==> query_result(status, body, Some(reply))
                    == Err::<JsonView, Failure<Seq<char>>>(Failure::Rejected(summary, n as i64))
            },
            JsonView::Negative(n) => n < 0 ==> query_result(status, body, Some(reply))
                == Err::<JsonView, Failure<Seq<char>>>(Failure::Rejected(summary, n)),
            _ => query_result(status, body, Some(reply)) == Err::<JsonView, Failure<Seq<char>>>(Failure::Rejected(summary, 0)),
        },
{
}

/// A query without data and without an error summary fails. Its first error tells
/// why: by its description, or else by its message. Without errors the reply is
/// empty.
pub proof fn law_query_without_data_fails(status: u16, body: Seq<char>, reply: JsonView)
    requires
        !(reply.field("errorSummary"@) is Text),
        match reply.field("data"@) {
            JsonView::Object(fields) => forall|i: int|
                0 <= i < fields.len() ==> (#[trigger] fields[i]).1 is Null,
            _ => true,
        },
    ensures
        match reply.field("errors"@) {
            JsonView::Array(errors) => if errors.len() > 0 {
                let d = match errors[0].field("description"@) {
                    JsonView::Text(d) => d,
                    _ => match errors[0].field("message"@) {
                        JsonView::Text(m) => m,
                        _ => "unknown error"@,
                    },
                };
                query_result(status, body, Some(reply)) == if text::contains(
                    d,
                    "User lookup returned null"@,
                ) {
                    Err::<JsonView, Failure<Seq<char>>>(Failure::NoSuchAccount)
                } else if text::contains(d, "feedback_required"@) {
                    Err::<JsonView, Failure<Seq<char>>>(Failure::Blocked)
                } else {
                    Err::<JsonView, Failure<Seq<char>>>(Failure::Answered(d))
                }
            } else {
                query_result(status, body, Some(reply)) == Err::<JsonView, Failure<Seq<char>>>(Failure::EmptyReply(status))
            },
            _ => query_result(status, body, Some(reply)) == Err::<JsonView, Failure<Seq<char>>>(Failure::EmptyReply(status)),
        },
{
}

/// A reply of the private API that is marked as failed, or that has no status of
/// success, fails, and its message tells why.
pub proof fn law_api_failures_tell_why(status: u16, body: Seq<char>, reply: JsonView)
    requires
        reply.field("status"@) == JsonView::Text("fail"@) || !(200 <= status < 300),
    ensures
        match reply.field("message"@) {
            JsonView::Text(m) => api_result(status, body, Some(reply)) == if m
                == "feedback_required"@ {
                Err::<JsonView, Failure<Seq<char>>>(Failure::Blocked)
            } else if m == "login_required"@ {
                Err::<JsonView, Failure<Seq<char>>>(Failure::SessionExpired)
            } else if m.len() == 0 {
                Err::<JsonView, Failure<Seq<char>>>(Failure::AnsweredStatus(status))
            } else {
                Err::<JsonView, Failure<Seq<char>>>(Failure::AnsweredMessage(m, status))
            },
            _ => api_result(status, body, Some(reply)) == Err::<JsonView, Failure<Seq<char>>>(Failure::AnsweredStatus(status)),
        },
{
    reveal_strlit("feedback_required");
    reveal_strlit("login_required");
    assert("feedback_required"@.len() > 0 && "login_required"@.len() > 0);
}

/// Any other reply of the private API is a success.
pub proof fn law_other_api_replies_succeed(status: u16, body: Seq<char>, reply: JsonView)
    requires
        reply.field("status"@) != JsonView::Text("fail"@),
        200 <= status < 300,
    ensures
        api_result(status, body, Some(reply)) == Ok::<JsonView, Failure<Seq<char>>>(reply),
{
    if let JsonView::Text(t) = reply.field("status"@) {
        assert(t != "fail"@);
    }
}

/// The guards in front of a reply are dropped, as many as there are, and nothing
/// else of it is.
pub proof fn law_guards_are_dropped(body: Seq<char>)
    ensures
        unguarded("for (;;);"@ + body) == unguarded(body),
        !"for (;;);"@.is_prefix_of(body) ==> unguarded(body) == body,
{
    reveal_strlit("for (;;);");
    text::law_leading_copies_are_dropped(body, "for (;;);"@);
}

/// A session tells its name exactly when its settings form is served, is JSON and
/// holds a name.
pub proof fn law_settings_form_tells_the_name(
    status: u16,
    line: Seq<char>,
    form: JsonView,
    name: Seq<char>,
)
    ensures
        !(200 <= status < 300) ==> settings_name(status, line, Some(form)) == Err::<
            Seq<char>,
            Failure<Seq<char>>,
        >(Failure::NotSignedIn(line)) && settings_name(status, line, None) == Err::<
            Seq<char>,
            Failure<Seq<char>>,
        >(Failure::NotSignedIn(line)),
        200 <= status < 300 ==> settings_name(status, line, None) == Err::<
            Seq<char>,
            Failure<Seq<char>>,
        >(Failure::SettingsNotJson),
        200 <= status < 300 && form.field("form_data"@).field("username"@) == JsonView::Text(name)
            ==> settings_name(status, line, Some(form)) == Ok::<Seq<char>, Failure<Seq<char>>>(
            name,
        ),
        200 <= status < 300 && !(form.field("form_data"@).field("username"@) is Text)
            ==> settings_name(status, line, Some(form)) == Err::<Seq<char>, Failure<Seq<char>>>(
            Failure::NoSignedInName,
        ),
{
}

/// A post is reached exactly when its path is still that of a post; a path of
/// slashes alone is the front page.
pub proof fn law_where_a_post_url_leads(path: Seq<char>)
    ensures
        landing(path) is Ok <==> text::contains(path, "/p/"@),
        !text::contains(path, "/p/"@) && (forall|k: int|
            0 <= k < path.len() ==> #[trigger] path[k] == '/') ==> landing(path) == Err::<
            (),
            Failure<Seq<char>>,
        >(Failure::RedirectedAway),
{
    let p = CharSet::Only('/').pred();
    if forall|k: int| 0 <= k < path.len() ==> #[trigger] path[k] == '/' {
        assert forall|k: int| 0 <= k < path.len() implies p(#[trigger] path[k]) by {}
        text::lemma_run_end_unique(path, 0, path.len() as int, p);
    }
}

/// A media file is served exactly with a status of success.
pub proof fn law_which_files_are_served(status: u16, line: Seq<char>)
    ensures
        200 <= status < 300 ==> served(status, line) is Ok,
        !(200 <= status < 300) ==> served(status, line) == Err::<(), Failure<Seq<char>>>(
            Failure::CdnStatus(line),
        ),
{
}

} // verus!
