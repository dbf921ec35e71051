//! Search: the accounts that a search reply lists.
use crate::json;
use crate::json::{array_at, text_at, Json, JsonView};
use vstd::prelude::*;

verus! {

/// An account that a search has found.
#[derive(Debug)]
pub struct UserHit {
    pub username: String,
    pub full_name: String,
    pub is_private: bool,
    pub is_verified: bool,
    pub profile_pic: String,
}

/// An account that a search has found, over character sequences.
pub struct UserHitView {
    pub username: Seq<char>,
    pub full_name: Seq<char>,
    pub is_private: bool,
    pub is_verified: bool,
    pub profile_pic: Seq<char>,
}

impl View for UserHit {
    type V = UserHitView;

    open spec fn view(&self) -> UserHitView {
        UserHitView {
            username: self.username@,
            full_name: self.full_name@,
            is_private: self.is_private,
            is_verified: self.is_verified,
            profile_pic: self.profile_pic@,
        }
    }
}

/// The hits of a vector as views.
pub open spec fn hit_views(v: Seq<UserHit>) -> Seq<UserHitView> {
    v.map_values(|h: UserHit| h@)
}

/// The account in an entry: the object behind `user`, or the entry itself.
pub open spec fn entry_user(entry: JsonView) -> JsonView {
    match entry.get("user"@) {
        Some(user) => user,
        None => entry,
    }
}

/// The hit of an entry, none where the account has no name.
pub open spec fn entry_hit(entry: JsonView) -> Option<UserHitView> {
    let user = entry_user(entry);
    let username = user.field("username"@).text_or_empty();
    if username.len() == 0 {
        None
    } else {
        Some(
            UserHitView {
                username,
                full_name: user.field("full_name"@).text_or_empty(),
                is_private: user.field("is_private"@).is_true(),
                is_verified: user.field("is_verified"@).is_true(),
                profile_pic: user.field("profile_pic_url"@).text_or_empty(),
            },
        )
    }
}

/// The hits of some entries, in their order.
pub open spec fn entry_hits(entries: Seq<JsonView>) -> Seq<UserHitView>
    decreases entries.len(),
{
    if entries.len() == 0 {
        Seq::empty()
    } else {
        match entry_hit(entries.last()) {
            Some(hit) => entry_hits(entries.drop_last()).push(hit),
            None => entry_hits(entries.drop_last()),
        }
    }
}

/// The accounts that a search reply lists.
pub open spec fn listed_hits(reply: JsonView) -> Seq<UserHitView> {
    entry_hits(reply.field("users"@).items())
}

/// Whether what stands behind a key is `true`.
fn flag_at(j: Option<&Json>) -> (r: bool)
    ensures
        r == json::view_or_null(j).is_true(),
{
    match j {
        Some(v) => v.is_true(),
        None => false,
    }
}

/// The hit of an entry, none where the account has no name.
fn hit_of(entry: &Json) -> (r: Option<UserHit>)
    ensures
        match r {
            Some(hit) => entry_hit(entry@) == Some(hit@),
            None => entry_hit(entry@) is None,
        },
{
    let user = match entry.get("user") {
        Some(u) => u,
        None => entry,
    };
    let username = text_at(user.get("username"));
    if username.as_str().is_empty() {
        return None;
    }
    Some(
        UserHit {
            username,
            full_name: text_at(user.get("full_name")),
            is_private: flag_at(user.get("is_private")),
            is_verified: flag_at(user.get("is_verified")),
            profile_pic: text_at(user.get("profile_pic_url")),
        },
    )
}

/// The accounts that a search reply lists.
pub fn hits_from_reply(j: &Json) -> (r: Vec<UserHit>)
    ensures
        hit_views(r@) == listed_hits(j@),
{
    let mut out: Vec<UserHit> = Vec::new();
    match array_at(j.get("users")) {
        Some(entries) => {
            let ghost all = json::views(entries@);
            let mut i: usize = 0;
            while i < entries.len()
                invariant
                    all == json::views(entries@),
                    all == j@.field("users"@).items(),
                    0 <= i <= entries@.len(),
                    hit_views(out@) == entry_hits(all.subrange(0, i as int)),
                decreases entries@.len() - i,
            {
                let ghost before = out@;
                proof {
                    assert(all.subrange(0, i + 1).drop_last() == all.subrange(0, i as int));
                    assert(all.subrange(0, i + 1).last() == entries@[i as int]@);
                }
                if let Some(hit) = hit_of(&entries[i]) {
                    out.push(hit);
                    assert(hit_views(out@) == hit_views(before).push(hit@));
                }
                i = i + 1;
            }
            assert(all.subrange(0, all.len() as int) == all);
        },
        None => {
            assert(hit_views(out@) == entry_hits(Seq::empty()));
        },
    }
    out
}

/// Every hit has a name, and each entry gives at most one.
pub proof fn law_hits_have_names(entries: Seq<JsonView>)
    ensures
        entry_hits(entries).len() <= entries.len(),
        forall|k: int|
            0 <= k < entry_hits(entries).len() ==> (#[trigger] entry_hits(entries)[k]).username.len()
                > 0,
    decreases entries.len(),
{
    if entries.len() > 0 {
        let front = entry_hits(entries.drop_last());
        law_hits_have_names(entries.drop_last());
        assert forall|k: int| 0 <= k < entry_hits(entries).len() implies (#[trigger] entry_hits(
            entries,
        )[k]).username.len() > 0 by {
            if k < front.len() {
                assert(entry_hits(entries)[k] == front[k]);
            }
        }
    }
}

/// A reply gives one hit for each entry whose account has a name that is not
/// empty, whatever else is said of the account, and none for any other; the hits
/// stand in the order of the entries, and each tells what its account says.
pub proof fn law_every_named_account_is_a_hit(entries: Seq<JsonView>)
    ensures
        entry_hits(entries) == entries.map_values(
            |e: JsonView|
                match e.get("user"@) {
                    Some(user) => user,
                    None => e,
                },
        ).filter(
            |user: JsonView|
                match user.field("username"@) {
                    JsonView::Text(name) => name.len() > 0,
                    _ => false,
                },
        ).map_values(
            |user: JsonView|
                UserHitView {
                    username: user.field("username"@)->Text_0,
                    full_name: match user.field("full_name"@) {
                        JsonView::Text(t) => t,
                        _ => Seq::empty(),
                    },
                    is_private: user.field("is_private"@) == JsonView::Bool(true),
                    is_verified: user.field("is_verified"@) == JsonView::Bool(true),
                    profile_pic: match user.field("profile_pic_url"@) {
                        JsonView::Text(t) => t,
                        _ => Seq::empty(),
                    },
                },
        ),
    decreases entries.len(),
{
    reveal(Seq::filter);
    let account = |e: JsonView|
        match e.get("user"@) {
            Some(user) => user,
            None => e,
        };
    let named = |user: JsonView|
        match user.field("username"@) {
            JsonView::Text(name) => name.len() > 0,
            _ => false,
        };
    let hit = |user: JsonView|
        UserHitView {
            username: user.field("username"@)->Text_0,
            full_name: match user.field("full_name"@) {
                JsonView::Text(t) => t,
                _ => Seq::empty(),
            },
            is_private: user.field("is_private"@) == JsonView::Bool(true),
            is_verified: user.field("is_verified"@) == JsonView::Bool(true),
            profile_pic: match user.field("profile_pic_url"@) {
                JsonView::Text(t) => t,
                _ => Seq::empty(),
            },
        };
    let accounts = entries.map_values(account);
    if entries.len() > 0 {
        let front = entries.drop_last();
        let user = account(entries.last());
        law_every_named_account_is_a_hit(front);
        assert(accounts.drop_last() == front.map_values(account));
        assert(accounts.last() == user);
        let kept = accounts.drop_last().filter(named);
        if named(user) {
            assert(accounts.filter(named) == kept.push(user));
            assert(kept.push(user).map_values(hit) == kept.map_values(hit).push(hit(user)));
            assert(entry_hit(entries.last()) == Some(hit(user)));
        } else {
            assert(accounts.filter(named) == kept);
            assert(entry_hit(entries.last()) is None);
        }
    } else {
        assert(accounts == Seq::<JsonView>::empty());
        assert(accounts.filter(named).map_values(hit) == Seq::<UserHitView>::empty());
    }
}

/// The names of the hits of a reply are the names of its entries that are not
/// empty, in their order; a reply without entries has none.
pub proof fn law_hit_names_are_the_entry_names(reply: JsonView)
    ensures
        listed_hits(reply).map_values(|h: UserHitView| h.username) == (match reply.field(
            "users"@,
        ) {
            JsonView::Array(entries) => entries,
            _ => Seq::empty(),
        }).map_values(
            |e: JsonView|
                match (match e.get("user"@) {
                    Some(user) => user,
                    None => e,
                }).field("username"@) {
                    JsonView::Text(name) => name,
                    _ => Seq::<char>::empty(),
                },
        ).filter(|name: Seq<char>| name.len() > 0),
{
    let entries = match reply.field("users"@) {
        JsonView::Array(entries) => entries,
        _ => Seq::empty(),
    };
    lemma_hit_names(entries);
}

/// The names of the hits of some entries are the names of the entries that are
/// not empty.
proof fn lemma_hit_names(entries: Seq<JsonView>)
    ensures
        entry_hits(entries).map_values(|h: UserHitView| h.username) == entries.map_values(
            |e: JsonView|
                match (match e.get("user"@) {
                    Some(user) => user,
                    None => e,
                }).field("username"@) {
                    JsonView::Text(name) => name,
                    _ => Seq::<char>::empty(),
                },
        ).filter(|name: Seq<char>| name.len() > 0),
    decreases entries.len(),
{
    reveal(Seq::filter);
    let name = |e: JsonView|
        match (match e.get("user"@) {
            Some(user) => user,
            None => e,
        }).field("username"@) {
            JsonView::Text(name) => name,
            _ => Seq::<char>::empty(),
        };
    let told = |h: UserHitView| h.username;
    let names = entries.map_values(name);
    if entries.len() > 0 {
        let front = entries.drop_last();
        lemma_hit_names(front);
        assert(names.drop_last() == front.map_values(name));
        assert(names.last() == name(entries.last()));
        if let Some(h) = entry_hit(entries.last()) {
            assert(entry_hits(front).push(h).map_values(told) == entry_hits(front).map_values(
                told,
            ).push(h.username));
        }
    } else {
        assert(entry_hits(entries).map_values(told) == Seq::<Seq<char>>::empty());
        assert(names == Seq::<Seq<char>>::empty());
    }
}

} // verus!
