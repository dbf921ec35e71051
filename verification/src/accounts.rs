//! The stored accounts: who they are, which one is active, and what is told
//! about them.
use crate::error;
use crate::error::{Error, Failure};
use crate::text;
use crate::text::{joined, owned, same_text, trimmed_chars, whole_string};
use vstd::prelude::*;

verus! {

/// An account: its name and its whole cookie jar.
#[derive(Debug)]
pub struct Account {
    pub username: String,
    pub cookies: String,
}

/// The stored accounts, and the name of the active one.
#[derive(Debug)]
pub struct Accounts {
    pub active: String,
    pub accounts: Vec<Account>,
}

/// An account, over character sequences.
pub struct AccountView {
    pub username: Seq<char>,
    pub cookies: Seq<char>,
}

/// The stored accounts, over character sequences.
pub struct AccountsView {
    pub active: Seq<char>,
    pub accounts: Seq<AccountView>,
}

impl View for Account {
    type V = AccountView;

    open spec fn view(&self) -> AccountView {
        AccountView { username: self.username@, cookies: self.cookies@ }
    }
}

/// The accounts of a vector as views.
pub open spec fn account_views(v: Seq<Account>) -> Seq<AccountView> {
    v.map_values(|a: Account| a@)
}

impl View for Accounts {
    type V = AccountsView;

    open spec fn view(&self) -> AccountsView {
        AccountsView { active: self.active@, accounts: account_views(self.accounts@) }
    }
}

/// The index of the first account of this name from `i` on.
pub open spec fn index_from(accounts: Seq<AccountView>, name: Seq<char>, i: int) -> Option<int>
    decreases accounts.len() - i,
{
    if i < 0 || i >= accounts.len() {
        None
    } else if accounts[i].username == name {
        Some(i)
    } else {
        index_from(accounts, name, i + 1)
    }
}

/// Those accounts that have another name, in their order.
pub open spec fn without(accounts: Seq<AccountView>, name: Seq<char>) -> Seq<AccountView>
    decreases accounts.len(),
{
    if accounts.len() == 0 {
        Seq::empty()
    } else if accounts.last().username == name {
        without(accounts.drop_last(), name)
    } else {
        without(accounts.drop_last(), name).push(accounts.last())
    }
}

impl AccountsView {
    /// The index of the first account of this name.
    pub open spec fn index_of(self, name: Seq<char>) -> Option<int> {
        index_from(self.accounts, name, 0)
    }

    /// The cookies stored under a name.
    pub open spec fn cookies_of(self, name: Seq<char>) -> Option<Seq<char>> {
        match self.index_of(name) {
            Some(i) => Some(self.accounts[i].cookies),
            None => None,
        }
    }

    /// The cookies of the active account; empty ones count as none.
    pub open spec fn usable_cookies(self) -> Option<Seq<char>> {
        match self.cookies_of(self.active) {
            Some(c) => if c.len() > 0 {
                Some(c)
            } else {
                None
            },
            None => None,
        }
    }

    /// The accounts with these cookies under a name, which is made the active
    /// one: they take the place of those stored under it, or come last.
    pub open spec fn upserted(self, name: Seq<char>, cookies: Seq<char>) -> AccountsView {
        let account = AccountView { username: name, cookies };
        AccountsView {
            active: name,
            accounts: match self.index_of(name) {
                Some(i) => self.accounts.update(i, account),
                None => self.accounts.push(account),
            },
        }
    }

    /// The accounts with another one active.
    pub open spec fn switched(self, name: Seq<char>) -> AccountsView {
        AccountsView { active: name, accounts: self.accounts }
    }

    /// The accounts without those of a name. If the active one goes, the first
    /// that is left is active, or none.
    pub open spec fn removed(self, name: Seq<char>) -> AccountsView {
        let rest = without(self.accounts, name);
        AccountsView {
            active: if self.active != name {
                self.active
            } else if rest.len() > 0 {
                rest[0].username
            } else {
                Seq::empty()
            },
            accounts: rest,
        }
    }

    /// The accounts with the active one under its real name.
    pub open spec fn renamed(self, name: Seq<char>) -> AccountsView {
        if self.active == name {
            self
        } else {
            AccountsView {
                active: name,
                accounts: match self.index_of(self.active) {
                    Some(i) => self.accounts.update(
                        i,
                        AccountView { username: name, cookies: self.accounts[i].cookies },
                    ),
                    None => self.accounts,
                },
            }
        }
    }

    /// The names of the accounts.
    pub open spec fn names(self) -> Seq<Seq<char>> {
        self.accounts.map_values(|a: AccountView| a.username)
    }

    /// Whether no name stands for two accounts.
    pub open spec fn names_distinct(self) -> bool {
        forall|i: int, j: int|
            0 <= i < j < self.accounts.len() ==> (#[trigger] self.accounts[i]).username != (
            #[trigger] self.accounts[j]).username
    }
}

/// No accounts.
pub open spec fn no_accounts() -> AccountsView {
    AccountsView { active: Seq::empty(), accounts: Seq::empty() }
}

/// The accounts to start with: those that were stored, or else the one in the
/// cookie file of older versions, which has no name until it is asked for.
pub open spec fn loaded(stored: Option<AccountsView>, legacy: Option<Seq<char>>) -> AccountsView {
    match stored {
        Some(a) => a,
        None => match legacy {
            Some(c) => if text::trim(c).len() > 0 {
                AccountsView {
                    active: "(unknown)"@,
                    accounts: seq![
                        AccountView { username: "(unknown)"@, cookies: text::trim(c) },
                    ],
                }
            } else {
                no_accounts()
            },
            None => no_accounts(),
        },
    }
}

/// Optional accounts as a view.
pub open spec fn opt_accounts(o: Option<Accounts>) -> Option<AccountsView> {
    match o {
        Some(a) => Some(a@),
        None => None,
    }
}

impl Default for Accounts {
    /// No accounts.
    fn default() -> (r: Accounts)
        ensures
            r@ == no_accounts(),
    {
        let r = Accounts { active: String::new(), accounts: Vec::new() };
        assert(r@.accounts == Seq::<AccountView>::empty());
        r
    }
}

impl Accounts {
    /// The index of the first account of this name.
    fn position(&self, name: &str) -> (r: Option<usize>)
        ensures
            match r {
                Some(i) => i < self.accounts@.len() && self@.index_of(name@) == Some(i as int),
                None => self@.index_of(name@) is None,
            },
    {
        let ghost all = self@.accounts;
        let mut i: usize = 0;
        while i < self.accounts.len()
            invariant
                all == account_views(self.accounts@),
                0 <= i <= self.accounts@.len(),
                index_from(all, name@, 0) == index_from(all, name@, i as int),
            decreases self.accounts@.len() - i,
        {
            assert(all[i as int] == self.accounts@[i as int]@);
            if same_text(self.accounts[i].username.as_str(), name) {
                return Some(i);
            }
            i = i + 1;
        }
        None
    }

    /// The cookies of the active account.
    pub fn active_cookies(&self) -> (r: Option<String>)
        ensures
            text::opt_text(r) == self@.cookies_of(self@.active),
    {
        match self.position(self.active.as_str()) {
            Some(i) => Some(self.accounts[i].cookies.clone()),
            None => None,
        }
    }

    /// The cookies of the active account, if there are any.
    pub fn usable_cookies(&self) -> (r: Option<String>)
        ensures
            text::opt_text(r) == self@.usable_cookies(),
    {
        match self.active_cookies() {
            Some(c) => if c.as_str().is_empty() {
                None
            } else {
                Some(c)
            },
            None => None,
        }
    }

    /// The cookies that a session is opened with.
    pub fn session_cookies(&self) -> (r: Result<String, Error>)
        ensures
            error::outcome(r) == match self@.usable_cookies() {
                Some(c) => Ok(c),
                None => Err(Failure::<Seq<char>>::NoAccount),
            },
    {
        match self.usable_cookies() {
            Some(c) => Ok(c),
            None => Err(Failure::NoAccount),
        }
    }

    /// Adds an account or replaces the cookies of the one of this name, and makes
    /// it the active one.
    pub fn upsert(&mut self, username: String, cookies: String)
        ensures
            final(self)@ == old(self)@.upserted(username@, cookies@),
    {
        let ghost before = self@.accounts;
        let at = self.position(username.as_str());
        let account = Account { username: username.clone(), cookies };
        let ghost view = account@;
        match at {
            Some(i) => {
                self.accounts.set(i, account);
                assert(account_views(self.accounts@) == before.update(i as int, view));
            },
            None => {
                self.accounts.push(account);
                assert(account_views(self.accounts@) == before.push(view));
            },
        }
        self.active = username;
    }

    /// Makes another stored account the active one.
    pub fn switch_to(&mut self, username: &str) -> (r: Result<(), Error>)
        ensures
            match r {
                Ok(()) => old(self)@.index_of(username@) is Some && final(self)@ == old(
                    self,
                )@.switched(username@),
                Err(e) => old(self)@.index_of(username@) is None && final(self)@ == old(self)@
                    && e@ == Failure::UnknownAccount(username@),
            },
    {
        if self.position(username).is_none() {
            return Err(Failure::UnknownAccount(owned(username)));
        }
        self.active = owned(username);
        Ok(())
    }

    /// Drops an account. If it was the active one, the first that is left takes
    /// its place.
    pub fn remove(&mut self, username: &str)
        ensures
            final(self)@ == old(self)@.removed(username@),
    {
        let ghost all = self@.accounts;
        let mut rest: Vec<Account> = Vec::new();
        let mut i: usize = 0;
        while i < self.accounts.len()
            invariant
                *self == *old(self),
                all == account_views(self.accounts@),
                0 <= i <= self.accounts@.len(),
                account_views(rest@) == without(all.subrange(0, i as int), username@),
            decreases self.accounts@.len() - i,
        {
            let ghost before = rest@;
            proof {
                assert(all.subrange(0, i + 1).drop_last() == all.subrange(0, i as int));
                assert(all.subrange(0, i + 1).last() == self.accounts@[i as int]@);
            }
            if !same_text(self.accounts[i].username.as_str(), username) {
                let kept = Account {
                    username: self.accounts[i].username.clone(),
                    cookies: self.accounts[i].cookies.clone(),
                };
                rest.push(kept);
                assert(account_views(rest@) == account_views(before).push(kept@));
            }
            i = i + 1;
        }
        assert(all.subrange(0, all.len() as int) == all);
        if same_text(self.active.as_str(), username) {
            if rest.len() > 0 {
                assert(account_views(rest@)[0] == rest@[0]@);
                self.active = rest[0].username.clone();
            } else {
                self.active = String::new();
            }
        }
        self.accounts = rest;
    }

    /// Gives the active account its real name. Tells whether anything changed.
    pub fn rename_active(&mut self, name: &str) -> (r: bool)
        ensures
            final(self)@ == old(self)@.renamed(name@),
            r == (old(self)@.active != name@),
    {
        if same_text(self.active.as_str(), name) {
            return false;
        }
        let ghost before = self@.accounts;
        if let Some(i) = self.position(self.active.as_str()) {
            let account = Account {
                username: owned(name),
                cookies: self.accounts[i].cookies.clone(),
            };
            let ghost view = account@;
            assert(before[i as int] == self.accounts@[i as int]@);
            self.accounts.set(i, account);
            assert(account_views(self.accounts@) == before.update(i as int, view));
        }
        self.active = owned(name);
        true
    }
}

/// The accounts to start with, from what was stored and from the cookie file of
/// older versions.
pub fn load_accounts(stored: Option<Accounts>, legacy: Option<&str>) -> (r: Accounts)
    ensures
        r@ == loaded(
            opt_accounts(stored),
            match legacy {
                Some(c) => Some(c@),
                None => None,
            },
        ),
{
    if let Some(a) = stored {
        return a;
    }
    if let Some(c) = legacy {
        let c = trimmed_chars(c);
        if c.len() > 0 {
            let account = Account { username: owned("(unknown)"), cookies: whole_string(&c) };
            let ghost view = account@;
            let mut accounts: Vec<Account> = Vec::new();
            accounts.push(account);
            assert(account_views(accounts@) == seq![view]);
            return Accounts { active: owned("(unknown)"), accounts };
        }
    }
    Accounts::default()
}

/// What is shown of the accounts.
#[derive(Debug)]
pub struct AuthState {
    pub signed_in: bool,
    pub username: String,
    pub detail: String,
    pub accounts: Vec<String>,
}

/// What is shown of the accounts, over character sequences.
pub struct AuthStateView {
    pub signed_in: bool,
    pub username: Seq<char>,
    pub detail: Seq<char>,
    pub accounts: Seq<Seq<char>>,
}

impl View for AuthState {
    type V = AuthStateView;

    open spec fn view(&self) -> AuthStateView {
        AuthStateView {
            signed_in: self.signed_in,
            username: self.username@,
            detail: self.detail@,
            accounts: text::texts(self.accounts@),
        }
    }
}

/// What is shown of accounts.
pub open spec fn shown(a: AccountsView, signed_in: bool, detail: Seq<char>) -> AuthStateView {
    AuthStateView { signed_in, username: a.active, detail, accounts: a.names() }
}

/// What is shown of accounts.
pub fn snapshot_of(a: &Accounts, signed_in: bool, detail: String) -> (r: AuthState)
    ensures
        r@ == shown(a@, signed_in, detail@),
{
    let mut names: Vec<String> = Vec::new();
    let mut i: usize = 0;
    while i < a.accounts.len()
        invariant
            0 <= i <= a.accounts@.len(),
            names@.len() == i,
            forall|k: int| 0 <= k < i ==> (#[trigger] names@[k])@ == a.accounts@[k].username@,
        decreases a.accounts@.len() - i,
    {
        names.push(a.accounts[i].username.clone());
        i = i + 1;
    }
    assert(text::texts(names@) == a@.names());
    AuthState { signed_in, username: a.active.clone(), detail, accounts: names }
}

/// What is shown before any account can be asked for its name.
pub fn no_account_state(a: &Accounts) -> (r: AuthState)
    ensures
        r@ == shown(a@, false, "no account added yet"@),
{
    snapshot_of(a, false, owned("no account added yet"))
}

/// What is shown once the active account has been asked for its name.
pub open spec fn answered(a: AccountsView, who: Result<Seq<char>, Seq<char>>) -> AuthStateView {
    match who {
        Ok(name) => shown(a.renamed(name), true, "signed in as @"@ + name),
        Err(why) => shown(a, false, "session invalid — "@ + why),
    }
}

/// A name or a reason, over character sequences.
pub open spec fn name_or_reason(who: Result<String, String>) -> Result<Seq<char>, Seq<char>> {
    match who {
        Ok(name) => Ok(name@),
        Err(why) => Err(why@),
    }
}

/// Takes the answer of the active account to who it is: its name, or why it did
/// not tell it. An account that came without a name is labelled once it is known.
/// Gives what is then shown, and whether the accounts have changed.
pub fn auth_answer(a: &mut Accounts, who: Result<String, String>) -> (r: (AuthState, bool))
    ensures
        r.0@ == answered(old(a)@, name_or_reason(who)),
        match who {
            Ok(name) => final(a)@ == old(a)@.renamed(name@) && r.1 == (old(a)@.active != name@),
            Err(_) => final(a)@ == old(a)@ && !r.1,
        },
{
    match who {
        Ok(name) => {
            let changed = a.rename_active(name.as_str());
            (snapshot_of(a, true, joined("signed in as @", name.as_str())), changed)
        },
        Err(why) => (snapshot_of(a, false, joined("session invalid — ", why.as_str())), false),
    }
}

/// An index that is found is that of the first account of the name.
proof fn lemma_index_from(accounts: Seq<AccountView>, name: Seq<char>, i: int)
    requires
        0 <= i,
    ensures
        match index_from(accounts, name, i) {
            Some(k) => i <= k < accounts.len() && accounts[k].username == name && forall|j: int|
                i <= j < k ==> (#[trigger] accounts[j]).username != name,
            None => forall|j: int|
                i <= j < accounts.len() ==> (#[trigger] accounts[j]).username != name,
        },
    decreases accounts.len() - i,
{
    if i < accounts.len() && accounts[i].username != name {
        lemma_index_from(accounts, name, i + 1);
    }
}

/// The first account of a name is the one that is found.
proof fn lemma_index_unique(accounts: Seq<AccountView>, name: Seq<char>, k: int)
    requires
        0 <= k < accounts.len(),
        accounts[k].username == name,
        forall|j: int| 0 <= j < k ==> (#[trigger] accounts[j]).username != name,
    ensures
        index_from(accounts, name, 0) == Some(k),
{
    lemma_index_from(accounts, name, 0);
}

/// An account that is added or replaced is the active one, and its cookies are
/// those that were given.
pub proof fn law_upsert_activates(a: AccountsView, name: Seq<char>, cookies: Seq<char>)
    ensures
        a.upserted(name, cookies).active == name,
        a.upserted(name, cookies).cookies_of(name) == Some(cookies),
{
    let b = a.upserted(name, cookies);
    lemma_index_from(a.accounts, name, 0);
    match a.index_of(name) {
        Some(i) => {
            assert forall|j: int| 0 <= j < i implies (#[trigger] b.accounts[j]).username != name by {
                assert(b.accounts[j] == a.accounts[j]);
            }
            lemma_index_unique(b.accounts, name, i);
        },
        None => {
            let i = a.accounts.len() as int;
            assert forall|j: int| 0 <= j < i implies (#[trigger] b.accounts[j]).username != name by {
                assert(b.accounts[j] == a.accounts[j]);
            }
            lemma_index_unique(b.accounts, name, i);
        },
    }
}

/// Adding or replacing an account leaves what is stored under other names.
pub proof fn law_upsert_leaves_others(
    a: AccountsView,
    name: Seq<char>,
    cookies: Seq<char>,
    other: Seq<char>,
)
    requires
        other != name,
    ensures
        a.upserted(name, cookies).cookies_of(other) == a.cookies_of(other),
        a.names_distinct() ==> a.upserted(name, cookies).names_distinct(),
{
    let b = a.upserted(name, cookies);
    lemma_index_from(a.accounts, name, 0);
    lemma_index_from(a.accounts, other, 0);
    lemma_index_from(b.accounts, other, 0);
    assert forall|j: int| 0 <= j < a.accounts.len() implies (#[trigger] b.accounts[j]).username
        == a.accounts[j].username by {}
    match a.index_of(other) {
        Some(i) => {
            assert forall|j: int| 0 <= j < i implies (#[trigger] b.accounts[j]).username != other by {
                assert(a.accounts[j].username != other);
            }
            lemma_index_unique(b.accounts, other, i);
        },
        None => {
            assert forall|j: int| 0 <= j < b.accounts.len() implies (
            #[trigger] b.accounts[j]).username != other by {
                if j < a.accounts.len() {
                    assert(a.accounts[j].username != other);
                }
            }
        },
    }
    if a.names_distinct() {
        assert forall|i: int, j: int| 0 <= i < j < b.accounts.len() implies (
        #[trigger] b.accounts[i]).username != (#[trigger] b.accounts[j]).username by {
            if j < a.accounts.len() {
                assert(a.accounts[i].username != a.accounts[j].username);
            } else {
                assert(a.accounts[i].username != name);
            }
        }
    }
}

/// Adding an account twice is adding it once, with the cookies given last.
pub proof fn law_last_upsert_wins(
    a: AccountsView,
    name: Seq<char>,
    first: Seq<char>,
    second: Seq<char>,
)
    ensures
        a.upserted(name, first).upserted(name, second) == a.upserted(name, second),
{
    let b = a.upserted(name, first);
    let c = a.upserted(name, second);
    law_upsert_activates(a, name, first);
    lemma_index_from(a.accounts, name, 0);
    lemma_index_from(b.accounts, name, 0);
    let i = match a.index_of(name) {
        Some(i) => i,
        None => a.accounts.len() as int,
    };
    assert forall|j: int| 0 <= j < i implies (#[trigger] b.accounts[j]).username != name by {
        assert(b.accounts[j] == a.accounts[j]);
    }
    lemma_index_unique(b.accounts, name, i);
    assert(b.upserted(name, second).accounts == c.accounts);
}

/// What is left after accounts of a name are dropped.
proof fn lemma_without(accounts: Seq<AccountView>, name: Seq<char>)
    ensures
        forall|k: int|
            0 <= k < without(accounts, name).len() ==> (#[trigger] without(
                accounts,
                name,
            )[k]).username != name && accounts.contains(without(accounts, name)[k]),
        forall|k: int|
            0 <= k < accounts.len() && (#[trigger] accounts[k]).username != name ==> without(
                accounts,
                name,
            ).contains(accounts[k]),
    decreases accounts.len(),
{
    if accounts.len() > 0 {
        let front = accounts.drop_last();
        let head = without(front, name);
        let rest = without(accounts, name);
        lemma_without(front, name);
        assert forall|k: int| 0 <= k < rest.len() implies (#[trigger] rest[k]).username != name
            && accounts.contains(rest[k]) by {
            if k < head.len() {
                assert(rest[k] == head[k]);
                let j = choose|j: int| 0 <= j < front.len() && front[j] == head[k];
                assert(accounts[j] == rest[k]);
            } else {
                assert(rest[k] == accounts.last());
                assert(accounts[accounts.len() - 1] == rest[k]);
            }
        }
        assert forall|k: int|
            0 <= k < accounts.len() && (#[trigger] accounts[k]).username
                != name implies rest.contains(accounts[k]) by {
            if k < front.len() {
                assert(front[k] == accounts[k]);
                let j = choose|j: int| 0 <= j < head.len() && head[j] == front[k];
                assert(rest[j] == accounts[k]);
            } else {
                assert(rest[head.len() as int] == accounts[k]);
            }
        }
    }
}

/// The first account of another name stays the first one when accounts are
/// dropped.
proof fn lemma_without_first(accounts: Seq<AccountView>, name: Seq<char>, other: Seq<char>)
    requires
        other != name,
    ensures
        match index_from(accounts, other, 0) {
            Some(i) => index_from(without(accounts, name), other, 0) matches Some(k) && without(
                accounts,
                name,
            )[k] == accounts[i],
            None => index_from(without(accounts, name), other, 0) is None,
        },
    decreases accounts.len(),
{
    let rest = without(accounts, name);
    lemma_index_from(accounts, other, 0);
    lemma_index_from(rest, other, 0);
    if accounts.len() > 0 {
        let front = accounts.drop_last();
        let last = accounts.len() - 1;
        let head = without(front, name);
        lemma_without_first(front, name, other);
        lemma_index_from(front, other, 0);
        lemma_index_from(head, other, 0);
        match index_from(front, other, 0) {
            Some(i) => {
                assert forall|j: int| 0 <= j < i implies (#[trigger] accounts[j]).username
                    != other by {
                    assert(front[j] == accounts[j]);
                }
                assert(accounts[i] == front[i]);
                lemma_index_unique(accounts, other, i);
                let k = index_from(head, other, 0)->0;
                assert forall|j: int| 0 <= j < k implies (#[trigger] rest[j]).username != other by {
                    assert(rest[j] == head[j]);
                }
                assert(rest[k] == head[k]);
                lemma_index_unique(rest, other, k);
            },
            None => {
                assert forall|j: int| 0 <= j < last implies (#[trigger] accounts[j]).username
                    != other by {
                    assert(front[j] == accounts[j]);
                }
                if accounts.last().username == other {
                    lemma_index_unique(accounts, other, last);
                    let k = head.len() as int;
                    assert forall|j: int| 0 <= j < k implies (#[trigger] rest[j]).username
                        != other by {
                        assert(rest[j] == head[j]);
                    }
                    assert(rest[k] == accounts.last());
                    lemma_index_unique(rest, other, k);
                } else {
                    assert forall|j: int| 0 <= j < rest.len() implies (
                    #[trigger] rest[j]).username != other by {
                        if j < head.len() {
                            assert(rest[j] == head[j]);
                        }
                    }
                }
            },
        }
    }
}

/// Dropping accounts puts no two of the same name into the list.
proof fn lemma_without_distinct(a: AccountsView, name: Seq<char>)
    requires
        a.names_distinct(),
    ensures
        a.removed(name).names_distinct(),
    decreases a.accounts.len(),
{
    let all = a.accounts;
    let rest = without(all, name);
    if all.len() > 0 {
        let front = AccountsView { active: a.active, accounts: all.drop_last() };
        let head = without(front.accounts, name);
        assert forall|i: int, j: int| 0 <= i < j < front.accounts.len() implies (
        #[trigger] front.accounts[i]).username != (#[trigger] front.accounts[j]).username by {
            assert(all[i].username != all[j].username);
        }
        lemma_without_distinct(front, name);
        lemma_without(front.accounts, name);
        assert forall|i: int, j: int| 0 <= i < j < rest.len() implies (#[trigger] rest[i]).username
            != (#[trigger] rest[j]).username by {
            assert(rest[i] == head[i]);
            if j < head.len() {
                assert(front.removed(name).accounts[i].username != front.removed(
                    name,
                ).accounts[j].username);
            } else {
                let k = choose|k: int|
                    0 <= k < front.accounts.len() && front.accounts[k] == head[i];
                assert(all[k].username != all[all.len() - 1].username);
            }
        }
    }
}

/// A dropped account is gone, what is stored under other names stays, and no
/// name comes to stand for two accounts.
pub proof fn law_remove_forgets_only_one(a: AccountsView, name: Seq<char>, other: Seq<char>)
    ensures
        a.names_distinct() ==> a.removed(name).names_distinct(),
        a.removed(name).cookies_of(name) is None,
        other != name ==> a.removed(name).cookies_of(other) == a.cookies_of(other),
        a.active != name ==> a.removed(name).active == a.active,
{
    let rest = a.removed(name).accounts;
    lemma_without(a.accounts, name);
    lemma_index_from(rest, name, 0);
    if other != name {
        lemma_without_first(a.accounts, name, other);
    }
    if a.names_distinct() {
        lemma_without_distinct(a, name);
    }
}

/// Whether the active name is that of a stored account, or there is no account
/// and no name.
pub open spec fn active_is_stored(a: AccountsView) -> bool {
    if a.accounts.len() == 0 {
        a.active.len() == 0
    } else {
        a.index_of(a.active) is Some
    }
}

/// Whatever is done to the accounts, the active name stays that of a stored
/// account as long as there is one.
pub proof fn law_active_stays_stored(a: AccountsView, name: Seq<char>, cookies: Seq<char>)
    requires
        active_is_stored(a),
    ensures
        active_is_stored(a.upserted(name, cookies)),
        a.index_of(name) is Some ==> active_is_stored(a.switched(name)),
        active_is_stored(a.removed(name)),
        a.accounts.len() > 0 ==> active_is_stored(a.renamed(name)),
        active_is_stored(no_accounts()),
        active_is_stored(loaded(None, None)),
        active_is_stored(loaded(None, Some(cookies))),
{
    law_upsert_activates(a, name, cookies);
    lemma_index_from(a.accounts, name, 0);
    lemma_index_from(a.accounts, a.active, 0);
    let rest = a.removed(name).accounts;
    lemma_without(a.accounts, name);
    lemma_index_from(rest, a.removed(name).active, 0);
    if rest.len() > 0 {
        if a.active != name {
            lemma_without_first(a.accounts, name, a.active);
        } else {
            lemma_index_unique(rest, rest[0].username, 0);
        }
    } else if a.accounts.len() > 0 && a.active != name {
        let i = a.index_of(a.active)->0;
        assert(rest.contains(a.accounts[i]));
    }
    if a.accounts.len() > 0 && a.active != name {
        let b = a.renamed(name);
        let i = a.index_of(a.active)->0;
        assert(b.accounts[i].username == name);
        lemma_index_from(b.accounts, name, 0);
    }
    let old_file = loaded(None, Some(cookies));
    if old_file.accounts.len() > 0 {
        lemma_index_unique(old_file.accounts, old_file.active, 0);
    }
}

/// An account that came without a name keeps its cookies when it is labelled,
/// and stays the active one.
pub proof fn law_labelling_keeps_the_cookies(cookies: Seq<char>, name: Seq<char>)
    requires
        text::trim(cookies).len() > 0,
    ensures
        loaded(None, Some(cookies)).renamed(name).active == name,
        loaded(None, Some(cookies)).renamed(name).cookies_of(name) == Some(text::trim(cookies)),
{
    let a = loaded(None, Some(cookies));
    lemma_index_unique(a.accounts, a.active, 0);
    let b = a.renamed(name);
    lemma_index_unique(b.accounts, name, 0);
}

/// The cookies of a name are those of the first account that has it, and a name
/// that no account has has none.
pub proof fn law_cookies_are_those_of_the_first(a: AccountsView, name: Seq<char>, i: int)
    requires
        0 <= i <= a.accounts.len(),
        forall|j: int| 0 <= j < i ==> (#[trigger] a.accounts[j]).username != name,
        i < a.accounts.len() ==> a.accounts[i].username == name,
    ensures
        a.cookies_of(name) == if i < a.accounts.len() {
            Some(a.accounts[i].cookies)
        } else {
            None
        },
        a.index_of(name) is Some <==> i < a.accounts.len(),
{
    lemma_index_from(a.accounts, name, 0);
    if i < a.accounts.len() {
        lemma_index_unique(a.accounts, name, i);
    }
}

/// Cookies can be used exactly when the active account has some that are not empty.
pub proof fn law_usable_cookies_are_the_active_ones(a: AccountsView, c: Seq<char>)
    ensures
        a.cookies_of(a.active) == Some(c) && c.len() > 0 ==> a.usable_cookies() == Some(c),
        a.cookies_of(a.active) == Some(c) && c.len() == 0 ==> a.usable_cookies() is None,
        a.cookies_of(a.active) is None ==> a.usable_cookies() is None,
{
}

/// Adding an account that is not stored yet puts it behind the others; replacing
/// one changes its cookies and nothing else in the list.
pub proof fn law_upsert_keeps_the_list(a: AccountsView, name: Seq<char>, cookies: Seq<char>)
    ensures
        (forall|j: int| 0 <= j < a.accounts.len() ==> (#[trigger] a.accounts[j]).username != name)
            ==> a.upserted(name, cookies).accounts == a.accounts.push(
            AccountView { username: name, cookies },
        ),
        (exists|j: int| 0 <= j < a.accounts.len() && (#[trigger] a.accounts[j]).username == name)
            ==> a.upserted(name, cookies).names() == a.names() && forall|j: int|
            0 <= j < a.accounts.len() ==> #[trigger] a.upserted(name, cookies).accounts[j]
                == a.accounts[j] || a.accounts[j].username == name,
{
    let b = a.upserted(name, cookies);
    lemma_index_from(a.accounts, name, 0);
    if exists|j: int| 0 <= j < a.accounts.len() && (#[trigger] a.accounts[j]).username == name {
        let j = choose|j: int|
            0 <= j < a.accounts.len() && (#[trigger] a.accounts[j]).username == name;
        assert(a.index_of(name) is Some);
        assert(b.names() == a.names());
    }
}

/// Dropping a name leaves exactly the accounts of other names, in their order. The
/// active account stays unless it was dropped; then the first that is left is
/// active, or none.
pub proof fn law_remove_leaves_the_others(a: AccountsView, name: Seq<char>)
    ensures
        a.removed(name).accounts == a.accounts.filter(|x: AccountView| x.username != name),
        a.removed(name).active == if a.active != name {
            a.active
        } else if a.removed(name).accounts.len() > 0 {
            a.removed(name).accounts[0].username
        } else {
            Seq::empty()
        },
{
    lemma_without_is_filter(a.accounts, name);
}

/// Dropping a name is filtering it out.
proof fn lemma_without_is_filter(accounts: Seq<AccountView>, name: Seq<char>)
    ensures
        without(accounts, name) == accounts.filter(|x: AccountView| x.username != name),
    decreases accounts.len(),
{
    reveal(Seq::filter);
    if accounts.len() > 0 {
        lemma_without_is_filter(accounts.drop_last(), name);
    }
}

/// Switching changes which account is active and nothing else.
pub proof fn law_switch_changes_the_active_one(a: AccountsView, name: Seq<char>)
    ensures
        a.switched(name).active == name,
        a.switched(name).accounts == a.accounts,
        a.switched(name).cookies_of(name) == a.cookies_of(name),
{
}

/// Labelling the active account changes its name and nothing else: it stays active,
/// keeps its place and its cookies, and the other accounts stay as they are.
pub proof fn law_labelling_changes_the_name_only(a: AccountsView, name: Seq<char>, i: int)
    requires
        0 <= i < a.accounts.len(),
        a.accounts[i].username == a.active,
        forall|j: int| 0 <= j < i ==> (#[trigger] a.accounts[j]).username != a.active,
    ensures
        a.renamed(name).active == name,
        a.renamed(name).accounts.len() == a.accounts.len(),
        a.renamed(name).accounts[i] == (AccountView {
            username: name,
            cookies: a.accounts[i].cookies,
        }),
        forall|j: int|
            0 <= j < a.accounts.len() && j != i ==> #[trigger] a.renamed(name).accounts[j]
                == a.accounts[j],
{
    lemma_index_unique(a.accounts, a.active, i);
}

/// What is stored is loaded as it is. Without it, the cookie file of older versions
/// gives one account without a name, if it is not blank; else there is none.
pub proof fn law_what_is_loaded(a: AccountsView, legacy: Option<Seq<char>>, c: Seq<char>)
    ensures
        loaded(Some(a), legacy) == a,
        text::trim(c).len() > 0 ==> loaded(None, Some(c)).active == "(unknown)"@ && loaded(
            None,
            Some(c),
        ).accounts == seq![AccountView { username: "(unknown)"@, cookies: text::trim(c) }],
        text::trim(c).len() == 0 ==> loaded(None, Some(c)).accounts.len() == 0 && loaded(
            None,
            Some(c),
        ).active.len() == 0,
        loaded(None, None).accounts.len() == 0 && loaded(None, None).active.len() == 0,
{
}

/// What is shown of accounts: the active name, and all names in their order. A
/// session that told its name is shown as signed in under it; one that did not is
/// shown as not signed in, with the reason, and nothing is renamed.
pub proof fn law_what_is_shown(
    a: AccountsView,
    signed_in: bool,
    detail: Seq<char>,
    name: Seq<char>,
    why: Seq<char>,
)
    ensures
        shown(a, signed_in, detail).signed_in == signed_in,
        shown(a, signed_in, detail).username == a.active,
        shown(a, signed_in, detail).detail == detail,
        shown(a, signed_in, detail).accounts.len() == a.accounts.len(),
        forall|j: int|
            0 <= j < a.accounts.len() ==> #[trigger] shown(a, signed_in, detail).accounts[j]
                == a.accounts[j].username,
        answered(a, Ok(name)) == shown(a.renamed(name), true, "signed in as @"@ + name),
        answered(a, Ok(name)).username == name,
        answered(a, Err(why)) == shown(a, false, "session invalid — "@ + why),
{
}

} // verus!
