//! The notes and user-check service: greetings, a list of users, and a log
//! of age checks that says who is blocked.

use vstd::prelude::*;
use crate::sequences::{last_match, lemma_last_match};
use crate::text::same_text;

verus! {

/// A user as the service records it.
pub struct User {
    pub name: String,
    pub age: u32,
}

/// What a `User` holds.
pub struct UserView {
    pub name: Seq<char>,
    pub age: u32,
}

impl View for User {
    type V = UserView;

    open spec fn view(&self) -> UserView {
        UserView { name: self.name@, age: self.age }
    }
}

/// One age check: who was checked and whether that user was blocked.
pub struct AccessRecord {
    pub name: String,
    pub blocked: bool,
}

/// What an `AccessRecord` holds.
pub struct AccessRecordView {
    pub name: Seq<char>,
    pub blocked: bool,
}

impl View for AccessRecord {
    type V = AccessRecordView;

    open spec fn view(&self) -> AccessRecordView {
        AccessRecordView { name: self.name@, blocked: self.blocked }
    }
}

/// The users added so far and the log of age checks.
pub struct UserRegistry {
    users: Vec<User>,
    checks: Vec<AccessRecord>,
}

/// What a `UserRegistry` holds.
pub struct UserRegistryView {
    pub users: Seq<UserView>,
    pub checks: Seq<AccessRecordView>,
}

impl View for UserRegistry {
    type V = UserRegistryView;

    closed spec fn view(&self) -> UserRegistryView {
        UserRegistryView {
            users: self.users@.map_values(|u: User| u@),
            checks: self.checks@.map_values(|c: AccessRecord| c@),
        }
    }
}

/// The greeting for `name`.
pub open spec fn spec_greeting(name: Seq<char>) -> Seq<char> {
    "Hello "@ + name + ", nice to meet you!"@
}

/// The age below which a checked user is blocked.
pub open spec fn is_minor(age: u32) -> bool {
    age < 18
}

/// A check of the user `name`.
pub open spec fn checks_name(name: Seq<char>) -> spec_fn(AccessRecordView) -> bool {
    |c: AccessRecordView| c.name == name
}

/// Whether the latest check of `name` blocked the user; `None` where the
/// user was never checked.
pub open spec fn spec_blocked_status(v: UserRegistryView, name: Seq<char>) -> Option<bool> {
    match last_match(v.checks, checks_name(name)) {
        Some(i) => Some(v.checks[i].blocked),
        None => None,
    }
}

/// The answer to "is `name` blocked?": empty for a user never checked.
pub open spec fn spec_blocked_text(v: UserRegistryView, name: Seq<char>) -> Seq<char> {
    match spec_blocked_status(v, name) {
        None => Seq::empty(),
        Some(true) => name + " is blocked."@,
        Some(false) => name + " is not blocked."@,
    }
}

/// The greeting for `name`: `Hello <name>, nice to meet you!`.
pub fn greet(name: &str) -> (res: String)
    ensures
        res@ == spec_greeting(name@),
{
    let mut res = "Hello ".to_owned();
    res.append(name);
    res.append(", nice to meet you!");
    res
}

impl UserRegistry {
    /// No users and no checks.
    pub fn new() -> (res: UserRegistry)
        ensures
            res@.users.len() == 0,
            res@.checks.len() == 0,
    {
        let res = UserRegistry { users: Vec::new(), checks: Vec::new() };
        assert(res@.users =~= Seq::<UserView>::empty());
        assert(res@.checks =~= Seq::<AccessRecordView>::empty());
        res
    }

    /// Adds a user.
    pub fn add_users(&mut self, name: String, age: u32)
        ensures
            final(self)@.users == old(self)@.users.push(UserView { name: name@, age }),
            final(self)@.checks == old(self)@.checks,
    {
        let ghost v = self@;
        let ghost u = UserView { name: name@, age };
        self.users.push(User { name, age });
        assert(self@.users =~= v.users.push(u));
        assert(self@.checks =~= v.checks);
    }

    /// Checks the age of `name`: records it, the user blocked exactly
    /// when younger than 18, and returns whether the user is blocked.
    pub fn check_users(&mut self, name: String, age: u32) -> (blocked: bool)
        ensures
            blocked == is_minor(age),
            final(self)@.checks == old(self)@.checks.push(
                AccessRecordView { name: name@, blocked },
            ),
            final(self)@.users == old(self)@.users,
    {
        let ghost v = self@;
        let blocked = age < 18;
        let ghost c = AccessRecordView { name: name@, blocked };
        self.checks.push(AccessRecord { name, blocked });
        assert(self@.checks =~= v.checks.push(c));
        assert(self@.users =~= v.users);
        blocked
    }

    /// Whether the latest check of `name` blocked the user; `None` where the
    /// user was never checked.
    pub fn blocked_status(&self, name: &str) -> (res: Option<bool>)
        ensures
            res == spec_blocked_status(self@, name@),
    {
        let ghost s = self@.checks;
        let mut res: Option<bool> = None;
        let mut i: usize = 0;
        while i < self.checks.len()
            invariant
                s == self@.checks,
                i <= s.len(),
                res == match last_match(s.take(i as int), checks_name(name@)) {
                    Some(k) => Some(s[k].blocked),
                    None => None::<bool>,
                },
                last_match(s.take(i as int), checks_name(name@)) matches Some(k) ==> 0 <= k < i,
            decreases s.len() - i,
        {
            assert(s.take(i + 1).drop_last() =~= s.take(i as int));
            assert(s.take(i + 1).last() == s[i as int]);
            if same_text(self.checks[i].name.as_str(), name) {
                res = Some(self.checks[i].blocked);
            }
            i = i + 1;
        }
        assert(s.take(i as int) =~= s);
        res
    }

    /// The answer to "is `name` blocked?": `<name> is blocked.` or
    /// `<name> is not blocked.` after the latest check of `name`, empty for
    /// a user never checked.
    pub fn is_blocked(&self, name: &str) -> (res: String)
        ensures
            res@ == spec_blocked_text(self@, name@),
    {
        match self.blocked_status(name) {
            None => String::new(),
            Some(true) => {
                let mut res = name.to_owned();
                res.append(" is blocked.");
                res
            },
            Some(false) => {
                let mut res = name.to_owned();
                res.append(" is not blocked.");
                res
            },
        }
    }

    /// Hands out all users and keeps none; the age checks stay.
    pub fn users(&mut self) -> (res: Vec<User>)
        ensures
            res@.map_values(|u: User| u@) == old(self)@.users,
            final(self)@.users.len() == 0,
            final(self)@.checks == old(self)@.checks,
    {
        let ghost v = self@;
        let mut res: Vec<User> = Vec::new();
        std::mem::swap(&mut res, &mut self.users);
        assert(self@.users =~= Seq::<UserView>::empty());
        assert(self@.checks =~= v.checks);
        res
    }

    /// Forgets all users and all checks.
    pub fn clear_data(&mut self)
        ensures
            final(self)@.users.len() == 0,
            final(self)@.checks.len() == 0,
    {
        self.users = Vec::new();
        self.checks = Vec::new();
        assert(self@.users =~= Seq::<UserView>::empty());
        assert(self@.checks =~= Seq::<AccessRecordView>::empty());
    }
}

/// The latest check decides: right after checking `name`, the user is
/// blocked exactly when the age checked was below 18.
pub proof fn law_latest_check_decides(v: UserRegistryView, name: Seq<char>, age: u32)
    ensures
        spec_blocked_status(
            UserRegistryView {
                checks: v.checks.push(AccessRecordView { name, blocked: is_minor(age) }),
                ..v
            },
            name,
        ) == Some(is_minor(age)),
{
    let c = v.checks.push(AccessRecordView { name, blocked: is_minor(age) });
    assert(c.last().name == name);
}

/// A check of another user leaves the answer for `name` as it was.
pub proof fn law_other_check_irrelevant(
    v: UserRegistryView,
    name: Seq<char>,
    other: Seq<char>,
    blocked: bool,
)
    requires
        other != name,
    ensures
        spec_blocked_status(
            UserRegistryView { checks: v.checks.push(AccessRecordView { name: other, blocked }), ..v },
            name,
        ) == spec_blocked_status(v, name),
{
    let c = v.checks.push(AccessRecordView { name: other, blocked });
    assert(c.drop_last() =~= v.checks);
    lemma_last_match(v.checks, checks_name(name));
    if let Some(k) = last_match(v.checks, checks_name(name)) {
        assert(c[k] == v.checks[k]);
    }
}

} // verus!
