//! Authorization: requirements, the ownership chain walk, and the decision.
//!
//! Every ownership check folds into one terminal rule: is the caller in the
//! directory's membership set (with the privileged bit, where asked)? The
//! walk that reaches that rule is a step machine: each step names the store
//! lookup it needs, and the reply moves it on. A caller that holds the store
//! in memory drives it with [`Store::resolve`]; one that queries a database
//! answers each [`Lookup`] itself and calls [`advance`].
use vstd::prelude::*;
use crate::slug::{split_compound, split_compound_slug};
use crate::store::{
    lemma_last_index_exists, lemma_last_index_unique, MemberRow, dir_id_by_slug, emote_dir, image_emote, membership, token_user, user_id_by_name, Store,
};

verus! {

/// The identity a request acts as.
#[derive(Clone, Copy, Debug, PartialEq, Eq, Structural)]
pub struct Caller {
    pub uuid: u128,
    pub administrator: bool,
}

/// The table a resource lives in.
#[derive(Clone, Copy, Debug, PartialEq, Eq, Structural)]
pub enum Table {
    EmoteUser,
    EmoteDir,
    Emote,
    EmoteImage,
    EmoteToken,
}

/// How a resource is referred to.
#[derive(Debug)]
pub enum Column {
    DirSlug(String),
    /// A compound `dir-slug/emote-slug`.
    EmoteSlug(String),
    Username(String),
    UUID(u128),
}

impl Clone for Column {
    fn clone(&self) -> (r: Self)
        ensures
            r == *self,
    {
        match self {
            Column::DirSlug(s) => Column::DirSlug(s.clone()),
            Column::EmoteSlug(s) => Column::EmoteSlug(s.clone()),
            Column::Username(s) => Column::Username(s.clone()),
            Column::UUID(u) => Column::UUID(*u),
        }
    }
}

/// One primitive requirement.
#[derive(Clone, Debug)]
pub enum Check {
    Administrator,
    FirstRun,
    Owns(Table, Column),
    PrivilegedIn(u128),
}

/// Why a requirement was not met.
#[derive(Clone, Copy, Debug, PartialEq, Eq, Structural)]
pub enum Denial {
    NotAdministrator,
    FirstRunDisabled,
    NotOwner,
    NotPrivileged,
    NoRequirement,
}

/// The message shown to a caller that was denied.
pub open spec fn denial_text(d: Denial) -> Seq<char> {
    match d {
        Denial::NotAdministrator => "You are not an administrator, so you do not have access to this resource"@,
        Denial::FirstRunDisabled => "First run mode is disabled."@,
        Denial::NotOwner => "You don't own this resource; unauthorized"@,
        Denial::NotPrivileged => "You are not a privileged member of this directory, so you cannot access this resource."@,
        Denial::NoRequirement => "No requirement grants access to this resource"@,
    }
}

impl Denial {
    /// The message shown to a caller that was denied.
    pub fn message(&self) -> (r: &'static str)
        ensures
            r@ == denial_text(*self),
    {
        match self {
            Denial::NotAdministrator => "You are not an administrator, so you do not have access to this resource",
            Denial::FirstRunDisabled => "First run mode is disabled.",
            Denial::NotOwner => "You don't own this resource; unauthorized",
            Denial::NotPrivileged => "You are not a privileged member of this directory, so you cannot access this resource.",
            Denial::NoRequirement => "No requirement grants access to this resource",
        }
    }
}

/// A store lookup that a walk waits on.
#[derive(Clone, Debug)]
pub enum Lookup {
    /// The id of the user with this username.
    UserByName(String),
    /// The id of the directory with this slug.
    DirBySlug(String),
    /// The privilege bit of `user` in `dir`, if a member.
    Membership { dir: u128, user: u128 },
    /// The directory of an emote.
    EmoteDir(u128),
    /// The emote of an image.
    ImageEmote(u128),
    /// The owning user of a token.
    TokenUser(u128),
}

/// The store's answer to a [`Lookup`].
#[derive(Clone, Copy, Debug, PartialEq, Eq, Structural)]
pub enum Reply {
    Missing,
    Id(u128),
    Member(bool),
}

/// A chain walk in progress for the user `user`.
#[derive(Clone, Debug)]
pub enum Walk {
    Done(bool),
    Ask { user: u128, privileged: bool, lookup: Lookup },
}

pub open spec fn opt_reply(o: Option<u128>) -> Reply {
    match o {
        Some(id) => Reply::Id(id),
        None => Reply::Missing,
    }
}

/// What the store answers to `lookup`.
pub open spec fn reply_for(db: Store, lookup: Lookup) -> Reply {
    match lookup {
        Lookup::UserByName(n) => opt_reply(user_id_by_name(db, n@)),
        Lookup::DirBySlug(s) => opt_reply(dir_id_by_slug(db, s@)),
        Lookup::Membership { dir, user } => match membership(db, dir, user) {
            Some(p) => Reply::Member(p),
            None => Reply::Missing,
        },
        Lookup::EmoteDir(e) => opt_reply(emote_dir(db, e)),
        Lookup::ImageEmote(i) => opt_reply(image_emote(db, i)),
        Lookup::TokenUser(t) => opt_reply(token_user(db, t)),
    }
}

/// The terminal rule: `user` is a member of `dir`, privileged where asked.
pub open spec fn member_ok(db: Store, dir: u128, user: u128, privileged: bool) -> bool {
    match membership(db, dir, user) {
        Some(p) => !privileged || p,
        None => false,
    }
}

pub open spec fn dir_slug_ok(db: Store, slug: Seq<char>, user: u128, privileged: bool) -> bool {
    match dir_id_by_slug(db, slug) {
        Some(d) => member_ok(db, d, user, privileged),
        None => false,
    }
}

pub open spec fn emote_ok(db: Store, emote: u128, user: u128, privileged: bool) -> bool {
    match emote_dir(db, emote) {
        Some(d) => member_ok(db, d, user, privileged),
        None => false,
    }
}

/// Whether `user` owns the resource that `table` and `column` name.
pub open spec fn owns(db: Store, user: u128, table: Table, column: Column) -> bool {
    match (table, column) {
        (Table::EmoteUser, Column::UUID(id)) => id == user,
        (Table::EmoteUser, Column::Username(n)) => user_id_by_name(db, n@) == Some(user),
        (Table::EmoteDir, Column::UUID(d)) => member_ok(db, d, user, false),
        (Table::EmoteDir, Column::DirSlug(s)) => dir_slug_ok(db, s@, user, false),
        (Table::Emote, Column::UUID(e)) => emote_ok(db, e, user, false),
        (Table::Emote, Column::EmoteSlug(s)) => match split_compound(s@) {
            Some(parts) => dir_slug_ok(db, parts.0, user, false),
            None => false,
        },
        (Table::EmoteImage, Column::UUID(i)) => match image_emote(db, i) {
            Some(e) => emote_ok(db, e, user, false),
            None => false,
        },
        (Table::EmoteToken, Column::UUID(t)) => token_user(db, t) == Some(user),
        _ => false,
    }
}

/// Whether `check` holds for `caller`. Only the first-run requirement can
/// hold without a caller.
pub open spec fn allowed(db: Store, first_run: bool, caller: Option<Caller>, check: Check) -> bool {
    match check {
        Check::FirstRun => first_run,
        Check::Administrator => caller matches Some(c) && c.administrator,
        Check::Owns(t, col) => caller matches Some(c) && owns(db, c.uuid, t, col),
        Check::PrivilegedIn(d) => caller matches Some(c) && member_ok(db, d, c.uuid, true),
    }
}

/// Whether some alternative of `checks` holds.
pub open spec fn any_allowed(
    db: Store,
    first_run: bool,
    caller: Option<Caller>,
    checks: Seq<Check>,
) -> bool {
    exists|i: int| 0 <= i < checks.len() && allowed(db, first_run, caller, #[trigger] checks[i])
}

/// The denial that an unmet `check` reports.
pub open spec fn denial_of(check: Check) -> Denial {
    match check {
        Check::Administrator => Denial::NotAdministrator,
        Check::FirstRun => Denial::FirstRunDisabled,
        Check::Owns(_, _) => Denial::NotOwner,
        Check::PrivilegedIn(_) => Denial::NotPrivileged,
    }
}

/// What a walk finally decides on `db`.
pub open spec fn verdict(db: Store, walk: Walk) -> bool {
    match walk {
        Walk::Done(b) => b,
        Walk::Ask { user, privileged, lookup } => match lookup {
            Lookup::UserByName(n) => user_id_by_name(db, n@) == Some(user),
            Lookup::DirBySlug(s) => dir_slug_ok(db, s@, user, privileged),
            Lookup::Membership { dir, user: u } => member_ok(db, dir, u, privileged),
            Lookup::EmoteDir(e) => emote_ok(db, e, user, privileged),
            Lookup::ImageEmote(i) => match image_emote(db, i) {
                Some(e) => emote_ok(db, e, user, privileged),
                None => false,
            },
            Lookup::TokenUser(t) => token_user(db, t) == Some(user),
        },
    }
}

/// How many lookups a walk may still make.
pub open spec fn rank(walk: Walk) -> nat {
    match walk {
        Walk::Done(_) => 0,
        Walk::Ask { lookup, .. } => match lookup {
            Lookup::ImageEmote(_) => 3,
            Lookup::DirBySlug(_) | Lookup::EmoteDir(_) => 2,
            _ => 1,
        },
    }
}

/// The first step of the walk for `check`.
pub fn start(first_run: bool, caller: Option<Caller>, check: &Check) -> (r: Walk)
    ensures
        forall|db: Store| #[trigger] verdict(db, r) == allowed(db, first_run, caller, *check),
{
    match check {
        Check::FirstRun => Walk::Done(first_run),
        Check::Administrator => match caller {
            Some(c) => Walk::Done(c.administrator),
            None => Walk::Done(false),
        },
        Check::PrivilegedIn(d) => match caller {
            Some(c) => Walk::Ask {
                user: c.uuid,
                privileged: true,
                lookup: Lookup::Membership { dir: *d, user: c.uuid },
            },
            None => Walk::Done(false),
        },
        Check::Owns(table, column) => match caller {
            None => Walk::Done(false),
            Some(c) => {
                let user = c.uuid;
                match (table, column) {
                    (Table::EmoteUser, Column::UUID(id)) => Walk::Done(*id == user),
                    (Table::EmoteUser, Column::Username(n)) => Walk::Ask {
                        user,
                        privileged: false,
                        lookup: Lookup::UserByName(n.clone()),
                    },
                    (Table::EmoteDir, Column::UUID(d)) => Walk::Ask {
                        user,
                        privileged: false,
                        lookup: Lookup::Membership { dir: *d, user },
                    },
                    (Table::EmoteDir, Column::DirSlug(s)) => Walk::Ask {
                        user,
                        privileged: false,
                        lookup: Lookup::DirBySlug(s.clone()),
                    },
                    (Table::Emote, Column::UUID(e)) => Walk::Ask {
                        user,
                        privileged: false,
                        lookup: Lookup::EmoteDir(*e),
                    },
                    (Table::Emote, Column::EmoteSlug(s)) => match split_compound_slug(s.as_str()) {
                        Some((dir_slug, _)) => Walk::Ask {
                            user,
                            privileged: false,
                            lookup: Lookup::DirBySlug(dir_slug),
                        },
                        None => Walk::Done(false),
                    },
                    (Table::EmoteImage, Column::UUID(i)) => Walk::Ask {
                        user,
                        privileged: false,
                        lookup: Lookup::ImageEmote(*i),
                    },
                    (Table::EmoteToken, Column::UUID(t)) => Walk::Ask {
                        user,
                        privileged: false,
                        lookup: Lookup::TokenUser(*t),
                    },
                    _ => Walk::Done(false),
                }
            },
        },
    }
}

/// Moves a waiting walk on by the store's reply to its lookup. On every store
/// that gives this reply, the walk's verdict is unchanged.
pub fn advance(user: u128, privileged: bool, lookup: Lookup, reply: Reply) -> (r: Walk)
    ensures
        forall|db: Store|
            #[trigger] reply_for(db, lookup) == reply ==> verdict(db, r) == verdict(
                db,
                Walk::Ask { user, privileged, lookup },
            ),
        rank(r) < rank(Walk::Ask { user, privileged, lookup }),
{
    match lookup {
        Lookup::UserByName(_) => match reply {
            Reply::Id(id) => Walk::Done(id == user),
            _ => Walk::Done(false),
        },
        Lookup::DirBySlug(_) => match reply {
            Reply::Id(d) => Walk::Ask {
                user,
                privileged,
                lookup: Lookup::Membership { dir: d, user },
            },
            _ => Walk::Done(false),
        },
        Lookup::Membership { .. } => match reply {
            Reply::Member(p) => Walk::Done(!privileged || p),
            _ => Walk::Done(false),
        },
        Lookup::EmoteDir(_) => match reply {
            Reply::Id(d) => Walk::Ask {
                user,
                privileged,
                lookup: Lookup::Membership { dir: d, user },
            },
            _ => Walk::Done(false),
        },
        Lookup::ImageEmote(_) => match reply {
            Reply::Id(e) => Walk::Ask { user, privileged, lookup: Lookup::EmoteDir(e) },
            _ => Walk::Done(false),
        },
        Lookup::TokenUser(_) => match reply {
            Reply::Id(u) => Walk::Done(u == user),
            _ => Walk::Done(false),
        },
    }
}

impl Store {
    /// Answers one lookup from this snapshot.
    pub fn answer(&self, lookup: &Lookup) -> (r: Reply)
        ensures
            r == reply_for(*self, *lookup),
    {
        match lookup {
            Lookup::UserByName(n) => match self.user_id_by_name(n) {
                Some(id) => Reply::Id(id),
                None => Reply::Missing,
            },
            Lookup::DirBySlug(s) => match self.dir_id_by_slug(s) {
                Some(id) => Reply::Id(id),
                None => Reply::Missing,
            },
            Lookup::Membership { dir, user } => match self.membership(*dir, *user) {
                Some(p) => Reply::Member(p),
                None => Reply::Missing,
            },
            Lookup::EmoteDir(e) => match self.emote_dir(*e) {
                Some(id) => Reply::Id(id),
                None => Reply::Missing,
            },
            Lookup::ImageEmote(i) => match self.image_emote(*i) {
                Some(id) => Reply::Id(id),
                None => Reply::Missing,
            },
            Lookup::TokenUser(t) => match self.token_user(*t) {
                Some(id) => Reply::Id(id),
                None => Reply::Missing,
            },
        }
    }

    /// Runs a walk to its end against this snapshot.
    pub fn resolve(&self, walk: Walk) -> (r: bool)
        ensures
            r == verdict(*self, walk),
    {
        let mut w = walk;
        loop
            invariant
                verdict(*self, w) == verdict(*self, walk),
            decreases rank(w),
        {
            match w {
                Walk::Done(b) => {
                    return b;
                },
                Walk::Ask { user, privileged, lookup } => {
                    let reply = self.answer(&lookup);
                    w = advance(user, privileged, lookup, reply);
                },
            }
        }
    }

    /// Decides one requirement.
    pub fn allows(&self, first_run: bool, caller: Option<Caller>, check: &Check) -> (r: bool)
        ensures
            r == allowed(*self, first_run, caller, *check),
    {
        let walk = start(first_run, caller, check);
        self.resolve(walk)
    }
}

/// Decides an OR of requirements: the first alternative that holds allows;
/// when none holds, the last one's denial is reported.
pub fn authorize(store: &Store, first_run: bool, caller: Option<Caller>, checks: &Vec<Check>) -> (r:
    Result<(), Denial>)
    ensures
        r is Ok <==> any_allowed(*store, first_run, caller, checks@),
        r is Err && checks@.len() > 0 ==> r == Err::<(), Denial>(denial_of(checks@.last())),
        r is Err && checks@.len() == 0 ==> r == Err::<(), Denial>(Denial::NoRequirement),
{
    let mut i: usize = 0;
    while i < checks.len()
        invariant
            i <= checks@.len(),
            forall|j: int| 0 <= j < i ==> !allowed(*store, first_run, caller, #[trigger] checks@[j]),
        decreases checks@.len() - i,
    {
        if store.allows(first_run, caller, &checks[i]) {
            return Ok(());
        }
        i = i + 1;
    }
    if checks.len() == 0 {
        Err(Denial::NoRequirement)
    } else {
        Err(denial_for(&checks[checks.len() - 1]))
    }
}

/// A user owns a directory, named by its id, exactly when it appears in the
/// directory's membership set, whatever its privilege bit.
pub proof fn lemma_dir_owner_iff_member(db: Store, first_run: bool, user: Caller, dir: u128)
    ensures
        allowed(db, first_run, Some(user), Check::Owns(Table::EmoteDir, Column::UUID(dir)))
            <==> membership(db, dir, user.uuid) is Some,
{
}

/// Decides an OR of requirements from the verdicts of its first
/// alternatives, as a caller that evaluates them one by one and stops at the
/// first that holds gathers them: allowed when some verdict holds; else the
/// last alternative's denial.
pub fn or_decision(checks: &Vec<Check>, verdicts: &Vec<bool>) -> (r: Result<(), Denial>)
    ensures
        r is Ok <==> exists|i: int| 0 <= i < verdicts@.len() && #[trigger] verdicts@[i],
        r is Err && checks@.len() > 0 ==> r == Err::<(), Denial>(denial_of(checks@.last())),
        r is Err && checks@.len() == 0 ==> r == Err::<(), Denial>(Denial::NoRequirement),
{
    let mut i: usize = 0;
    while i < verdicts.len()
        invariant
            i <= verdicts@.len(),
            forall|j: int| 0 <= j < i ==> !#[trigger] verdicts@[j],
        decreases verdicts@.len() - i,
    {
        if verdicts[i] {
            return Ok(());
        }
        i = i + 1;
    }
    if checks.len() == 0 {
        Err(Denial::NoRequirement)
    } else {
        Err(denial_for(&checks[checks.len() - 1]))
    }
}

/// Membership, as the rows show it: a user is a member of a directory
/// exactly when some membership row pairs them; in a well-formed store that
/// row alone gives the privilege bit.
pub proof fn lemma_membership_rows(db: Store, dir: u128, user: u128)
    ensures
        membership(db, dir, user) is Some <==> exists|i: int|
            0 <= i < db.members@.len() && #[trigger] db.members@[i].dir == dir && db.members@[i].user == user,
        db.wf() ==> forall|i: int|
            0 <= i < db.members@.len() && #[trigger] db.members@[i].dir == dir && db.members@[i].user == user
                ==> membership(db, dir, user) == Some(db.members@[i].privileged),
{
    let p = |r: MemberRow| r.dir == dir && r.user == user;
    lemma_last_index_exists(db.members@, p);
    if exists|i: int| 0 <= i < db.members@.len() && #[trigger] db.members@[i].dir == dir && db.members@[i].user == user {
        let i = choose|i: int| 0 <= i < db.members@.len() && #[trigger] db.members@[i].dir == dir && db.members@[i].user == user;
        assert(p(db.members@[i]));
    }
    if db.wf() {
        assert forall|i: int|
            0 <= i < db.members@.len() && #[trigger] db.members@[i].dir == dir && db.members@[i].user == user
                implies membership(db, dir, user) == Some(db.members@[i].privileged) by {
            assert forall|j: int| 0 <= j < db.members@.len() && #[trigger] p(db.members@[j]) implies j == i by {
                if j != i {
                    assert(db.members@[i].dir == db.members@[j].dir);
                }
            }
            lemma_last_index_unique(db.members@, p, i);
        }
    }
}

/// A user owns a directory, named by its id, exactly when some membership
/// row pairs them, whatever its privilege bit.
pub proof fn lemma_dir_owner_iff_member_row(db: Store, first_run: bool, user: Caller, dir: u128)
    ensures
        allowed(db, first_run, Some(user), Check::Owns(Table::EmoteDir, Column::UUID(dir)))
            <==> exists|i: int|
            0 <= i < db.members@.len() && #[trigger] db.members@[i].dir == dir && db.members@[i].user
                == user.uuid,
{
    lemma_membership_rows(db, dir, user.uuid);
}

/// The denial that an unmet `check` reports.
pub fn denial_for(check: &Check) -> (r: Denial)
    ensures
        r == denial_of(*check),
{
    match check {
        Check::Administrator => Denial::NotAdministrator,
        Check::FirstRun => Denial::FirstRunDisabled,
        Check::Owns(_, _) => Denial::NotOwner,
        Check::PrivilegedIn(_) => Denial::NotPrivileged,
    }
}

} // verus!
