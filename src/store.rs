//! Rows of the relational store that authorization walks, held as plain
//! values, and the lookups over them.
use vstd::prelude::*;

verus! {

/// A user account.
#[derive(Clone, Debug)]
pub struct UserRow {
    pub uuid: u128,
    pub username: String,
    pub administrator: bool,
}

/// A directory, addressed by its unique slug.
#[derive(Clone, Debug)]
pub struct DirRow {
    pub uuid: u128,
    pub slug: String,
}

/// A membership of a user in a directory.
#[derive(Clone, Copy, Debug, PartialEq, Eq)]
pub struct MemberRow {
    pub user: u128,
    pub dir: u128,
    pub privileged: bool,
}

/// An emote, belonging to exactly one directory.
#[derive(Clone, Debug)]
pub struct EmoteRow {
    pub uuid: u128,
    pub slug: String,
    pub dir: u128,
}

/// The link from an image to the emote it renders.
#[derive(Clone, Copy, Debug, PartialEq, Eq)]
pub struct ImageLink {
    pub uuid: u128,
    pub emote: u128,
}

/// A token, belonging to exactly one user.
#[derive(Clone, Copy, Debug, PartialEq, Eq)]
pub struct TokenRow {
    pub uuid: u128,
    pub user: u128,
}

/// A snapshot of the tables that ownership chains run through.
#[derive(Clone, Debug)]
pub struct Store {
    pub users: Vec<UserRow>,
    pub dirs: Vec<DirRow>,
    pub members: Vec<MemberRow>,
    pub emotes: Vec<EmoteRow>,
    pub images: Vec<ImageLink>,
    pub tokens: Vec<TokenRow>,
}

/// Index of the last element of `s` that satisfies `p`. The store's keys are
/// unique, so for a key column this is the one match.
pub open spec fn last_index<T>(s: Seq<T>, p: spec_fn(T) -> bool) -> Option<int>
    decreases s.len(),
{
    if s.len() == 0 {
        None
    } else if p(s.last()) {
        Some(s.len() - 1)
    } else {
        last_index(s.drop_last(), p)
    }
}

pub proof fn lemma_last_index_step<T>(s: Seq<T>, p: spec_fn(T) -> bool, i: int)
    requires
        0 <= i < s.len(),
    ensures
        last_index(s.subrange(0, i + 1), p) == (if p(s[i]) {
            Some(i)
        } else {
            last_index(s.subrange(0, i), p)
        }),
{
    assert(s.subrange(0, i + 1).drop_last() =~= s.subrange(0, i));
}

pub proof fn lemma_last_index_bounds<T>(s: Seq<T>, p: spec_fn(T) -> bool)
    ensures
        last_index(s, p) matches Some(i) ==> 0 <= i < s.len() && p(s[i]),
        last_index(s, p) is None ==> forall|j: int| 0 <= j < s.len() ==> !p(#[trigger] s[j]),
    decreases s.len(),
{
    if s.len() > 0 && !p(s.last()) {
        lemma_last_index_bounds(s.drop_last(), p);
        assert forall|j: int| 0 <= j < s.len() && last_index(s, p) is None implies !p(
            #[trigger] s[j],
        ) by {
            if j < s.len() - 1 {
                assert(s[j] == s.drop_last()[j]);
            }
        }
    }
}

/// A lookup finds a row exactly when some row matches.
pub proof fn lemma_last_index_exists<T>(s: Seq<T>, p: spec_fn(T) -> bool)
    ensures
        last_index(s, p) is Some <==> exists|i: int| 0 <= i < s.len() && #[trigger] p(s[i]),
{
    lemma_last_index_bounds(s, p);
    match last_index(s, p) {
        Some(k) => {
            assert(p(s[k]));
        },
        None => {},
    }
}

/// Where one row alone matches, a lookup finds that row.
pub proof fn lemma_last_index_unique<T>(s: Seq<T>, p: spec_fn(T) -> bool, i: int)
    requires
        0 <= i < s.len(),
        p(s[i]),
        forall|j: int| 0 <= j < s.len() && #[trigger] p(s[j]) ==> j == i,
    ensures
        last_index(s, p) == Some(i),
{
    lemma_last_index_bounds(s, p);
    assert(p(s[i]));
}

impl Store {
    /// The store's key columns are unique: user ids and usernames, directory
    /// ids and slugs, one membership per user and directory, and the ids of
    /// emotes, images and tokens.
    pub open spec fn wf(&self) -> bool {
        &&& forall|i: int, j: int|
            0 <= i < self.users@.len() && 0 <= j < self.users@.len() && i != j ==> #[trigger] self.users@[i].uuid
                != #[trigger] self.users@[j].uuid && self.users@[i].username@ != self.users@[j].username@
        &&& forall|i: int, j: int|
            0 <= i < self.dirs@.len() && 0 <= j < self.dirs@.len() && i != j ==> #[trigger] self.dirs@[i].uuid
                != #[trigger] self.dirs@[j].uuid && self.dirs@[i].slug@ != self.dirs@[j].slug@
        &&& forall|i: int, j: int|
            0 <= i < self.members@.len() && 0 <= j < self.members@.len() && i != j
                ==> !(#[trigger] self.members@[i].dir == #[trigger] self.members@[j].dir
                && self.members@[i].user == self.members@[j].user)
        &&& forall|i: int, j: int|
            0 <= i < self.emotes@.len() && 0 <= j < self.emotes@.len() && i != j ==> #[trigger] self.emotes@[i].uuid
                != #[trigger] self.emotes@[j].uuid
        &&& forall|i: int, j: int|
            0 <= i < self.images@.len() && 0 <= j < self.images@.len() && i != j ==> #[trigger] self.images@[i].uuid
                != #[trigger] self.images@[j].uuid
        &&& forall|i: int, j: int|
            0 <= i < self.tokens@.len() && 0 <= j < self.tokens@.len() && i != j ==> #[trigger] self.tokens@[i].uuid
                != #[trigger] self.tokens@[j].uuid
    }
}

pub open spec fn user_id_by_name(db: Store, name: Seq<char>) -> Option<u128> {
    match last_index(db.users@, |r: UserRow| r.username@ == name) {
        Some(i) => Some(db.users@[i].uuid),
        None => None,
    }
}

pub open spec fn dir_id_by_slug(db: Store, slug: Seq<char>) -> Option<u128> {
    match last_index(db.dirs@, |r: DirRow| r.slug@ == slug) {
        Some(i) => Some(db.dirs@[i].uuid),
        None => None,
    }
}

/// The privilege bit of `user` in `dir`, or `None` when not a member.
pub open spec fn membership(db: Store, dir: u128, user: u128) -> Option<bool> {
    match last_index(db.members@, |r: MemberRow| r.dir == dir && r.user == user) {
        Some(i) => Some(db.members@[i].privileged),
        None => None,
    }
}

pub open spec fn emote_dir(db: Store, emote: u128) -> Option<u128> {
    match last_index(db.emotes@, |r: EmoteRow| r.uuid == emote) {
        Some(i) => Some(db.emotes@[i].dir),
        None => None,
    }
}

pub open spec fn image_emote(db: Store, image: u128) -> Option<u128> {
    match last_index(db.images@, |r: ImageLink| r.uuid == image) {
        Some(i) => Some(db.images@[i].emote),
        None => None,
    }
}

pub open spec fn token_user(db: Store, token: u128) -> Option<u128> {
    match last_index(db.tokens@, |r: TokenRow| r.uuid == token) {
        Some(i) => Some(db.tokens@[i].user),
        None => None,
    }
}

impl Store {
    /// A store with no rows.
    pub fn new() -> (r: Store)
        ensures
            r.users@.len() == 0,
            r.dirs@.len() == 0,
            r.members@.len() == 0,
            r.emotes@.len() == 0,
            r.images@.len() == 0,
            r.tokens@.len() == 0,
    {
        Store {
            users: Vec::new(),
            dirs: Vec::new(),
            members: Vec::new(),
            emotes: Vec::new(),
            images: Vec::new(),
            tokens: Vec::new(),
        }
    }

    pub fn user_id_by_name(&self, name: &String) -> (r: Option<u128>)
        ensures
            r == user_id_by_name(*self, name@),
    {
        let ghost p = |r: UserRow| r.username@ == name@;
        let mut i: usize = self.users.len();
        proof {
            assert(self.users@.subrange(0, i as int) =~= self.users@);
        }
        while i > 0
            invariant
                i <= self.users@.len(),
                p == (|r: UserRow| r.username@ == name@),
                last_index(self.users@, p) == last_index(self.users@.subrange(0, i as int), p),
            decreases i,
        {
            i = i - 1;
            proof {
                lemma_last_index_step(self.users@, p, i as int);
            }
            if self.users[i].username == *name {
                return Some(self.users[i].uuid);
            }
        }
        None
    }

    pub fn dir_id_by_slug(&self, slug: &String) -> (r: Option<u128>)
        ensures
            r == dir_id_by_slug(*self, slug@),
    {
        let ghost p = |r: DirRow| r.slug@ == slug@;
        let mut i: usize = self.dirs.len();
        proof {
            assert(self.dirs@.subrange(0, i as int) =~= self.dirs@);
        }
        while i > 0
            invariant
                i <= self.dirs@.len(),
                p == (|r: DirRow| r.slug@ == slug@),
                last_index(self.dirs@, p) == last_index(self.dirs@.subrange(0, i as int), p),
            decreases i,
        {
            i = i - 1;
            proof {
                lemma_last_index_step(self.dirs@, p, i as int);
            }
            if self.dirs[i].slug == *slug {
                return Some(self.dirs[i].uuid);
            }
        }
        None
    }

    pub fn membership(&self, dir: u128, user: u128) -> (r: Option<bool>)
        ensures
            r == membership(*self, dir, user),
    {
        let ghost p = |r: MemberRow| r.dir == dir && r.user == user;
        let mut i: usize = self.members.len();
        proof {
            assert(self.members@.subrange(0, i as int) =~= self.members@);
        }
        while i > 0
            invariant
                i <= self.members@.len(),
                p == (|r: MemberRow| r.dir == dir && r.user == user),
                last_index(self.members@, p) == last_index(self.members@.subrange(0, i as int), p),
            decreases i,
        {
            i = i - 1;
            proof {
                lemma_last_index_step(self.members@, p, i as int);
            }
            if self.members[i].dir == dir && self.members[i].user == user {
                return Some(self.members[i].privileged);
            }
        }
        None
    }

    pub fn emote_dir(&self, emote: u128) -> (r: Option<u128>)
        ensures
            r == emote_dir(*self, emote),
    {
        let ghost p = |r: EmoteRow| r.uuid == emote;
        let mut i: usize = self.emotes.len();
        proof {
            assert(self.emotes@.subrange(0, i as int) =~= self.emotes@);
        }
        while i > 0
            invariant
                i <= self.emotes@.len(),
                p == (|r: EmoteRow| r.uuid == emote),
                last_index(self.emotes@, p) == last_index(self.emotes@.subrange(0, i as int), p),
            decreases i,
        {
            i = i - 1;
            proof {
                lemma_last_index_step(self.emotes@, p, i as int);
            }
            if self.emotes[i].uuid == emote {
                return Some(self.emotes[i].dir);
            }
        }
        None
    }

    pub fn image_emote(&self, image: u128) -> (r: Option<u128>)
        ensures
            r == image_emote(*self, image),
    {
        let ghost p = |r: ImageLink| r.uuid == image;
        let mut i: usize = self.images.len();
        proof {
            assert(self.images@.subrange(0, i as int) =~= self.images@);
        }
        while i > 0
            invariant
                i <= self.images@.len(),
                p == (|r: ImageLink| r.uuid == image),
                last_index(self.images@, p) == last_index(self.images@.subrange(0, i as int), p),
            decreases i,
        {
            i = i - 1;
            proof {
                lemma_last_index_step(self.images@, p, i as int);
            }
            if self.images[i].uuid == image {
                return Some(self.images[i].emote);
            }
        }
        None
    }

    pub fn token_user(&self, token: u128) -> (r: Option<u128>)
        ensures
            r == token_user(*self, token),
    {
        let ghost p = |r: TokenRow| r.uuid == token;
        let mut i: usize = self.tokens.len();
        proof {
            assert(self.tokens@.subrange(0, i as int) =~= self.tokens@);
        }
        while i > 0
            invariant
                i <= self.tokens@.len(),
                p == (|r: TokenRow| r.uuid == token),
                last_index(self.tokens@, p) == last_index(self.tokens@.subrange(0, i as int), p),
            decreases i,
        {
            i = i - 1;
            proof {
                lemma_last_index_step(self.tokens@, p, i as int);
            }
            if self.tokens[i].uuid == token {
                return Some(self.tokens[i].user);
            }
        }
        None
    }
}

} // verus!
