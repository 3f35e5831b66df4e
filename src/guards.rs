//! The guards that operations declare, the first-run gate, and the rule for
//! deleting a directory.
use vstd::prelude::*;
use crate::authz::{member_ok, owns, Caller, Check, Column, Denial, Table};
use crate::store::{MemberRow, Store};

verus! {

/// Allows administrators.
pub struct AdminGuard;

impl AdminGuard {
    pub fn check(&self, caller: Option<Caller>) -> (r: Result<(), Denial>)
        ensures
            r is Ok <==> (caller matches Some(c) && c.administrator),
            r is Err ==> r == Err::<(), Denial>(Denial::NotAdministrator),
    {
        match caller {
            Some(c) => if c.administrator {
                Ok(())
            } else {
                Err(Denial::NotAdministrator)
            },
            None => Err(Denial::NotAdministrator),
        }
    }
}

/// The process-wide first-run flag. It starts set when no administrator
/// holds a token, and is cleared for good by the first token minted. While
/// it is set, one token mint at a time may be in flight.
pub struct FirstRunGate {
    active: bool,
    minting: bool,
}

impl FirstRunGate {
    pub closed spec fn is_open(&self) -> bool {
        self.active
    }

    /// Whether a token mint under the open flag is in flight.
    pub closed spec fn is_minting(&self) -> bool {
        self.minting
    }

    /// The first-run flag for a store in which `admin_tokens` tokens belong to
    /// administrators.
    pub fn from_admin_token_count(admin_tokens: u64) -> (r: FirstRunGate)
        ensures
            r.is_open() == (admin_tokens == 0),
            !r.is_minting(),
    {
        FirstRunGate { active: admin_tokens == 0, minting: false }
    }

    pub fn is_active(&self) -> (r: bool)
        ensures
            r == self.is_open(),
    {
        self.active
    }

    /// Reserves the one mint that may run while the flag is set; `false`
    /// when another is in flight. Reading and reserving are one step, so two
    /// callers cannot both proceed.
    pub fn begin_first_run_mint(&mut self) -> (reserved: bool)
        ensures
            reserved == (old(self).is_open() && !old(self).is_minting()),
            final(self).is_open() == old(self).is_open(),
            final(self).is_minting() == (old(self).is_minting() || reserved),
    {
        if self.active && !self.minting {
            self.minting = true;
            true
        } else {
            false
        }
    }

    /// Ends a mint: a successful one clears the flag for good; a failed one
    /// releases the reservation.
    pub fn end_mint(&mut self, minted: bool)
        ensures
            final(self).is_open() == (old(self).is_open() && !minted),
            !final(self).is_minting(),
    {
        self.minting = false;
        if minted {
            self.active = false;
        }
    }

    /// Whether a user with this administrator flag may be created now: while
    /// the first-run flag is set only administrators may be.
    pub fn permits_user_creation(&self, administrator: bool) -> (r: bool)
        ensures
            r == (administrator || !self.is_open()),
    {
        administrator || !self.active
    }
}

/// Allows every caller while the first-run gate is open.
pub struct FirstRunGuard;

impl FirstRunGuard {
    pub fn check(&self, gate: &FirstRunGate) -> (r: Result<(), Denial>)
        ensures
            r is Ok <==> gate.is_open(),
            r is Err ==> r == Err::<(), Denial>(Denial::FirstRunDisabled),
    {
        if gate.is_active() {
            Ok(())
        } else {
            Err(Denial::FirstRunDisabled)
        }
    }
}

/// Allows privileged members of one directory.
pub struct UserDirPrivilegedGuard {
    pub dir_uuid: u128,
}

impl UserDirPrivilegedGuard {
    pub fn new(dir_uuid: u128) -> (r: Self)
        ensures
            r.dir_uuid == dir_uuid,
    {
        UserDirPrivilegedGuard { dir_uuid }
    }

    pub fn check(&self, store: &Store, caller: Option<Caller>) -> (r: Result<(), Denial>)
        ensures
            r is Ok <==> (caller matches Some(c) && member_ok(*store, self.dir_uuid, c.uuid, true)),
            r is Err ==> r == Err::<(), Denial>(Denial::NotPrivileged),
    {
        if store.allows(false, caller, &Check::PrivilegedIn(self.dir_uuid)) {
            Ok(())
        } else {
            Err(Denial::NotPrivileged)
        }
    }
}

/// Allows the owner of one resource.
pub struct UserOwnsGuard {
    pub table: Table,
    pub column: Column,
}

impl UserOwnsGuard {
    pub fn new(table: Table, column: Column) -> (r: Self)
        ensures
            r.table == table,
            r.column == column,
    {
        UserOwnsGuard { table, column }
    }

    pub fn check(&self, store: &Store, caller: Option<Caller>) -> (r: Result<(), Denial>)
        ensures
            r is Ok <==> (caller matches Some(c) && owns(*store, c.uuid, self.table, self.column)),
            r is Err ==> r == Err::<(), Denial>(Denial::NotOwner),
    {
        let check = Check::Owns(self.table, self.column.clone());
        if store.allows(false, caller, &check) {
            Ok(())
        } else {
            Err(Denial::NotOwner)
        }
    }
}

/// The users of `dir`'s memberships, in row order.
pub open spec fn members_of(rows: Seq<MemberRow>, dir: u128) -> Seq<u128>
    decreases rows.len(),
{
    if rows.len() == 0 {
        Seq::empty()
    } else if rows.last().dir == dir {
        members_of(rows.drop_last(), dir).push(rows.last().user)
    } else {
        members_of(rows.drop_last(), dir)
    }
}

impl Store {
    /// The members of a directory.
    pub fn dir_members(&self, dir: u128) -> (r: Vec<u128>)
        ensures
            r@ == members_of(self.members@, dir),
    {
        let mut r: Vec<u128> = Vec::new();
        let mut i: usize = 0;
        while i < self.members.len()
            invariant
                i <= self.members@.len(),
                r@ == members_of(self.members@.subrange(0, i as int), dir),
            decreases self.members@.len() - i,
        {
            proof {
                assert(self.members@.subrange(0, i + 1).drop_last() =~= self.members@.subrange(
                    0,
                    i as int,
                ));
            }
            if self.members[i].dir == dir {
                r.push(self.members[i].user);
            }
            i = i + 1;
        }
        proof {
            assert(self.members@.subrange(0, i as int) =~= self.members@);
        }
        r
    }
}

/// Why a directory may not be deleted.
#[derive(Clone, Copy, Debug, PartialEq, Eq, Structural)]
pub enum DirDeleteError {
    /// More or fewer than one member remains.
    MembersRemain,
    /// The caller is neither the one remaining member nor an administrator.
    NotSoleOwner,
}

pub open spec fn dir_delete_rule(caller: Caller, members: Seq<u128>) -> Result<(), DirDeleteError> {
    if members.len() != 1 {
        Err(DirDeleteError::MembersRemain)
    } else if caller.administrator || members[0] == caller.uuid {
        Ok(())
    } else {
        Err(DirDeleteError::NotSoleOwner)
    }
}

/// A directory may be deleted only while exactly one member remains, and only
/// by that member or an administrator.
pub fn dir_delete_decision(caller: Caller, members: &Vec<u128>) -> (r: Result<(), DirDeleteError>)
    ensures
        r == dir_delete_rule(caller, members@),
{
    if members.len() != 1 {
        Err(DirDeleteError::MembersRemain)
    } else if caller.administrator || members[0] == caller.uuid {
        Ok(())
    } else {
        Err(DirDeleteError::NotSoleOwner)
    }
}

/// Whether a deletion of `dir` by `caller` goes through: exactly one member
/// remains, and the caller is that member or an administrator.
pub open spec fn may_delete_dir(db: Store, caller: Caller, dir: u128) -> bool {
    dir_delete_rule(caller, members_of(db.members@, dir)) is Ok
}

/// Deletes nothing; decides whether `caller` may delete `dir`.
pub fn check_delete_dir(store: &Store, caller: Caller, dir: u128) -> (r: Result<(), DirDeleteError>)
    ensures
        r == dir_delete_rule(caller, members_of(store.members@, dir)),
        r is Ok <==> may_delete_dir(*store, caller, dir),
{
    let members = store.dir_members(dir);
    dir_delete_decision(caller, &members)
}

/// The one remaining member of a directory may delete it, whatever its
/// privilege bit.
pub proof fn lemma_sole_member_may_delete(db: Store, dir: u128, m: Caller)
    requires
        members_of(db.members@, dir) == seq![m.uuid],
    ensures
        may_delete_dir(db, m, dir),
{
}

/// A caller who is neither an administrator nor a member of a directory may
/// not delete it.
pub proof fn lemma_outsider_may_not_delete(db: Store, dir: u128, u: Caller)
    requires
        !u.administrator,
        !members_of(db.members@, dir).contains(u.uuid),
    ensures
        !may_delete_dir(db, u, dir),
{
    let ms = members_of(db.members@, dir);
    if ms.len() == 1 {
        assert(ms[0] == ms[0]);
    }
}

/// No caller may delete a directory that has two members.
pub proof fn lemma_two_members_block_deletion(db: Store, dir: u128, c: Caller)
    requires
        members_of(db.members@, dir).len() == 2,
    ensures
        !may_delete_dir(db, c, dir),
{
}

} // verus!
