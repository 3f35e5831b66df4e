use emotes::authz::{authorize, start, advance, Caller, Check, Column, Denial, Table, Walk};
use emotes::guards::{
    check_delete_dir, dir_delete_decision, AdminGuard, DirDeleteError, FirstRunGate, FirstRunGuard,
    UserDirPrivilegedGuard, UserOwnsGuard,
};
use emotes::store::{DirRow, EmoteRow, ImageLink, MemberRow, Store, TokenRow, UserRow};

const A: u128 = 0xa;
const B: u128 = 0xb;
const C: u128 = 0xc;
const ADMIN: u128 = 0xad;
const MEMES: u128 = 0x100;
const OTHER_DIR: u128 = 0x101;
const WAVE: u128 = 0x200;
const WAVE_IMG: u128 = 0x300;
const TOKEN_A: u128 = 0x400;

fn user(uuid: u128, name: &str, administrator: bool) -> UserRow {
    UserRow { uuid, username: name.to_string(), administrator }
}

fn caller(uuid: u128) -> Caller {
    Caller { uuid, administrator: false }
}

fn admin() -> Caller {
    Caller { uuid: ADMIN, administrator: true }
}

fn sample_store() -> Store {
    let mut s = Store::new();
    s.users = vec![user(A, "alice", false), user(B, "bob", false), user(C, "carol", false), user(ADMIN, "root", true)];
    s.dirs = vec![
        DirRow { uuid: MEMES, slug: "memes".to_string() },
        DirRow { uuid: OTHER_DIR, slug: "other".to_string() },
    ];
    s.members = vec![
        MemberRow { user: A, dir: MEMES, privileged: true },
        MemberRow { user: C, dir: OTHER_DIR, privileged: false },
    ];
    s.emotes = vec![EmoteRow { uuid: WAVE, slug: "wave".to_string(), dir: MEMES }];
    s.images = vec![ImageLink { uuid: WAVE_IMG, emote: WAVE }];
    s.tokens = vec![TokenRow { uuid: TOKEN_A, user: A }];
    s
}

fn owns(store: &Store, who: Caller, table: Table, column: Column) -> bool {
    store.allows(false, Some(who), &Check::Owns(table, column))
}

#[test]
fn dir_owner_iff_member_regardless_of_privilege() {
    let store = sample_store();
    assert!(owns(&store, caller(A), Table::EmoteDir, Column::UUID(MEMES)));
    assert!(!owns(&store, caller(B), Table::EmoteDir, Column::UUID(MEMES)));
    // C is a non-privileged member of the other directory.
    assert!(owns(&store, caller(C), Table::EmoteDir, Column::UUID(OTHER_DIR)));
    assert!(!owns(&store, caller(A), Table::EmoteDir, Column::UUID(OTHER_DIR)));
    // The privileged requirement needs the bit.
    assert!(!store.allows(false, Some(caller(C)), &Check::PrivilegedIn(OTHER_DIR)));
    assert!(store.allows(false, Some(caller(A)), &Check::PrivilegedIn(MEMES)));
}

#[test]
fn ownership_chains_fold_into_membership() {
    let store = sample_store();
    assert!(owns(&store, caller(A), Table::EmoteDir, Column::DirSlug("memes".to_string())));
    assert!(!owns(&store, caller(A), Table::EmoteDir, Column::DirSlug("nope".to_string())));
    assert!(owns(&store, caller(A), Table::Emote, Column::UUID(WAVE)));
    assert!(!owns(&store, caller(B), Table::Emote, Column::UUID(WAVE)));
    assert!(owns(&store, caller(A), Table::Emote, Column::EmoteSlug("memes/wave".to_string())));
    assert!(!owns(&store, caller(A), Table::Emote, Column::EmoteSlug("memes".to_string())));
    assert!(!owns(&store, caller(A), Table::Emote, Column::EmoteSlug("memes/wave/x".to_string())));
    assert!(owns(&store, caller(A), Table::EmoteImage, Column::UUID(WAVE_IMG)));
    assert!(!owns(&store, caller(C), Table::EmoteImage, Column::UUID(WAVE_IMG)));
    assert!(!owns(&store, caller(A), Table::EmoteImage, Column::UUID(0x999)));
    assert!(owns(&store, caller(A), Table::EmoteToken, Column::UUID(TOKEN_A)));
    assert!(!owns(&store, caller(B), Table::EmoteToken, Column::UUID(TOKEN_A)));
    assert!(owns(&store, caller(A), Table::EmoteUser, Column::UUID(A)));
    assert!(!owns(&store, caller(A), Table::EmoteUser, Column::UUID(B)));
    assert!(owns(&store, caller(B), Table::EmoteUser, Column::Username("bob".to_string())));
    assert!(!owns(&store, caller(A), Table::EmoteUser, Column::Username("bob".to_string())));
    // Columns that a table does not take deny.
    assert!(!owns(&store, caller(A), Table::EmoteToken, Column::Username("alice".to_string())));
}

#[test]
fn missing_caller_denies_all_but_first_run() {
    let store = sample_store();
    assert!(!store.allows(true, None, &Check::Administrator));
    assert!(!store.allows(true, None, &Check::Owns(Table::EmoteUser, Column::UUID(A))));
    assert!(!store.allows(true, None, &Check::PrivilegedIn(MEMES)));
    assert!(store.allows(true, None, &Check::FirstRun));
    assert!(!store.allows(false, None, &Check::FirstRun));
}

#[test]
fn or_composition_reports_last_denial() {
    let store = sample_store();
    let checks = vec![Check::Owns(Table::EmoteDir, Column::UUID(MEMES)), Check::Administrator];
    assert_eq!(authorize(&store, false, Some(caller(A)), &checks), Ok(()));
    assert_eq!(authorize(&store, false, Some(admin()), &checks), Ok(()));
    assert_eq!(authorize(&store, false, Some(caller(B)), &checks), Err(Denial::NotAdministrator));
    assert_eq!(authorize(&store, false, Some(caller(B)), &vec![]), Err(Denial::NoRequirement));
    assert_eq!(
        Denial::NotOwner.message(),
        "You don't own this resource; unauthorized"
    );
}

#[test]
fn walk_driven_by_outside_answers() {
    // An image chain, answered step by step as a database would.
    let walk = start(false, Some(caller(A)), &Check::Owns(Table::EmoteImage, Column::UUID(WAVE_IMG)));
    let store = sample_store();
    let mut w = walk;
    let mut steps = 0;
    let verdict = loop {
        match w {
            Walk::Done(b) => break b,
            Walk::Ask { user, privileged, lookup } => {
                let reply = store.answer(&lookup);
                w = advance(user, privileged, lookup, reply);
                steps += 1;
            }
        }
    };
    assert!(verdict);
    assert_eq!(steps, 3);
}

#[test]
fn guards() {
    let store = sample_store();
    assert!(AdminGuard.check(Some(admin())).is_ok());
    assert_eq!(AdminGuard.check(Some(caller(A))), Err(Denial::NotAdministrator));
    assert_eq!(AdminGuard.check(None), Err(Denial::NotAdministrator));
    let open = FirstRunGate::from_admin_token_count(0);
    let closed = FirstRunGate::from_admin_token_count(2);
    assert!(FirstRunGuard.check(&open).is_ok());
    assert_eq!(FirstRunGuard.check(&closed), Err(Denial::FirstRunDisabled));
    assert!(UserDirPrivilegedGuard::new(MEMES).check(&store, Some(caller(A))).is_ok());
    assert_eq!(
        UserDirPrivilegedGuard::new(OTHER_DIR).check(&store, Some(caller(C))),
        Err(Denial::NotPrivileged)
    );
    assert!(UserOwnsGuard::new(Table::Emote, Column::UUID(WAVE)).check(&store, Some(caller(A))).is_ok());
    assert_eq!(
        UserOwnsGuard::new(Table::Emote, Column::UUID(WAVE)).check(&store, Some(caller(B))),
        Err(Denial::NotOwner)
    );
}

#[test]
fn first_run_gate_clears_once() {
    let mut gate = FirstRunGate::from_admin_token_count(0);
    assert!(gate.is_active());
    assert!(!gate.permits_user_creation(false));
    assert!(gate.permits_user_creation(true));
    // A failed mint releases its reservation and leaves the flag set.
    assert!(gate.begin_first_run_mint());
    assert!(!gate.begin_first_run_mint());
    gate.end_mint(false);
    assert!(gate.is_active());
    // A successful one clears it for good.
    assert!(gate.begin_first_run_mint());
    gate.end_mint(true);
    assert!(!gate.is_active());
    assert!(!gate.begin_first_run_mint());
    gate.end_mint(false);
    assert!(!gate.is_active());
    assert!(gate.permits_user_creation(false));
}

#[test]
fn single_member_deletion_rules() {
    let store = sample_store();
    assert_eq!(check_delete_dir(&store, caller(A), MEMES), Ok(()));
    assert_eq!(check_delete_dir(&store, caller(B), MEMES), Err(DirDeleteError::NotSoleOwner));
    assert_eq!(check_delete_dir(&store, admin(), MEMES), Ok(()));
    // C is the one member of the other directory, without the privileged bit.
    assert_eq!(check_delete_dir(&store, caller(C), OTHER_DIR), Ok(()));
    assert_eq!(dir_delete_decision(caller(A), &vec![A]), Ok(()));
    assert_eq!(dir_delete_decision(caller(B), &vec![A]), Err(DirDeleteError::NotSoleOwner));
    assert_eq!(dir_delete_decision(admin(), &vec![A]), Ok(()));
    assert_eq!(dir_delete_decision(caller(A), &vec![A, B]), Err(DirDeleteError::MembersRemain));
    assert_eq!(dir_delete_decision(admin(), &vec![A, B]), Err(DirDeleteError::MembersRemain));
    assert_eq!(dir_delete_decision(admin(), &vec![]), Err(DirDeleteError::MembersRemain));
}

#[test]
fn shared_directory_scenario() {
    // A creates "memes" and is its sole, privileged member.
    let mut store = Store::new();
    store.users = vec![user(A, "alice", false), user(B, "bob", false)];
    store.dirs = vec![DirRow { uuid: MEMES, slug: "memes".to_string() }];
    store.members = vec![MemberRow { user: A, dir: MEMES, privileged: true }];
    assert_eq!(store.dir_members(MEMES), vec![A]);
    // B may not read it.
    assert!(!owns(&store, caller(B), Table::EmoteDir, Column::UUID(MEMES)));
    // A adds B, not privileged; A's privilege allows that.
    assert!(UserDirPrivilegedGuard::new(MEMES).check(&store, Some(caller(A))).is_ok());
    store.members.push(MemberRow { user: B, dir: MEMES, privileged: false });
    assert!(owns(&store, caller(B), Table::EmoteDir, Column::UUID(MEMES)));
    // Two members: nobody may delete.
    assert_eq!(check_delete_dir(&store, caller(B), MEMES), Err(DirDeleteError::MembersRemain));
    assert_eq!(check_delete_dir(&store, caller(A), MEMES), Err(DirDeleteError::MembersRemain));
    // An administrator is still held to the single-member rule.
    let mut with_admin = store.clone();
    with_admin.users.push(user(ADMIN, "root", true));
    assert_eq!(check_delete_dir(&with_admin, admin(), MEMES), Err(DirDeleteError::MembersRemain));
    // B is removed; A may delete.
    store.members.retain(|m| m.user != B);
    assert_eq!(check_delete_dir(&store, caller(A), MEMES), Ok(()));
}
