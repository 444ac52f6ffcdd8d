use std::collections::HashMap;

use ffw_slot_selector::db::{
    admin_found, created_slot_row, new_user_record, removed_any, AdminAction, AdminOutcome,
    AdminSetup, AdminStage, AdminStatement, BookResult, BookingTx, ChangeAction, ChangeResult,
    DbFailure, SlotLoad, TxAction, TxOutcome, TxStage, TxStatement, UserChange, UserChangeTx,
};

/// The tables of the booking transaction, kept in memory.
#[derive(Clone, Debug, PartialEq)]
struct Tables {
    users: HashMap<String, (String, String)>,
    slots: HashMap<i64, (String, i64)>,
    bookings: HashMap<String, i64>,
}

fn tables() -> Tables {
    let mut users = HashMap::new();
    users.insert("u1".to_string(), (String::new(), String::new()));
    users.insert("u2".to_string(), ("Bob".to_string(), "bob@x".to_string()));
    let mut slots = HashMap::new();
    slots.insert(1, ("10:00".to_string(), 1));
    slots.insert(2, ("11:00".to_string(), 2));
    Tables { users, slots, bookings: HashMap::new() }
}

/// Runs the booking transaction against the tables, as a database would.
fn book(t: &mut Tables, user: &str, name: &str, email: &str, slot: i64) -> Result<BookResult, DbFailure> {
    let committed = t.clone();
    let (mut tx, mut act) = BookingTx::start(user.into(), name.into(), email.into(), slot);
    let mut steps = 0;
    loop {
        steps += 1;
        assert!(steps <= 8);
        let st = match act {
            TxAction::Finish(r) => return r,
            TxAction::Execute(st) => st,
        };
        let reply = match st {
            TxStatement::Begin => Ok(TxOutcome::Done),
            TxStatement::UpdateUser { user_uuid, name, email } => {
                if let Some(u) = t.users.get_mut(&user_uuid) {
                    *u = (name, email);
                }
                Ok(TxOutcome::Done)
            }
            TxStatement::DeleteBookings { user_uuid } => {
                t.bookings.remove(&user_uuid);
                Ok(TxOutcome::Done)
            }
            TxStatement::SelectSlot { slot_id } => Ok(TxOutcome::Slot(t.slots.get(&slot_id).map(
                |(label, max)| SlotLoad {
                    label: label.clone(),
                    max_bookings: *max,
                    current_bookings: t.bookings.values().filter(|s| **s == slot_id).count() as i64,
                },
            ))),
            TxStatement::InsertBooking { user_uuid, slot_id } => {
                t.bookings.insert(user_uuid, slot_id);
                Ok(TxOutcome::Done)
            }
            TxStatement::CountUser { user_uuid } => {
                Ok(TxOutcome::Count(t.users.contains_key(&user_uuid) as i64))
            }
            TxStatement::Commit => Ok(TxOutcome::Done),
            TxStatement::Rollback => {
                *t = committed.clone();
                Ok(TxOutcome::Done)
            }
        };
        let (next, next_act) = tx.resume(reply);
        tx = next;
        act = next_act;
    }
}

#[test]
fn booking_a_free_slot() {
    let mut t = tables();
    let r = book(&mut t, "u1", "Ann", "ann@x", 1);
    assert_eq!(r, Ok(BookResult::Booked { slot_id: 1, label: "10:00".to_string() }));
    assert_eq!(t.bookings.get("u1"), Some(&1));
    assert_eq!(t.users["u1"], ("Ann".to_string(), "ann@x".to_string()));
}

#[test]
fn full_slot_changes_nothing() {
    let mut t = tables();
    book(&mut t, "u1", "Ann", "ann@x", 1).unwrap();
    let before = t.clone();
    let r = book(&mut t, "u2", "Robert", "rob@x", 1);
    assert_eq!(r, Ok(BookResult::SlotFull));
    assert_eq!(t, before);
}

#[test]
fn missing_slot_is_full() {
    let mut t = tables();
    let before = t.clone();
    assert_eq!(book(&mut t, "u1", "Ann", "ann@x", 9), Ok(BookResult::SlotFull));
    assert_eq!(t, before);
}

#[test]
fn rebooking_replaces_the_booking_and_own_place_counts_as_free() {
    let mut t = tables();
    book(&mut t, "u1", "Ann", "ann@x", 1).unwrap();
    // slot 1 is full, but the place is Ann's own
    assert_eq!(
        book(&mut t, "u1", "Ann", "ann@x", 1),
        Ok(BookResult::Booked { slot_id: 1, label: "10:00".to_string() })
    );
    assert_eq!(
        book(&mut t, "u1", "Ann", "ann@x", 2),
        Ok(BookResult::Booked { slot_id: 2, label: "11:00".to_string() })
    );
    assert_eq!(t.bookings.len(), 1);
    assert_eq!(t.bookings.get("u1"), Some(&2));
}

#[test]
fn capacity_holds_over_many_bookings() {
    let mut t = tables();
    for (i, user) in ["u1", "u2", "u3", "u4"].iter().enumerate() {
        t.users.insert(user.to_string(), (String::new(), String::new()));
        let _ = book(&mut t, user, "N", "n@x", 2);
        let _ = book(&mut t, user, "N", "n@x", (i as i64) % 2 + 1);
    }
    for (id, (_, max)) in &t.slots {
        assert!(t.bookings.values().filter(|s| *s == id).count() as i64 <= *max);
    }
}

#[test]
fn failed_statement_ends_the_transaction() {
    let (tx, _) = BookingTx::start("u1".into(), "A".into(), "a@x".into(), 1);
    let (tx, act) = tx.resume(Err(DbFailure));
    assert_eq!(act, TxAction::Finish(Err(DbFailure)));
    assert_eq!(tx.stage, TxStage::Finished);
}

#[test]
fn out_of_turn_answer_ends_the_transaction() {
    let (tx, _) = BookingTx::start("u1".into(), "A".into(), "a@x".into(), 1);
    let (_, act) = tx.resume(Ok(TxOutcome::Slot(None)));
    assert_eq!(act, TxAction::Finish(Err(DbFailure)));
}

#[test]
fn failed_commit_is_a_failure() {
    let tx = BookingTx {
        user_uuid: "u1".into(),
        name: "A".into(),
        email: "a@x".into(),
        slot_id: 1,
        stage: TxStage::AwaitCommit { label: "10:00".into() },
    };
    let (_, act) = tx.resume(Err(DbFailure));
    assert_eq!(act, TxAction::Finish(Err(DbFailure)));
}

#[test]
fn first_admin_is_created_once() {
    let (setup, act) = AdminSetup::start();
    assert_eq!(act, AdminAction::Execute(AdminStatement::CountAdmins));
    let (setup, act) = setup.resume(Ok(AdminOutcome::Count(0)));
    let token = match act {
        AdminAction::Execute(AdminStatement::InsertAdmin { uuid }) => uuid,
        other => panic!("unexpected {other:?}"),
    };
    assert_eq!(token.len(), 36);
    assert_eq!(&token[14..15], "4");
    assert_eq!(setup.stage, AdminStage::AwaitInsert { uuid: token.clone() });
    let (_, act) = setup.resume(Ok(AdminOutcome::Done));
    assert_eq!(act, AdminAction::Finish(Ok(Some(token))));
}

#[test]
fn existing_admin_means_no_new_one() {
    let (setup, _) = AdminSetup::start();
    let (_, act) = setup.resume(Ok(AdminOutcome::Count(2)));
    assert_eq!(act, AdminAction::Finish(Ok(None)));
}

#[test]
fn admin_setup_failure() {
    let (setup, _) = AdminSetup::start();
    let (_, act) = setup.resume(Err(DbFailure));
    assert_eq!(act, AdminAction::Finish(Err(DbFailure)));
}

#[test]
fn fresh_user_record() {
    let a = new_user_record();
    let b = new_user_record();
    assert_eq!(a.token.len(), 36);
    assert_eq!(a.token.chars().filter(|c| *c == '-').count(), 4);
    assert_ne!(a.token, b.token);
    assert_eq!(a.name, "");
    assert_eq!(a.email, "");
    assert_eq!(a.slot_label, None);
}

#[test]
fn created_slot_holds_no_bookings() {
    let row = created_slot_row(7, "12:00", 25);
    assert_eq!(row.id, 7);
    assert_eq!(row.label, "12:00");
    assert_eq!(row.max_bookings, 25);
    assert_eq!(row.current_bookings, 0);
}

#[test]
fn counts_and_affected_rows() {
    assert!(admin_found(1));
    assert!(!admin_found(0));
    assert!(removed_any(1));
    assert!(!removed_any(0));
}

fn run_admin_setup(admins: &mut std::collections::BTreeSet<String>) -> Result<Option<String>, DbFailure> {
    let (mut setup, mut act) = AdminSetup::start();
    loop {
        let reply = match act {
            AdminAction::Finish(r) => return r,
            AdminAction::Execute(AdminStatement::CountAdmins) => {
                Ok(AdminOutcome::Count(admins.len() as i64))
            }
            AdminAction::Execute(AdminStatement::InsertAdmin { uuid }) => {
                if admins.insert(uuid) {
                    Ok(AdminOutcome::Done)
                } else {
                    Err(DbFailure)
                }
            }
        };
        let (s, a) = setup.resume(reply);
        setup = s;
        act = a;
    }
}

#[test]
fn second_admin_setup_finds_the_first_admin() {
    let mut admins = std::collections::BTreeSet::new();
    let token = run_admin_setup(&mut admins).unwrap().unwrap();
    assert_eq!(admins.len(), 1);
    assert!(admins.contains(&token));
    let before = admins.clone();
    assert_eq!(run_admin_setup(&mut admins), Ok(None));
    assert_eq!(admins, before);
}

/// Runs one statement against the tables, as a database would.
fn execute(t: &mut Tables, committed: &Tables, st: TxStatement) -> Result<TxOutcome, DbFailure> {
    match st {
        TxStatement::Begin | TxStatement::Commit => Ok(TxOutcome::Done),
        TxStatement::UpdateUser { user_uuid, name, email } => {
            if let Some(u) = t.users.get_mut(&user_uuid) {
                *u = (name, email);
            }
            Ok(TxOutcome::Done)
        }
        TxStatement::DeleteBookings { user_uuid } => {
            t.bookings.remove(&user_uuid);
            Ok(TxOutcome::Done)
        }
        TxStatement::SelectSlot { slot_id } => Ok(TxOutcome::Slot(t.slots.get(&slot_id).map(
            |(label, max)| SlotLoad {
                label: label.clone(),
                max_bookings: *max,
                current_bookings: t.bookings.values().filter(|s| **s == slot_id).count() as i64,
            },
        ))),
        TxStatement::InsertBooking { user_uuid, slot_id } => {
            if t.bookings.contains_key(&user_uuid) {
                return Err(DbFailure);
            }
            t.bookings.insert(user_uuid, slot_id);
            Ok(TxOutcome::Done)
        }
        TxStatement::CountUser { user_uuid } => Ok(TxOutcome::Count(t.users.contains_key(&user_uuid) as i64)),
        TxStatement::Rollback => {
            *t = committed.clone();
            Ok(TxOutcome::Done)
        }
    }
}

/// Runs the admin's change of a user against the tables.
fn change(t: &mut Tables, user: &str, c: UserChange) -> Result<ChangeResult, DbFailure> {
    let committed = t.clone();
    let (mut tx, mut act) = UserChangeTx::start(user.into(), c);
    let mut steps = 0;
    loop {
        steps += 1;
        assert!(steps <= 8);
        let st = match act {
            ChangeAction::Finish(r) => return r,
            ChangeAction::Execute(st) => st,
        };
        let reply = execute(t, &committed, st);
        let (next, next_act) = tx.resume(reply);
        tx = next;
        act = next_act;
    }
}

fn update(name: &str, slot_id: Option<i64>) -> UserChange {
    UserChange::Update { name: name.into(), email: "x@y".into(), slot_id }
}

#[test]
fn admin_change_of_unknown_user() {
    let mut t = tables();
    let before = t.clone();
    assert_eq!(change(&mut t, "nobody", update("N", Some(1))), Ok(ChangeResult::UserNotFound));
    assert_eq!(change(&mut t, "nobody", UserChange::ResetBooking), Ok(ChangeResult::UserNotFound));
    assert_eq!(t, before);
}

#[test]
fn admin_edit_without_slot_keeps_booking() {
    let mut t = tables();
    book(&mut t, "u1", "Ann", "a@x", 2).unwrap();
    assert_eq!(change(&mut t, "u1", update("Anna", None)), Ok(ChangeResult::Changed));
    assert_eq!(t.users["u1"], ("Anna".to_string(), "x@y".to_string()));
    assert_eq!(t.bookings.get("u1"), Some(&2));
}

#[test]
fn admin_slot_change_checks_capacity() {
    let mut t = tables();
    book(&mut t, "u2", "Bob", "b@x", 1).unwrap();
    book(&mut t, "u1", "Ann", "a@x", 2).unwrap();
    let before = t.clone();
    // slot 1 holds one booking at most, and u2 has it
    assert_eq!(change(&mut t, "u1", update("Anna", Some(1))), Ok(ChangeResult::SlotFull));
    assert_eq!(change(&mut t, "u1", update("Anna", Some(9))), Ok(ChangeResult::SlotFull));
    assert_eq!(t, before);
    // u2 may move within its own slot, and to a slot with room
    assert_eq!(change(&mut t, "u2", update("Bo", Some(1))), Ok(ChangeResult::Changed));
    assert_eq!(change(&mut t, "u2", update("Bo", Some(2))), Ok(ChangeResult::Changed));
    assert_eq!(t.bookings.get("u2"), Some(&2));
    assert_eq!(t.bookings.values().filter(|s| **s == 2).count(), 2);
}

#[test]
fn admin_reset_drops_booking() {
    let mut t = tables();
    book(&mut t, "u1", "Ann", "a@x", 2).unwrap();
    assert_eq!(change(&mut t, "u1", UserChange::ResetBooking), Ok(ChangeResult::Changed));
    assert_eq!(t.bookings.get("u1"), None);
    assert_eq!(t.users["u1"], ("Ann".to_string(), "a@x".to_string()));
}

#[test]
fn admin_change_failure_ends_it() {
    let (tx, _) = UserChangeTx::start("u1".into(), UserChange::ResetBooking);
    let (_, act) = tx.resume(Err(DbFailure));
    assert_eq!(act, ChangeAction::Finish(Err(DbFailure)));
}

#[test]
fn rebooking_own_slot_books_again() {
    let mut t = tables();
    assert!(matches!(book(&mut t, "u1", "Ann", "a@x", 1), Ok(BookResult::Booked { .. })));
    let after = t.clone();
    assert_eq!(
        book(&mut t, "u1", "Ann", "a@x", 1),
        Ok(BookResult::Booked { slot_id: 1, label: "10:00".into() })
    );
    assert_eq!(t, after);
}
