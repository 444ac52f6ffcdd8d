//! The stored records, and the decisions that the database functions make
//! around their queries: above all the booking transaction, which decides
//! from the answers of its statements whether a slot still has room.
use vstd::prelude::*;

verus! {

/// A user as stored: its token (hyphenated UUID text), name and e-mail.
#[derive(Clone, Debug, PartialEq, Eq)]
pub struct UserRow {
    pub uuid: String,
    pub name: String,
    pub email: String,
}

/// A slot with its capacity and the number of bookings it holds.
#[derive(Clone, Debug, PartialEq, Eq)]
pub struct SlotRow {
    pub id: i64,
    pub label: String,
    pub max_bookings: i64,
    pub current_bookings: i64,
}

/// How a booking attempt ended.
#[derive(Clone, Debug, PartialEq, Eq)]
pub enum BookResult {
    /// The slot is booked for the user.
    Booked { slot_id: i64, label: String },
    /// The slot does not exist or has no room left.
    SlotFull,
    /// The user may not change an existing booking; the handlers answer it,
    /// the booking transaction never ends with it (it replaces a booking).
    AlreadyBooked,
}

/// A user as the admin views list it.
#[derive(Clone, Debug, PartialEq, Eq)]
pub struct UserRecord {
    pub token: String,
    pub name: String,
    pub email: String,
    pub slot_label: Option<String>,
}

/// A database call failed; the caller that ran it has reported the cause.
#[derive(Clone, Debug, PartialEq, Eq)]
pub struct DbFailure;

/// The capacity row of one slot: its label, its limit and its current count.
#[derive(Clone, Debug, PartialEq, Eq)]
pub struct SlotLoad {
    pub label: String,
    pub max_bookings: i64,
    pub current_bookings: i64,
}

/// The statements of the booking transaction, in the order it issues them.
#[derive(Clone, Debug, PartialEq, Eq)]
pub enum TxStatement {
    /// Open the transaction.
    Begin,
    /// `UPDATE users SET name = ?, email = ? WHERE uuid = ?`
    UpdateUser { user_uuid: String, name: String, email: String },
    /// `DELETE FROM bookings WHERE user_uuid = ?`
    DeleteBookings { user_uuid: String },
    /// The slot's label, limit and count of bookings.
    SelectSlot { slot_id: i64 },
    /// `INSERT INTO bookings (user_uuid, slot_id) VALUES (?, ?)`
    InsertBooking { user_uuid: String, slot_id: i64 },
    /// `SELECT COUNT(*) FROM users WHERE uuid = ?`
    CountUser { user_uuid: String },
    Commit,
    Rollback,
}

/// What a statement that succeeded answered.
#[derive(Clone, Debug, PartialEq, Eq)]
pub enum TxOutcome {
    /// The statement was carried out.
    Done,
    /// The capacity row of the selected slot, if the slot exists.
    Slot(Option<SlotLoad>),
    /// The number of rows counted.
    Count(i64),
}

/// Where the booking transaction stands: which answer it waits for.
#[derive(Clone, Debug, PartialEq, Eq)]
pub enum TxStage {
    AwaitBegin,
    AwaitUpdate,
    AwaitDelete,
    AwaitSlot,
    AwaitInsert { label: String },
    AwaitCommit { label: String },
    AwaitRollback,
    Finished,
}

/// The booking transaction of one user for one slot.
#[derive(Clone, Debug, PartialEq, Eq)]
pub struct BookingTx {
    pub user_uuid: String,
    pub name: String,
    pub email: String,
    pub slot_id: i64,
    pub stage: TxStage,
}

/// What the transaction asks for next: a statement, or its end with the result.
#[derive(Debug, PartialEq, Eq)]
pub enum TxAction {
    Execute(TxStatement),
    Finish(Result<BookResult, DbFailure>),
}

impl BookingTx {
    /// The transaction in the given stage, with the same booking request.
    pub open spec fn at(self, stage: TxStage) -> BookingTx {
        BookingTx { stage, ..self }
    }

    /// The transaction ends in failure: a statement failed or answered out of turn.
    pub open spec fn failed(self) -> (BookingTx, TxAction) {
        (self.at(TxStage::Finished), TxAction::Finish(Err(DbFailure)))
    }

    /// The first step: open the transaction.
    pub open spec fn opening(user_uuid: String, name: String, email: String, slot_id: i64) -> (
        BookingTx,
        TxAction,
    ) {
        (
            BookingTx { user_uuid, name, email, slot_id, stage: TxStage::AwaitBegin },
            TxAction::Execute(TxStatement::Begin),
        )
    }

    /// The step taken on the answer to the statement the transaction waits for.
    pub open spec fn transition(self, reply: Result<TxOutcome, DbFailure>) -> (BookingTx, TxAction) {
        match self.stage {
            TxStage::AwaitBegin => match reply {
                Ok(TxOutcome::Done) => (
                    self.at(TxStage::AwaitUpdate),
                    TxAction::Execute(
                        TxStatement::UpdateUser {
                            user_uuid: self.user_uuid,
                            name: self.name,
                            email: self.email,
                        },
                    ),
                ),
                _ => self.failed(),
            },
            TxStage::AwaitUpdate => match reply {
                Ok(TxOutcome::Done) => (
                    self.at(TxStage::AwaitDelete),
                    TxAction::Execute(TxStatement::DeleteBookings { user_uuid: self.user_uuid }),
                ),
                _ => self.failed(),
            },
            TxStage::AwaitDelete => match reply {
                Ok(TxOutcome::Done) => (
                    self.at(TxStage::AwaitSlot),
                    TxAction::Execute(TxStatement::SelectSlot { slot_id: self.slot_id }),
                ),
                _ => self.failed(),
            },
            TxStage::AwaitSlot => match reply {
                Ok(TxOutcome::Slot(Some(load))) => if load.current_bookings >= load.max_bookings {
                    (self.at(TxStage::AwaitRollback), TxAction::Execute(TxStatement::Rollback))
                } else {
                    (
                        self.at(TxStage::AwaitInsert { label: load.label }),
                        TxAction::Execute(
                            TxStatement::InsertBooking {
                                user_uuid: self.user_uuid,
                                slot_id: self.slot_id,
                            },
                        ),
                    )
                },
                Ok(TxOutcome::Slot(None)) => (
                    self.at(TxStage::AwaitRollback),
                    TxAction::Execute(TxStatement::Rollback),
                ),
                _ => self.failed(),
            },
            TxStage::AwaitInsert { label } => match reply {
                Ok(TxOutcome::Done) => (
                    self.at(TxStage::AwaitCommit { label }),
                    TxAction::Execute(TxStatement::Commit),
                ),
                _ => self.failed(),
            },
            TxStage::AwaitCommit { label } => match reply {
                Ok(TxOutcome::Done) => (
                    self.at(TxStage::Finished),
                    TxAction::Finish(Ok(BookResult::Booked { slot_id: self.slot_id, label })),
                ),
                _ => self.failed(),
            },
            TxStage::AwaitRollback => match reply {
                Ok(TxOutcome::Done) => (
                    self.at(TxStage::Finished),
                    TxAction::Finish(Ok(BookResult::SlotFull)),
                ),
                _ => self.failed(),
            },
            TxStage::Finished => self.failed(),
        }
    }

    /// Starts booking `slot_id` for the user: records the user's name and
    /// e-mail, drops the user's current booking, and books the slot if it
    /// exists and has room, all in one transaction.
    pub fn start(user_uuid: String, name: String, email: String, slot_id: i64) -> (res: (
        BookingTx,
        TxAction,
    ))
        ensures
            res == BookingTx::opening(user_uuid, name, email, slot_id),
    {
        (
            BookingTx { user_uuid, name, email, slot_id, stage: TxStage::AwaitBegin },
            TxAction::Execute(TxStatement::Begin),
        )
    }

    /// Takes the answer to the statement the transaction waits for, and says
    /// what comes next.
    pub fn resume(self, reply: Result<TxOutcome, DbFailure>) -> (res: (BookingTx, TxAction))
        ensures
            res == self.transition(reply),
    {
        let BookingTx { user_uuid, name, email, slot_id, stage } = self;
        let fail = |user_uuid: String, name: String, email: String| -> (r: (BookingTx, TxAction))
            ensures
                r == (
                    BookingTx { user_uuid, name, email, slot_id, stage: TxStage::Finished },
                    TxAction::Finish(Err(DbFailure)),
                ),
            {
                (
                    BookingTx { user_uuid, name, email, slot_id, stage: TxStage::Finished },
                    TxAction::Finish(Err(DbFailure)),
                )
            };
        match stage {
            TxStage::AwaitBegin => match reply {
                Ok(TxOutcome::Done) => {
                    let st = TxStatement::UpdateUser {
                        user_uuid: user_uuid.clone(),
                        name: name.clone(),
                        email: email.clone(),
                    };
                    (
                        BookingTx { user_uuid, name, email, slot_id, stage: TxStage::AwaitUpdate },
                        TxAction::Execute(st),
                    )
                },
                _ => fail(user_uuid, name, email),
            },
            TxStage::AwaitUpdate => match reply {
                Ok(TxOutcome::Done) => {
                    let st = TxStatement::DeleteBookings { user_uuid: user_uuid.clone() };
                    (
                        BookingTx { user_uuid, name, email, slot_id, stage: TxStage::AwaitDelete },
                        TxAction::Execute(st),
                    )
                },
                _ => fail(user_uuid, name, email),
            },
            TxStage::AwaitDelete => match reply {
                Ok(TxOutcome::Done) => (
                    BookingTx { user_uuid, name, email, slot_id, stage: TxStage::AwaitSlot },
                    TxAction::Execute(TxStatement::SelectSlot { slot_id }),
                ),
                _ => fail(user_uuid, name, email),
            },
            TxStage::AwaitSlot => match reply {
                Ok(TxOutcome::Slot(Some(load))) => {
                    if load.current_bookings >= load.max_bookings {
                        (
                            BookingTx {
                                user_uuid,
                                name,
                                email,
                                slot_id,
                                stage: TxStage::AwaitRollback,
                            },
                            TxAction::Execute(TxStatement::Rollback),
                        )
                    } else {
                        let st = TxStatement::InsertBooking {
                            user_uuid: user_uuid.clone(),
                            slot_id,
                        };
                        (
                            BookingTx {
                                user_uuid,
                                name,
                                email,
                                slot_id,
                                stage: TxStage::AwaitInsert { label: load.label },
                            },
                            TxAction::Execute(st),
                        )
                    }
                },
                Ok(TxOutcome::Slot(None)) => (
                    BookingTx { user_uuid, name, email, slot_id, stage: TxStage::AwaitRollback },
                    TxAction::Execute(TxStatement::Rollback),
                ),
                _ => fail(user_uuid, name, email),
            },
            TxStage::AwaitInsert { label } => match reply {
                Ok(TxOutcome::Done) => (
                    BookingTx {
                        user_uuid,
                        name,
                        email,
                        slot_id,
                        stage: TxStage::AwaitCommit { label },
                    },
                    TxAction::Execute(TxStatement::Commit),
                ),
                _ => fail(user_uuid, name, email),
            },
            TxStage::AwaitCommit { label } => match reply {
                Ok(TxOutcome::Done) => (
                    BookingTx { user_uuid, name, email, slot_id, stage: TxStage::Finished },
                    TxAction::Finish(Ok(BookResult::Booked { slot_id, label })),
                ),
                _ => fail(user_uuid, name, email),
            },
            TxStage::AwaitRollback => match reply {
                Ok(TxOutcome::Done) => (
                    BookingTx { user_uuid, name, email, slot_id, stage: TxStage::Finished },
                    TxAction::Finish(Ok(BookResult::SlotFull)),
                ),
                _ => fail(user_uuid, name, email),
            },
            TxStage::Finished => fail(user_uuid, name, email),
        }
    }
}

} // verus!

verus! {

/// The tables that the booking transaction touches.
pub struct DbModel {
    /// users: token text to (name, e-mail)
    pub users: Map<Seq<char>, (Seq<char>, Seq<char>)>,
    /// slots: id to (label, maximum number of bookings)
    pub slots: Map<i64, (String, i64)>,
    /// bookings: the booking user's token text to the booked slot
    pub bookings: Map<Seq<char>, i64>,
}

/// A database connection during a transaction: what is committed, and what
/// the open transaction sees and changes.
pub struct TxDb {
    pub committed: DbModel,
    pub working: DbModel,
}

/// The users who booked `slot`.
pub open spec fn holders(bookings: Map<Seq<char>, i64>, slot: i64) -> Set<Seq<char>> {
    bookings.dom().filter(|u: Seq<char>| bookings[u] == slot)
}

/// The number of bookings of `slot`.
pub open spec fn booked_count(db: DbModel, slot: i64) -> nat {
    holders(db.bookings, slot).len()
}

/// No slot holds more bookings than its maximum.
pub open spec fn within_capacity(db: DbModel) -> bool {
    &&& db.bookings.dom().finite()
    &&& forall|s: i64| #[trigger] db.slots.contains_key(s) ==> booked_count(db, s) <= db.slots[s].1
}

/// The users table after `UPDATE users SET name, email WHERE uuid`.
pub open spec fn renamed(
    users: Map<Seq<char>, (Seq<char>, Seq<char>)>,
    uuid: Seq<char>,
    name: Seq<char>,
    email: Seq<char>,
) -> Map<Seq<char>, (Seq<char>, Seq<char>)> {
    if users.contains_key(uuid) {
        users.insert(uuid, (name, email))
    } else {
        users
    }
}

/// What a statement does to the connection, and what it answers.
pub open spec fn execute(db: TxDb, st: TxStatement) -> (TxDb, Result<TxOutcome, DbFailure>) {
    let w = db.working;
    match st {
        TxStatement::Begin => (TxDb { working: db.committed, ..db }, Ok(TxOutcome::Done)),
        TxStatement::UpdateUser { user_uuid, name, email } => (
            TxDb {
                working: DbModel { users: renamed(w.users, user_uuid@, name@, email@), ..w },
                ..db
            },
            Ok(TxOutcome::Done),
        ),
        TxStatement::DeleteBookings { user_uuid } => (
            TxDb { working: DbModel { bookings: w.bookings.remove(user_uuid@), ..w }, ..db },
            Ok(TxOutcome::Done),
        ),
        TxStatement::SelectSlot { slot_id } => if w.slots.contains_key(slot_id) {
            (
                db,
                Ok(
                    TxOutcome::Slot(
                        Some(
                            SlotLoad {
                                label: w.slots[slot_id].0,
                                max_bookings: w.slots[slot_id].1,
                                current_bookings: booked_count(w, slot_id) as i64,
                            },
                        ),
                    ),
                ),
            )
        } else {
            (db, Ok(TxOutcome::Slot(None)))
        },
        TxStatement::InsertBooking { user_uuid, slot_id } => if w.bookings.contains_key(
            user_uuid@,
        ) {
            (db, Err(DbFailure))
        } else {
            (
                TxDb {
                    working: DbModel { bookings: w.bookings.insert(user_uuid@, slot_id), ..w },
                    ..db
                },
                Ok(TxOutcome::Done),
            )
        },
        TxStatement::CountUser { user_uuid } => (
            db,
            Ok(
                TxOutcome::Count(
                    if w.users.contains_key(user_uuid@) {
                        1
                    } else {
                        0
                    },
                ),
            ),
        ),
        TxStatement::Commit => (TxDb { committed: w, ..db }, Ok(TxOutcome::Done)),
        TxStatement::Rollback => (TxDb { working: db.committed, ..db }, Ok(TxOutcome::Done)),
    }
}

/// Runs the transaction against the connection, at most `fuel` statements.
pub open spec fn run(tx: BookingTx, act: TxAction, db: TxDb, fuel: nat) -> (
    TxDb,
    Option<Result<BookResult, DbFailure>>,
)
    decreases fuel,
{
    match act {
        TxAction::Finish(r) => (db, Some(r)),
        TxAction::Execute(st) => if fuel == 0 {
            (db, None)
        } else {
            let (db2, reply) = execute(db, st);
            let (tx2, act2) = tx.transition(reply);
            run(tx2, act2, db2, (fuel - 1) as nat)
        },
    }
}

/// The committed tables after the booking transaction ran on `db` alone, and
/// its result.
pub open spec fn book_in(
    db: DbModel,
    user_uuid: String,
    name: String,
    email: String,
    slot_id: i64,
) -> (DbModel, Option<Result<BookResult, DbFailure>>) {
    let (tx, act) = BookingTx::opening(user_uuid, name, email, slot_id);
    let (end, res) = run(tx, act, TxDb { committed: db, working: db }, 8);
    (end.committed, res)
}

proof fn lemma_holders_remove(b: Map<Seq<char>, i64>, u: Seq<char>, s: i64)
    ensures
        holders(b.remove(u), s) == holders(b, s).remove(u),
{
    assert(holders(b.remove(u), s) =~= holders(b, s).remove(u));
}

proof fn lemma_holders_insert(b: Map<Seq<char>, i64>, u: Seq<char>, t: i64, s: i64)
    requires
        !b.contains_key(u),
    ensures
        holders(b.insert(u, t), s) == (if t == s {
            holders(b, s).insert(u)
        } else {
            holders(b, s)
        }),
{
    if t == s {
        assert(holders(b.insert(u, t), s) =~= holders(b, s).insert(u));
    } else {
        assert(holders(b.insert(u, t), s) =~= holders(b, s));
    }
}

proof fn lemma_holders_finite(b: Map<Seq<char>, i64>, s: i64)
    requires
        b.dom().finite(),
    ensures
        holders(b, s).finite(),
        holders(b, s).len() <= b.dom().len(),
{
    let f = |u: Seq<char>| b[u] == s;
    b.dom().lemma_len_filter(f);
    assert(holders(b, s) =~= b.dom().filter(f));
}

} // verus!

verus! {

/// The law of booking. On tables where no slot holds more bookings than its
/// maximum, the booking transaction always ends, and:
/// where the slot exists and has room once the user's own booking is dropped,
/// the user ends up holding exactly that booking and the user's name and
/// e-mail are recorded; otherwise the answer is "slot full" and nothing
/// changes. Either way no slot ends up over its maximum.
pub proof fn booking_respects_capacity(
    db: DbModel,
    user_uuid: String,
    name: String,
    email: String,
    slot_id: i64,
)
    requires
        within_capacity(db),
    ensures
        ({
            let (after, res) = book_in(db, user_uuid, name, email, slot_id);
            let freed = db.bookings.remove(user_uuid@);
            let has_room = db.slots.contains_key(slot_id) && holders(freed, slot_id).len()
                < db.slots[slot_id].1;
            &&& within_capacity(after)
            &&& has_room ==> res == Some(
                Ok::<BookResult, DbFailure>(
                    BookResult::Booked { slot_id, label: db.slots[slot_id].0 },
                ),
            ) && after == DbModel {
                users: renamed(db.users, user_uuid@, name@, email@),
                slots: db.slots,
                bookings: freed.insert(user_uuid@, slot_id),
            }
            &&& !has_room ==> res == Some(Ok::<BookResult, DbFailure>(BookResult::SlotFull))
                && after == db
        }),
{
    reveal_with_fuel(run, 8);
    let u = user_uuid@;
    let freed = db.bookings.remove(u);
    lemma_holders_remove(db.bookings, u, slot_id);
    lemma_holders_finite(db.bookings, slot_id);
    if db.slots.contains_key(slot_id) {
        assert(holders(freed, slot_id).len() <= booked_count(db, slot_id));
    }
    let has_room = db.slots.contains_key(slot_id) && holders(freed, slot_id).len()
        < db.slots[slot_id].1;
    if has_room {
        let after = DbModel {
            users: renamed(db.users, u, name@, email@),
            slots: db.slots,
            bookings: freed.insert(u, slot_id),
        };
        assert forall|s: i64| #[trigger] after.slots.contains_key(s) implies booked_count(after, s)
            <= after.slots[s].1 by {
            lemma_holders_remove(db.bookings, u, s);
            lemma_holders_finite(db.bookings, s);
            lemma_holders_insert(freed, u, slot_id, s);
            assert(booked_count(db, s) <= db.slots[s].1);
        }
    }
}

} // verus!

verus! {

/// Whether a text is the hyphenated text of a freshly drawn random UUID.
pub open spec fn is_fresh_token(t: Seq<char>) -> bool {
    exists|b: Seq<u8>| crate::token::is_v4(b) && t == #[trigger] crate::token::hyphenated(b)
}

/// A fresh token: the text of a new random UUID.
pub fn fresh_token() -> (res: String)
    ensures
        is_fresh_token(res@),
{
    let b = crate::token::new_v4();
    let t = crate::token::format_uuid(&b);
    assert(crate::token::is_v4(b@) && t@ == crate::token::hyphenated(b@));
    t
}

/// The record of a user that the admin has just created: a fresh token,
/// empty name and e-mail, no booking.
pub fn new_user_record() -> (res: UserRecord)
    ensures
        is_fresh_token(res.token@),
        res.name@ == Seq::<char>::empty(),
        res.email@ == Seq::<char>::empty(),
        res.slot_label is None,
{
    UserRecord { token: fresh_token(), name: String::new(), email: String::new(), slot_label: None }
}

/// The row of a slot just inserted under `id`: it holds no bookings yet.
pub fn created_slot_row(id: i64, label: &str, max_bookings: i32) -> (res: SlotRow)
    ensures
        res.id == id,
        res.label@ == label@,
        res.max_bookings == max_bookings as i64,
        res.current_bookings == 0,
{
    SlotRow { id, label: label.to_string(), max_bookings: max_bookings as i64, current_bookings: 0 }
}

/// An admin token is valid when some admin row carries it.
pub fn admin_found(count: i64) -> (res: bool)
    ensures
        res == (count > 0),
{
    count > 0
}

/// A delete found its row when it affected any.
pub fn removed_any(rows_affected: u64) -> (res: bool)
    ensures
        res == (rows_affected > 0),
{
    rows_affected > 0
}

/// The statements of the first-start admin setup.
#[derive(Clone, Debug, PartialEq, Eq)]
pub enum AdminStatement {
    /// `SELECT COUNT(*) FROM admins`
    CountAdmins,
    /// `INSERT INTO admins (uuid, name) VALUES (?, 'admin')`
    InsertAdmin { uuid: String },
}

/// What a statement of the admin setup answered.
#[derive(Clone, Debug, PartialEq, Eq)]
pub enum AdminOutcome {
    Count(i64),
    Done,
}

/// Where the admin setup stands.
#[derive(Clone, Debug, PartialEq, Eq)]
pub enum AdminStage {
    AwaitCount,
    AwaitInsert { uuid: String },
    Finished,
}

/// What the admin setup asks for next; it ends with the token of the admin
/// it created, if it created one.
#[derive(Debug, PartialEq, Eq)]
pub enum AdminAction {
    Execute(AdminStatement),
    Finish(Result<Option<String>, DbFailure>),
}

/// Makes sure an admin exists: creates one with a fresh token when there is
/// none.
#[derive(Clone, Debug, PartialEq, Eq)]
pub struct AdminSetup {
    pub stage: AdminStage,
}

impl AdminSetup {
    /// The first step: count the admins.
    pub fn start() -> (res: (AdminSetup, AdminAction))
        ensures
            res == (AdminSetup { stage: AdminStage::AwaitCount }, AdminAction::Execute(
                AdminStatement::CountAdmins,
            )),
    {
        (AdminSetup { stage: AdminStage::AwaitCount }, AdminAction::Execute(AdminStatement::CountAdmins))
    }

    /// Whether the answer makes the setup draw a fresh token: no admin yet.
    pub open spec fn draws(self, reply: Result<AdminOutcome, DbFailure>) -> bool {
        self.stage == AdminStage::AwaitCount && reply == Ok::<AdminOutcome, DbFailure>(
            AdminOutcome::Count(0),
        )
    }

    /// The step of the setup on an answer, with `fresh` as the token it
    /// draws where it draws one.
    pub open spec fn transition(self, reply: Result<AdminOutcome, DbFailure>, fresh: String) -> (
        AdminSetup,
        AdminAction,
    ) {
        match (self.stage, reply) {
            (AdminStage::AwaitCount, Ok(AdminOutcome::Count(n))) => if n == 0 {
                (
                    AdminSetup { stage: AdminStage::AwaitInsert { uuid: fresh } },
                    AdminAction::Execute(AdminStatement::InsertAdmin { uuid: fresh }),
                )
            } else {
                (AdminSetup { stage: AdminStage::Finished }, AdminAction::Finish(Ok(None)))
            },
            (AdminStage::AwaitInsert { uuid }, Ok(AdminOutcome::Done)) => (
                AdminSetup { stage: AdminStage::Finished },
                AdminAction::Finish(Ok(Some(uuid))),
            ),
            _ => (AdminSetup { stage: AdminStage::Finished }, AdminAction::Finish(Err(DbFailure))),
        }
    }

    /// Takes the answer to the statement the setup waits for. With no admin
    /// yet it inserts one under a fresh token and ends with that token; with
    /// admins present it ends with none; a failed or out-of-turn answer ends
    /// it in failure.
    pub fn resume(self, reply: Result<AdminOutcome, DbFailure>) -> (res: (AdminSetup, AdminAction))
        ensures
            res == self.transition(reply, drawn_token(res.1)),
            self.draws(reply) ==> is_fresh_token(drawn_token(res.1)@),
    {
        match (self.stage, reply) {
            (AdminStage::AwaitCount, Ok(AdminOutcome::Count(n))) => {
                if n == 0 {
                    let uuid = fresh_token();
                    let st = AdminStatement::InsertAdmin { uuid: uuid.clone() };
                    (AdminSetup { stage: AdminStage::AwaitInsert { uuid } }, AdminAction::Execute(st))
                } else {
                    (AdminSetup { stage: AdminStage::Finished }, AdminAction::Finish(Ok(None)))
                }
            },
            (AdminStage::AwaitInsert { uuid }, Ok(AdminOutcome::Done)) => (
                AdminSetup { stage: AdminStage::Finished },
                AdminAction::Finish(Ok(Some(uuid))),
            ),
            _ => (AdminSetup { stage: AdminStage::Finished }, AdminAction::Finish(Err(DbFailure))),
        }
    }
}

/// The token that an action inserts, if it inserts one.
pub open spec fn drawn_token(a: AdminAction) -> String {
    match a {
        AdminAction::Execute(AdminStatement::InsertAdmin { uuid }) => uuid,
        _ => vstd::pervasive::arbitrary(),
    }
}

/// What a statement of the admin setup does to the admins' tokens, and
/// what it answers; a token is an admin's key, so it is inserted once.
pub open spec fn admin_execute(admins: Set<Seq<char>>, st: AdminStatement) -> (
    Set<Seq<char>>,
    Result<AdminOutcome, DbFailure>,
) {
    match st {
        AdminStatement::CountAdmins => (admins, Ok(AdminOutcome::Count(admins.len() as i64))),
        AdminStatement::InsertAdmin { uuid } => if admins.contains(uuid@) {
            (admins, Err(DbFailure))
        } else {
            (admins.insert(uuid@), Ok(AdminOutcome::Done))
        },
    }
}

/// Runs the admin setup against the admins' tokens, at most `fuel`
/// statements, drawing `fresh` where it draws a token.
pub open spec fn admin_run(
    setup: AdminSetup,
    act: AdminAction,
    admins: Set<Seq<char>>,
    fresh: String,
    fuel: nat,
) -> (Set<Seq<char>>, Option<Result<Option<String>, DbFailure>>)
    decreases fuel,
{
    match act {
        AdminAction::Finish(r) => (admins, Some(r)),
        AdminAction::Execute(st) => if fuel == 0 {
            (admins, None)
        } else {
            let (a2, reply) = admin_execute(admins, st);
            let (s2, act2) = setup.transition(reply, fresh);
            admin_run(s2, act2, a2, fresh, (fuel - 1) as nat)
        },
    }
}

/// The admins' tokens after a whole admin setup, and its result.
pub open spec fn ensure_admin_in(admins: Set<Seq<char>>, fresh: String) -> (
    Set<Seq<char>>,
    Option<Result<Option<String>, DbFailure>>,
) {
    admin_run(
        AdminSetup { stage: AdminStage::AwaitCount },
        AdminAction::Execute(AdminStatement::CountAdmins),
        admins,
        fresh,
        3,
    )
}

/// The admin setup always ends. Without admins it creates one under the
/// token it drew and reports that token; with admins it reports none and
/// changes nothing. So after a setup that succeeded there is an admin, and
/// a second setup reports none and leaves the admins as they are. The
/// admins table is a table like any other: finitely many rows, as many as
/// its `i64` count can tell.
pub proof fn second_admin_setup_changes_nothing(
    admins: Set<Seq<char>>,
    fresh: String,
    fresh_again: String,
)
    requires
        admins.finite(),
        admins.len() <= i64::MAX,
    ensures
        ({
            let (after, res) = ensure_admin_in(admins, fresh);
            &&& res is Some
            &&& admins.len() == 0 ==> res == Some(
                Ok::<Option<String>, DbFailure>(Some(fresh)),
            ) && after == admins.insert(fresh@)
            &&& admins.len() > 0 ==> res == Some(Ok::<Option<String>, DbFailure>(None))
                && after == admins
            &&& res matches Some(Ok(_)) ==> after.len() > 0 && ensure_admin_in(
                after,
                fresh_again,
            ) == (after, Some(Ok::<Option<String>, DbFailure>(None)))
        }),
{
    reveal_with_fuel(admin_run, 4);
    if admins.len() == 0 {
        assert(!admins.contains(fresh@));
        let after = admins.insert(fresh@);
        assert(after.len() == 1);
        assert((after.len() as i64) != 0);
    } else {
        assert((admins.len() as i64) != 0);
    }
}

} // verus!

verus! {

/// What the admin changes of a user.
#[derive(Clone, Debug, PartialEq, Eq)]
pub enum UserChange {
    /// New name and e-mail, and the slot to book instead of the current
    /// booking; without a slot the booking stays as it is.
    Update { name: String, email: String, slot_id: Option<i64> },
    /// Drop the user's booking.
    ResetBooking,
}

/// How a change of a user ended.
#[derive(PartialEq, Eq, Structural, Clone, Copy, Debug)]
pub enum ChangeResult {
    /// The change is made.
    Changed,
    /// No user has the token; nothing changed.
    UserNotFound,
    /// The slot to book does not exist or has no room; nothing changed.
    SlotFull,
}

/// Where the change of a user stands: which answer it waits for.
#[derive(Clone, Debug, PartialEq, Eq)]
pub enum ChangeStage {
    AwaitBegin,
    AwaitCount,
    AwaitRename,
    AwaitDelete,
    AwaitSlot,
    AwaitInsert,
    AwaitCommit,
    AwaitRollback { result: ChangeResult },
    Finished,
}

/// What the change asks for next: a statement, or its end with the result.
#[derive(Debug, PartialEq, Eq)]
pub enum ChangeAction {
    Execute(TxStatement),
    Finish(Result<ChangeResult, DbFailure>),
}

/// The admin's change of one user, in one transaction: it checks that the
/// user exists, records the new name and e-mail, and books the new slot
/// with the same capacity check as a participant's booking; or it drops the
/// user's booking.
#[derive(Clone, Debug, PartialEq, Eq)]
pub struct UserChangeTx {
    pub user_uuid: String,
    pub change: UserChange,
    pub stage: ChangeStage,
}

impl UserChangeTx {
    /// The change in the given stage.
    pub open spec fn at(self, stage: ChangeStage) -> UserChangeTx {
        UserChangeTx { stage, ..self }
    }

    /// The slot the change books, if it books one.
    pub open spec fn new_slot(self) -> Option<i64> {
        match self.change {
            UserChange::Update { slot_id, .. } => slot_id,
            UserChange::ResetBooking => None,
        }
    }

    /// The change ends in failure: a statement failed or answered out of turn.
    pub open spec fn failed(self) -> (UserChangeTx, ChangeAction) {
        (self.at(ChangeStage::Finished), ChangeAction::Finish(Err(DbFailure)))
    }

    /// The first step: open the transaction.
    pub open spec fn opening(user_uuid: String, change: UserChange) -> (UserChangeTx, ChangeAction) {
        (
            UserChangeTx { user_uuid, change, stage: ChangeStage::AwaitBegin },
            ChangeAction::Execute(TxStatement::Begin),
        )
    }

    /// After the user is known to exist (and renamed, for an update): drop
    /// the booking where the change books a slot or resets, else commit.
    pub open spec fn after_rename(self) -> (UserChangeTx, ChangeAction) {
        if self.new_slot() is Some || self.change is ResetBooking {
            (
                self.at(ChangeStage::AwaitDelete),
                ChangeAction::Execute(TxStatement::DeleteBookings { user_uuid: self.user_uuid }),
            )
        } else {
            (self.at(ChangeStage::AwaitCommit), ChangeAction::Execute(TxStatement::Commit))
        }
    }

    /// Undo everything and end with `result`.
    pub open spec fn undo(self, result: ChangeResult) -> (UserChangeTx, ChangeAction) {
        (
            self.at(ChangeStage::AwaitRollback { result }),
            ChangeAction::Execute(TxStatement::Rollback),
        )
    }

    /// The step taken on the answer to the statement the change waits for.
    pub open spec fn transition(self, reply: Result<TxOutcome, DbFailure>) -> (
        UserChangeTx,
        ChangeAction,
    ) {
        match (self.stage, reply) {
            (ChangeStage::AwaitBegin, Ok(TxOutcome::Done)) => (
                self.at(ChangeStage::AwaitCount),
                ChangeAction::Execute(TxStatement::CountUser { user_uuid: self.user_uuid }),
            ),
            (ChangeStage::AwaitCount, Ok(TxOutcome::Count(n))) => if n == 0 {
                self.undo(ChangeResult::UserNotFound)
            } else {
                match self.change {
                    UserChange::Update { name, email, .. } => (
                        self.at(ChangeStage::AwaitRename),
                        ChangeAction::Execute(
                            TxStatement::UpdateUser { user_uuid: self.user_uuid, name, email },
                        ),
                    ),
                    UserChange::ResetBooking => self.after_rename(),
                }
            },
            (ChangeStage::AwaitRename, Ok(TxOutcome::Done)) => self.after_rename(),
            (ChangeStage::AwaitDelete, Ok(TxOutcome::Done)) => match self.new_slot() {
                Some(slot_id) => (
                    self.at(ChangeStage::AwaitSlot),
                    ChangeAction::Execute(TxStatement::SelectSlot { slot_id }),
                ),
                None => (self.at(ChangeStage::AwaitCommit), ChangeAction::Execute(TxStatement::Commit)),
            },
            (ChangeStage::AwaitSlot, Ok(TxOutcome::Slot(Some(load)))) => if load.current_bookings
                >= load.max_bookings {
                self.undo(ChangeResult::SlotFull)
            } else {
                match self.new_slot() {
                    Some(slot_id) => (
                        self.at(ChangeStage::AwaitInsert),
                        ChangeAction::Execute(
                            TxStatement::InsertBooking { user_uuid: self.user_uuid, slot_id },
                        ),
                    ),
                    None => self.failed(),
                }
            },
            (ChangeStage::AwaitSlot, Ok(TxOutcome::Slot(None))) => self.undo(ChangeResult::SlotFull),
            (ChangeStage::AwaitInsert, Ok(TxOutcome::Done)) => (
                self.at(ChangeStage::AwaitCommit),
                ChangeAction::Execute(TxStatement::Commit),
            ),
            (ChangeStage::AwaitCommit, Ok(TxOutcome::Done)) => (
                self.at(ChangeStage::Finished),
                ChangeAction::Finish(Ok(ChangeResult::Changed)),
            ),
            (ChangeStage::AwaitRollback { result }, Ok(TxOutcome::Done)) => (
                self.at(ChangeStage::Finished),
                ChangeAction::Finish(Ok(result)),
            ),
            _ => self.failed(),
        }
    }

    /// Starts the change of a user.
    pub fn start(user_uuid: String, change: UserChange) -> (res: (UserChangeTx, ChangeAction))
        ensures
            res == UserChangeTx::opening(user_uuid, change),
    {
        (
            UserChangeTx { user_uuid, change, stage: ChangeStage::AwaitBegin },
            ChangeAction::Execute(TxStatement::Begin),
        )
    }

    fn exec_after_rename(self) -> (res: (UserChangeTx, ChangeAction))
        ensures
            res == self.after_rename(),
    {
        let delete = match &self.change {
            UserChange::Update { slot_id, .. } => slot_id.is_some(),
            UserChange::ResetBooking => true,
        };
        if delete {
            let st = TxStatement::DeleteBookings { user_uuid: self.user_uuid.clone() };
            (UserChangeTx { stage: ChangeStage::AwaitDelete, ..self }, ChangeAction::Execute(st))
        } else {
            (
                UserChangeTx { stage: ChangeStage::AwaitCommit, ..self },
                ChangeAction::Execute(TxStatement::Commit),
            )
        }
    }

    /// Takes the answer to the statement the change waits for, and says what
    /// comes next.
    pub fn resume(self, reply: Result<TxOutcome, DbFailure>) -> (res: (UserChangeTx, ChangeAction))
        ensures
            res == self.transition(reply),
    {
        let target: Option<i64> = match &self.change {
            UserChange::Update { slot_id, .. } => *slot_id,
            UserChange::ResetBooking => None,
        };
        assert(target == self.new_slot());
        match (&self.stage, &reply) {
            (ChangeStage::AwaitBegin, Ok(TxOutcome::Done)) => {
                let st = TxStatement::CountUser { user_uuid: self.user_uuid.clone() };
                (UserChangeTx { stage: ChangeStage::AwaitCount, ..self }, ChangeAction::Execute(st))
            },
            (ChangeStage::AwaitCount, Ok(TxOutcome::Count(n))) => {
                if *n == 0 {
                    (
                        UserChangeTx {
                            stage: ChangeStage::AwaitRollback { result: ChangeResult::UserNotFound },
                            ..self
                        },
                        ChangeAction::Execute(TxStatement::Rollback),
                    )
                } else {
                    let rename = match &self.change {
                        UserChange::Update { name, email, .. } => Some(
                            TxStatement::UpdateUser {
                                user_uuid: self.user_uuid.clone(),
                                name: name.clone(),
                                email: email.clone(),
                            },
                        ),
                        UserChange::ResetBooking => None,
                    };
                    match rename {
                        Some(st) => (
                            UserChangeTx { stage: ChangeStage::AwaitRename, ..self },
                            ChangeAction::Execute(st),
                        ),
                        None => self.exec_after_rename(),
                    }
                }
            },
            (ChangeStage::AwaitRename, Ok(TxOutcome::Done)) => self.exec_after_rename(),
            (ChangeStage::AwaitDelete, Ok(TxOutcome::Done)) => match target {
                Some(slot_id) => (
                    UserChangeTx { stage: ChangeStage::AwaitSlot, ..self },
                    ChangeAction::Execute(TxStatement::SelectSlot { slot_id }),
                ),
                None => (
                    UserChangeTx { stage: ChangeStage::AwaitCommit, ..self },
                    ChangeAction::Execute(TxStatement::Commit),
                ),
            },
            (ChangeStage::AwaitSlot, Ok(TxOutcome::Slot(Some(load)))) => {
                if load.current_bookings >= load.max_bookings {
                    (
                        UserChangeTx {
                            stage: ChangeStage::AwaitRollback { result: ChangeResult::SlotFull },
                            ..self
                        },
                        ChangeAction::Execute(TxStatement::Rollback),
                    )
                } else {
                    match target {
                        Some(slot_id) => {
                            let st = TxStatement::InsertBooking {
                                user_uuid: self.user_uuid.clone(),
                                slot_id,
                            };
                            (
                                UserChangeTx { stage: ChangeStage::AwaitInsert, ..self },
                                ChangeAction::Execute(st),
                            )
                        },
                        None => (
                            UserChangeTx { stage: ChangeStage::Finished, ..self },
                            ChangeAction::Finish(Err(DbFailure)),
                        ),
                    }
                }
            },
            (ChangeStage::AwaitSlot, Ok(TxOutcome::Slot(None))) => (
                UserChangeTx {
                    stage: ChangeStage::AwaitRollback { result: ChangeResult::SlotFull },
                    ..self
                },
                ChangeAction::Execute(TxStatement::Rollback),
            ),
            (ChangeStage::AwaitInsert, Ok(TxOutcome::Done)) => (
                UserChangeTx { stage: ChangeStage::AwaitCommit, ..self },
                ChangeAction::Execute(TxStatement::Commit),
            ),
            (ChangeStage::AwaitCommit, Ok(TxOutcome::Done)) => (
                UserChangeTx { stage: ChangeStage::Finished, ..self },
                ChangeAction::Finish(Ok(ChangeResult::Changed)),
            ),
            (ChangeStage::AwaitRollback { result }, Ok(TxOutcome::Done)) => {
                let r = *result;
                (
                    UserChangeTx { stage: ChangeStage::Finished, ..self },
                    ChangeAction::Finish(Ok(r)),
                )
            },
            _ => (
                UserChangeTx { stage: ChangeStage::Finished, ..self },
                ChangeAction::Finish(Err(DbFailure)),
            ),
        }
    }
}

} // verus!

verus! {

/// The tables are as large as a database holds: the bookings are finitely
/// many, and their number fits the `i64` that a count answers with.
pub open spec fn countable(db: DbModel) -> bool {
    &&& db.bookings.dom().finite()
    &&& db.bookings.dom().len() <= i64::MAX
}

/// Whether `slot` exists and has room for `user` once the user's own
/// booking is dropped.
pub open spec fn has_room(db: DbModel, user: Seq<char>, slot: i64) -> bool {
    db.slots.contains_key(slot) && holders(db.bookings.remove(user), slot).len() < db.slots[slot].1
}

/// Runs the change of a user against the connection, at most `fuel`
/// statements.
pub open spec fn change_run(tx: UserChangeTx, act: ChangeAction, db: TxDb, fuel: nat) -> (
    TxDb,
    Option<Result<ChangeResult, DbFailure>>,
)
    decreases fuel,
{
    match act {
        ChangeAction::Finish(r) => (db, Some(r)),
        ChangeAction::Execute(st) => if fuel == 0 {
            (db, None)
        } else {
            let (db2, reply) = execute(db, st);
            let (tx2, act2) = tx.transition(reply);
            change_run(tx2, act2, db2, (fuel - 1) as nat)
        },
    }
}

/// The committed tables after the change of a user ran on `db` alone, and
/// its result.
pub open spec fn change_in(db: DbModel, user_uuid: String, change: UserChange) -> (
    DbModel,
    Option<Result<ChangeResult, DbFailure>>,
) {
    let (tx, act) = UserChangeTx::opening(user_uuid, change);
    let (end, res) = change_run(tx, act, TxDb { committed: db, working: db }, 8);
    (end.committed, res)
}

proof fn lemma_count_fits(db: DbModel, u: Seq<char>, s: i64)
    requires
        countable(db),
    ensures
        db.bookings.remove(u).dom().finite(),
        holders(db.bookings.remove(u), s).len() <= i64::MAX,
{
    let freed = db.bookings.remove(u);
    assert(freed.dom() =~= db.bookings.dom().remove(u));
    lemma_holders_finite(freed, s);
}

proof fn lemma_removal_within_capacity(db: DbModel, u: Seq<char>, after: DbModel)
    requires
        within_capacity(db),
        after.slots == db.slots,
        after.bookings == db.bookings.remove(u),
    ensures
        within_capacity(after),
{
    assert(after.bookings.dom() =~= db.bookings.dom().remove(u));
    assert forall|s: i64| #[trigger] after.slots.contains_key(s) implies booked_count(after, s)
        <= after.slots[s].1 by {
        lemma_holders_remove(db.bookings, u, s);
        lemma_holders_finite(db.bookings, s);
        assert(booked_count(db, s) <= db.slots[s].1);
    }
}

proof fn lemma_booking_within_capacity(db: DbModel, u: Seq<char>, slot_id: i64, after: DbModel)
    requires
        within_capacity(db),
        has_room(db, u, slot_id),
        after.slots == db.slots,
        after.bookings == db.bookings.remove(u).insert(u, slot_id),
    ensures
        within_capacity(after),
{
    let freed = db.bookings.remove(u);
    assert forall|s: i64| #[trigger] after.slots.contains_key(s) implies booked_count(after, s)
        <= after.slots[s].1 by {
        lemma_holders_remove(db.bookings, u, s);
        lemma_holders_finite(db.bookings, s);
        lemma_holders_insert(freed, u, slot_id, s);
        assert(booked_count(db, s) <= db.slots[s].1);
    }
}

/// The admin's change of a user. Where no user has the token, the answer is
/// "not found" and nothing changes. Otherwise: a reset drops the user's
/// booking; an update records the name and e-mail, keeps the booking where
/// it names no slot, and where it names one books it exactly when a
/// participant's booking would (the slot exists and has room once the
/// user's own booking is dropped), else answers "slot full" and changes
/// nothing. No change takes a slot beyond its maximum.
pub proof fn user_change_outcome(db: DbModel, user_uuid: String, change: UserChange)
    requires
        countable(db),
    ensures
        ({
            let (after, res) = change_in(db, user_uuid, change);
            let u = user_uuid@;
            let freed = db.bookings.remove(u);
            &&& !db.users.contains_key(u) ==> res == Some(
                Ok::<ChangeResult, DbFailure>(ChangeResult::UserNotFound),
            ) && after == db
            &&& db.users.contains_key(u) && change is ResetBooking ==> res == Some(
                Ok::<ChangeResult, DbFailure>(ChangeResult::Changed),
            ) && after == DbModel { users: db.users, slots: db.slots, bookings: freed }
            &&& change matches UserChange::Update { name, email, slot_id } ==> db.users.contains_key(u)
                ==> {
                let users = db.users.insert(u, (name@, email@));
                match slot_id {
                    None => res == Some(Ok::<ChangeResult, DbFailure>(ChangeResult::Changed))
                        && after == DbModel { users, slots: db.slots, bookings: db.bookings },
                    Some(s) => if has_room(db, u, s) {
                        res == Some(Ok::<ChangeResult, DbFailure>(ChangeResult::Changed)) && after
                            == DbModel { users, slots: db.slots, bookings: freed.insert(u, s) }
                    } else {
                        res == Some(Ok::<ChangeResult, DbFailure>(ChangeResult::SlotFull))
                            && after == db
                    },
                }
            }
            &&& within_capacity(db) ==> within_capacity(after)
        }),
{
    reveal_with_fuel(change_run, 8);
    let u = user_uuid@;
    let freed = db.bookings.remove(u);
    let (after, res) = change_in(db, user_uuid, change);
    if !db.users.contains_key(u) {
        assert(res == Some(Ok::<ChangeResult, DbFailure>(ChangeResult::UserNotFound)));
        assert(after == db);
    } else {
        match change {
            UserChange::ResetBooking => {
                assert(res == Some(Ok::<ChangeResult, DbFailure>(ChangeResult::Changed)));
                assert(after == DbModel { users: db.users, slots: db.slots, bookings: freed });
                if within_capacity(db) {
                    lemma_removal_within_capacity(db, u, after);
                }
            },
            UserChange::Update { name, email, slot_id } => {
                let users = db.users.insert(u, (name@, email@));
                assert(renamed(db.users, u, name@, email@) == users);
                match slot_id {
                    None => {
                        assert(res == Some(Ok::<ChangeResult, DbFailure>(ChangeResult::Changed)));
                        assert(after == DbModel { users, slots: db.slots, bookings: db.bookings });
                        if within_capacity(db) {
                            assert forall|t: i64| #[trigger] after.slots.contains_key(t) implies booked_count(
                                after,
                                t,
                            ) <= after.slots[t].1 by {
                                assert(booked_count(after, t) == booked_count(db, t));
                            }
                        }
                    },
                    Some(s) => {
                        lemma_count_fits(db, u, s);
                        if has_room(db, u, s) {
                            assert(res == Some(Ok::<ChangeResult, DbFailure>(ChangeResult::Changed)));
                            assert(after == DbModel {
                                users,
                                slots: db.slots,
                                bookings: freed.insert(u, s),
                            });
                            if within_capacity(db) {
                                lemma_booking_within_capacity(db, u, s, after);
                            }
                        } else {
                            assert(res == Some(Ok::<ChangeResult, DbFailure>(ChangeResult::SlotFull)));
                            assert(after == db);
                        }
                    },
                }
            },
        }
    }
}

} // verus!

verus! {

/// The booking transaction's outcome on `db`: booked where the slot exists
/// and has room once the user's own booking is dropped, "slot full" with
/// nothing changed otherwise.
pub open spec fn booking_outcome_holds(
    db: DbModel,
    user_uuid: String,
    name: String,
    email: String,
    slot_id: i64,
) -> bool {
    let (after, res) = book_in(db, user_uuid, name, email, slot_id);
    let u = user_uuid@;
    &&& has_room(db, u, slot_id) ==> res == Some(
        Ok::<BookResult, DbFailure>(BookResult::Booked { slot_id, label: db.slots[slot_id].0 }),
    ) && after == DbModel {
        users: renamed(db.users, u, name@, email@),
        slots: db.slots,
        bookings: db.bookings.remove(u).insert(u, slot_id),
    }
    &&& !has_room(db, u, slot_id) ==> res == Some(Ok::<BookResult, DbFailure>(BookResult::SlotFull))
        && after == db
}

proof fn lemma_book_outcome(db: DbModel, user_uuid: String, name: String, email: String, slot_id: i64)
    requires
        db.bookings.remove(user_uuid@).dom().finite(),
        holders(db.bookings.remove(user_uuid@), slot_id).len() <= i64::MAX,
    ensures
        booking_outcome_holds(db, user_uuid, name, email, slot_id),
{
    reveal_with_fuel(run, 8);
}

/// What the booking transaction does, on any tables a database holds:
/// where the slot exists and has room once the user's own booking is
/// dropped, the user ends up holding exactly that booking and the user's
/// name and e-mail are recorded; otherwise the answer is "slot full" and
/// nothing changes.
pub proof fn booking_outcome(db: DbModel, user_uuid: String, name: String, email: String, slot_id: i64)
    requires
        countable(db),
    ensures
        booking_outcome_holds(db, user_uuid, name, email, slot_id),
{
    lemma_count_fits(db, user_uuid@, slot_id);
    lemma_book_outcome(db, user_uuid, name, email, slot_id);
}

/// Booking one's own slot again, with nothing else changed in between,
/// books it again and leaves the tables as they are: re-booking one's own
/// slot never answers "slot full".
pub proof fn rebooking_own_slot_succeeds(
    db: DbModel,
    user_uuid: String,
    name: String,
    email: String,
    slot_id: i64,
)
    requires
        countable(db),
    ensures
        ({
            let (after, res) = book_in(db, user_uuid, name, email, slot_id);
            res matches Some(Ok(BookResult::Booked { .. })) ==> book_in(
                after,
                user_uuid,
                name,
                email,
                slot_id,
            ) == (after, res)
        }),
{
    let u = user_uuid@;
    let freed = db.bookings.remove(u);
    lemma_count_fits(db, u, slot_id);
    lemma_book_outcome(db, user_uuid, name, email, slot_id);
    let (after, res) = book_in(db, user_uuid, name, email, slot_id);
    if has_room(db, u, slot_id) {
        assert(!freed.dom().contains(u));
        assert(after.bookings.remove(u) =~= freed);
        assert(has_room(after, u, slot_id));
        lemma_book_outcome(after, user_uuid, name, email, slot_id);
        let users = renamed(db.users, u, name@, email@);
        assert(renamed(users, u, name@, email@) =~= users);
        assert(freed.insert(u, slot_id) =~= after.bookings);
    }
}

} // verus!
