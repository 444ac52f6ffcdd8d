//! The request handlers of the booking API as a state machine: each request
//! alternates database calls (made by the caller) with decisions (made here),
//! until it is answered.
use vstd::prelude::*;
use crate::db::{BookResult, ChangeResult, DbFailure, SlotRow, UserRecord, UserRow};
use crate::text::{byte_len, is_blank};
use crate::token::{hyphenated, uuid_from_text};

verus! {

/// A slot as the API shows it.
#[derive(Clone, Debug, PartialEq, Eq)]
pub struct Slot {
    pub id: i64,
    pub label: String,
    pub max_bookings: i32,
    pub current_bookings: i32,
}

/// What a participant's page shows: the user's data, all slots, and the
/// slot the user booked, if any.
#[derive(Clone, Debug, PartialEq, Eq)]
pub struct BookingPage {
    pub user_name: String,
    pub user_email: String,
    pub slots: Vec<Slot>,
    pub current_slot_id: Option<i64>,
}

/// A participant's booking form.
#[derive(Clone, Debug, PartialEq, Eq)]
pub struct BookSlotRequest {
    pub name: String,
    pub email: String,
    pub slot_id: i64,
}

/// The booking that was made.
#[derive(Clone, Debug, PartialEq, Eq)]
pub struct BookedSlot {
    pub slot_id: i64,
    pub label: String,
}

/// A field that may be sent as `null`.
#[derive(Clone, Debug, PartialEq, Eq)]
pub enum Nullable<T> {
    Null,
    Present(T),
}

/// The admin's edit of a user.
#[derive(Clone, Debug, PartialEq, Eq)]
pub struct UpdateUserRequest {
    pub name: String,
    pub email: String,
    pub slot_id: Option<Nullable<i64>>,
}

/// A user as the API shows it.
#[derive(Clone, Debug, PartialEq, Eq)]
pub struct User {
    pub token: [u8; 16],
    pub name: String,
    pub email: String,
    pub slot_label: Option<String>,
}

/// The admin's new slot.
#[derive(Clone, Debug, PartialEq, Eq)]
pub struct CreateSlotRequest {
    pub label: String,
    pub max_bookings: i32,
}

/// Why a request was turned down.
#[derive(PartialEq, Eq, Structural, Clone, Copy, Debug)]
pub enum ErrorKind {
    UnknownToken,
    InvalidName,
    InvalidEmail,
    SlotFull,
    AlreadyBooked,
    Unauthorized,
    UserNotFound,
    InvalidLabel,
    InvalidMaxBookings,
    SlotNotFound,
}

/// The answers of the API (HTTP status in the comment). A handler that
/// answers `Err(())` failed on the database, or, for the admin's update of
/// a user, found no room in the slot to book, with nothing changed (500):
/// the update answers only "updated", "not found" or a failure.
#[derive(Clone, Debug, PartialEq, Eq)]
pub enum ApiResponse {
    /// 200
    BookingPage(BookingPage),
    /// 200
    BookingConfirmed(BookedSlot),
    /// 200
    UserUpdated(User),
    /// 204
    BookingCleared,
    /// 204
    UserDeleted,
    /// 200
    Users(Vec<User>),
    /// 200
    Slots(Vec<Slot>),
    /// 200
    SlotCreated(Slot),
    /// 204
    SlotDeleted,
    /// 200
    UserCreated(User),
    /// 404
    NotFound(ErrorKind),
    /// 409
    Conflict(ErrorKind),
    /// 403
    Forbidden(ErrorKind),
}

/// The requests of the API. Tokens are the 16 bytes of a UUID.
#[derive(Clone, Debug, PartialEq, Eq)]
#[allow(inconsistent_fields)]
pub enum ApiRequest {
    GetBookingPage { user_uuid: [u8; 16] },
    BookSlot { user_uuid: [u8; 16], body: BookSlotRequest },
    UpdateUser { admin_uuid: [u8; 16], user_uuid: [u8; 16], body: UpdateUserRequest },
    ResetBooking { admin_uuid: [u8; 16], user_uuid: [u8; 16] },
    DeleteUser { admin_uuid: [u8; 16], user_uuid: [u8; 16] },
    ListUsers { admin_uuid: [u8; 16] },
    ListSlots { admin_uuid: [u8; 16] },
    CreateSlot { admin_uuid: [u8; 16], body: CreateSlotRequest },
    DeleteSlot { admin_uuid: [u8; 16], slot_id: i64 },
    CreateUser { admin_uuid: [u8; 16] },
}

/// What an admin request does once the admin token is confirmed.
#[derive(Clone, Debug, PartialEq, Eq)]
#[allow(inconsistent_fields)]
pub enum AdminOp {
    UpdateUser { user_uuid: [u8; 16], body: UpdateUserRequest },
    ResetBooking { user_uuid: [u8; 16] },
    DeleteUser { user_uuid: [u8; 16] },
    ListUsers,
    ListSlots,
    CreateSlot { body: CreateSlotRequest },
    DeleteSlot { slot_id: i64 },
    CreateUser,
}

/// The calls a handler asks its caller to make; tokens go as hyphenated text.
#[derive(Clone, Debug, PartialEq, Eq)]
#[allow(inconsistent_fields)]
pub enum ApiCall {
    GetUser { uuid: String },
    GetSlots,
    GetCurrentSlotId { user_uuid: String },
    BookSlot { user_uuid: String, name: String, email: String, slot_id: i64 },
    SendConfirmation { to: String, name: String, slot_label: String },
    IsValidAdmin { admin_uuid: String },
    /// The admin's edit of a user; without a slot the booking is kept.
    UpdateUser { user_uuid: String, name: String, email: String, slot_id: Option<i64> },
    ResetBooking { user_uuid: String },
    DeleteUser { user_uuid: String },
    ListUsers,
    ListSlots,
    CreateSlot { label: String, max_bookings: i32 },
    DeleteSlot { slot_id: i64 },
    CreateUser,
}

/// What a call that succeeded answered.
#[derive(Clone, Debug, PartialEq, Eq)]
pub enum ApiReply {
    User(Option<UserRow>),
    Slots(Vec<SlotRow>),
    CurrentSlot(Option<i64>),
    Booked(BookResult),
    /// The confirmation mail was handed over or failed; either way the
    /// booking stands.
    Sent,
    AdminValid(bool),
    /// Whether the user or slot that was deleted existed.
    Found(bool),
    /// How the change of a user (an update or a reset) ended.
    Changed(ChangeResult),
    Users(Vec<UserRecord>),
    SlotCreated(SlotRow),
    UserCreated(UserRecord),
}

/// What a handler waits for.
#[derive(Clone, Debug, PartialEq, Eq)]
pub enum Pending {
    PageUser,
    PageSlots { user: UserRow },
    PageCurrent { user: UserRow, slots: Vec<SlotRow> },
    BookUser { body: BookSlotRequest },
    BookSlot { body: BookSlotRequest },
    BookMail { slot_id: i64, label: String },
    Admin { op: AdminOp },
    AdminOp { op: AdminOp },
}

/// A handler's next step: a call to make, or the answer.
#[derive(Debug, PartialEq, Eq)]
pub enum Step {
    Call(Pending, ApiCall),
    Respond(Result<ApiResponse, ()>),
}

/// A name is required and at most 200 bytes long.
pub open spec fn valid_name(s: Seq<char>) -> bool {
    !is_blank(s) && byte_len(s) <= 200
}

/// An e-mail is required, at most 200 bytes long, and holds an `@`.
pub open spec fn valid_email(s: Seq<char>) -> bool {
    !is_blank(s) && byte_len(s) <= 200 && s.contains('@')
}

/// A slot label is required and at most 100 bytes long.
pub open spec fn valid_label(s: Seq<char>) -> bool {
    !is_blank(s) && byte_len(s) <= 100
}

/// A slot takes between 1 and 10000 bookings.
pub open spec fn valid_capacity(n: i32) -> bool {
    1 <= n <= 10000
}

/// What is wrong with a name and e-mail, checked in that order.
pub open spec fn contact_problem(name: Seq<char>, email: Seq<char>) -> Option<ErrorKind> {
    if !valid_name(name) {
        Some(ErrorKind::InvalidName)
    } else if !valid_email(email) {
        Some(ErrorKind::InvalidEmail)
    } else {
        None
    }
}

/// What is wrong with a new slot, checked in that order.
pub open spec fn slot_problem(label: Seq<char>, max_bookings: i32) -> Option<ErrorKind> {
    if !valid_label(label) {
        Some(ErrorKind::InvalidLabel)
    } else if !valid_capacity(max_bookings) {
        Some(ErrorKind::InvalidMaxBookings)
    } else {
        None
    }
}

/// A slot row as the API shows it; the counts are narrowed to 32 bits.
pub open spec fn slot_of(r: SlotRow) -> Slot {
    Slot {
        id: r.id,
        label: r.label,
        max_bookings: r.max_bookings as i32,
        current_bookings: r.current_bookings as i32,
    }
}

/// `shown` lists the rows as the API shows them.
pub open spec fn slots_shown(rows: Seq<SlotRow>, shown: Seq<Slot>) -> bool {
    &&& shown.len() == rows.len()
    &&& forall|i: int| 0 <= i < rows.len() ==> shown[i] == slot_of(#[trigger] rows[i])
}

/// A user record as the API shows it: the token text read as a UUID.
pub open spec fn user_shown(r: UserRecord, u: User) -> bool {
    &&& uuid_from_text(r.token@) == Some(u.token@)
    &&& u.name == r.name
    &&& u.email == r.email
    &&& u.slot_label == r.slot_label
}

/// `shown` lists the records as the API shows them.
pub open spec fn users_shown(recs: Seq<UserRecord>, shown: Seq<User>) -> bool {
    &&& shown.len() == recs.len()
    &&& forall|i: int| 0 <= i < recs.len() ==> user_shown(#[trigger] recs[i], shown[i])
}

/// Every token that the reply carries reads as a UUID.
pub open spec fn tokens_readable(reply: Result<ApiReply, DbFailure>) -> bool {
    match reply {
        Ok(ApiReply::Users(recs)) => forall|i: int|
            0 <= i < recs@.len() ==> (#[trigger] uuid_from_text(recs@[i].token@)) is Some,
        Ok(ApiReply::UserCreated(rec)) => uuid_from_text(rec.token@) is Some,
        _ => true,
    }
}

/// The slot id of an admin's edit: none when absent or `null`.
pub open spec fn flat_slot(s: Option<Nullable<i64>>) -> Option<i64> {
    match s {
        Some(Nullable::Present(v)) => Some(v),
        _ => None,
    }
}

/// The step that answers with `r`.
pub open spec fn answer(r: ApiResponse) -> Step {
    Step::Respond(Ok(r))
}

/// The step that answers with a database failure.
pub open spec fn internal_error() -> Step {
    Step::Respond(Err(()))
}

/// The step checks the admin token before `op`.
pub open spec fn checks_admin(step: Step, admin: [u8; 16], op: AdminOp) -> bool {
    &&& step matches Step::Call(Pending::Admin { op: o }, ApiCall::IsValidAdmin { admin_uuid: t })
    &&& o == op
    &&& t@ == hyphenated(admin@)
}

/// The first step of each request: look up the participant, or check the
/// admin.
pub open spec fn started(req: ApiRequest, step: Step) -> bool {
    match req {
        ApiRequest::GetBookingPage { user_uuid } => {
            &&& step matches Step::Call(Pending::PageUser, ApiCall::GetUser { uuid })
            &&& uuid@ == hyphenated(user_uuid@)
        },
        ApiRequest::BookSlot { user_uuid, body } => {
            &&& step matches Step::Call(Pending::BookUser { body: b }, ApiCall::GetUser { uuid })
            &&& b == body
            &&& uuid@ == hyphenated(user_uuid@)
        },
        ApiRequest::UpdateUser { admin_uuid, user_uuid, body } => checks_admin(
            step,
            admin_uuid,
            AdminOp::UpdateUser { user_uuid, body },
        ),
        ApiRequest::ResetBooking { admin_uuid, user_uuid } => checks_admin(
            step,
            admin_uuid,
            AdminOp::ResetBooking { user_uuid },
        ),
        ApiRequest::DeleteUser { admin_uuid, user_uuid } => checks_admin(
            step,
            admin_uuid,
            AdminOp::DeleteUser { user_uuid },
        ),
        ApiRequest::ListUsers { admin_uuid } => checks_admin(step, admin_uuid, AdminOp::ListUsers),
        ApiRequest::ListSlots { admin_uuid } => checks_admin(step, admin_uuid, AdminOp::ListSlots),
        ApiRequest::CreateSlot { admin_uuid, body } => checks_admin(
            step,
            admin_uuid,
            AdminOp::CreateSlot { body },
        ),
        ApiRequest::DeleteSlot { admin_uuid, slot_id } => checks_admin(
            step,
            admin_uuid,
            AdminOp::DeleteSlot { slot_id },
        ),
        ApiRequest::CreateUser { admin_uuid } => checks_admin(
            step,
            admin_uuid,
            AdminOp::CreateUser,
        ),
    }
}

/// The step after the admin token was confirmed: check the input, then make
/// the call that `op` stands for.
pub open spec fn admin_op_started(op: AdminOp, step: Step) -> bool {
    match op {
        AdminOp::UpdateUser { user_uuid, body } => match contact_problem(body.name@, body.email@) {
            Some(e) => step == answer(ApiResponse::Forbidden(e)),
            None => {
                &&& step matches Step::Call(
                    Pending::AdminOp { op: o },
                    ApiCall::UpdateUser { user_uuid: t, name, email, slot_id },
                )
                &&& o == op
                &&& t@ == hyphenated(user_uuid@)
                &&& name@ == body.name@
                &&& email@ == body.email@
                &&& slot_id == flat_slot(body.slot_id)
            },
        },
        AdminOp::ResetBooking { user_uuid } => {
            &&& step matches Step::Call(
                Pending::AdminOp { op: o },
                ApiCall::ResetBooking { user_uuid: t },
            )
            &&& o == op
            &&& t@ == hyphenated(user_uuid@)
        },
        AdminOp::DeleteUser { user_uuid } => {
            &&& step matches Step::Call(
                Pending::AdminOp { op: o },
                ApiCall::DeleteUser { user_uuid: t },
            )
            &&& o == op
            &&& t@ == hyphenated(user_uuid@)
        },
        AdminOp::ListUsers => step == Step::Call(Pending::AdminOp { op }, ApiCall::ListUsers),
        AdminOp::ListSlots => step == Step::Call(Pending::AdminOp { op }, ApiCall::ListSlots),
        AdminOp::CreateSlot { body } => match slot_problem(body.label@, body.max_bookings) {
            Some(e) => step == answer(ApiResponse::Forbidden(e)),
            None => {
                &&& step matches Step::Call(
                    Pending::AdminOp { op: o },
                    ApiCall::CreateSlot { label, max_bookings },
                )
                &&& o == op
                &&& label@ == body.label@
                &&& max_bookings == body.max_bookings
            },
        },
        AdminOp::DeleteSlot { slot_id } => step == Step::Call(
            Pending::AdminOp { op },
            ApiCall::DeleteSlot { slot_id },
        ),
        AdminOp::CreateUser => step == Step::Call(Pending::AdminOp { op }, ApiCall::CreateUser),
    }
}

/// The answer to an admin request once its call came back.
pub open spec fn admin_op_done(op: AdminOp, reply: Result<ApiReply, DbFailure>, step: Step) -> bool {
    match op {
        AdminOp::UpdateUser { user_uuid, body } => match reply {
            Ok(ApiReply::Changed(ChangeResult::Changed)) => step == answer(
                ApiResponse::UserUpdated(
                    User { token: user_uuid, name: body.name, email: body.email, slot_label: None },
                ),
            ),
            Ok(ApiReply::Changed(ChangeResult::UserNotFound)) => step == answer(
                ApiResponse::NotFound(ErrorKind::UserNotFound),
            ),
            _ => step == internal_error(),
        },
        AdminOp::ResetBooking { .. } => match reply {
            Ok(ApiReply::Changed(ChangeResult::Changed)) => step == answer(
                ApiResponse::BookingCleared,
            ),
            Ok(ApiReply::Changed(ChangeResult::UserNotFound)) => step == answer(
                ApiResponse::NotFound(ErrorKind::UserNotFound),
            ),
            _ => step == internal_error(),
        },
        AdminOp::DeleteUser { .. } => match reply {
            Ok(ApiReply::Found(true)) => step == answer(ApiResponse::UserDeleted),
            Ok(ApiReply::Found(false)) => step == answer(
                ApiResponse::NotFound(ErrorKind::UserNotFound),
            ),
            _ => step == internal_error(),
        },
        AdminOp::ListUsers => match reply {
            Ok(ApiReply::Users(recs)) => {
                &&& step matches Step::Respond(Ok(ApiResponse::Users(shown)))
                &&& users_shown(recs@, shown@)
            },
            _ => step == internal_error(),
        },
        AdminOp::ListSlots => match reply {
            Ok(ApiReply::Slots(rows)) => {
                &&& step matches Step::Respond(Ok(ApiResponse::Slots(shown)))
                &&& slots_shown(rows@, shown@)
            },
            _ => step == internal_error(),
        },
        AdminOp::CreateSlot { .. } => match reply {
            Ok(ApiReply::SlotCreated(row)) => step == answer(ApiResponse::SlotCreated(slot_of(row))),
            _ => step == internal_error(),
        },
        AdminOp::DeleteSlot { .. } => match reply {
            Ok(ApiReply::Found(true)) => step == answer(ApiResponse::SlotDeleted),
            Ok(ApiReply::Found(false)) => step == answer(
                ApiResponse::NotFound(ErrorKind::SlotNotFound),
            ),
            _ => step == internal_error(),
        },
        AdminOp::CreateUser => match reply {
            Ok(ApiReply::UserCreated(rec)) => {
                &&& step matches Step::Respond(Ok(ApiResponse::UserCreated(u)))
                &&& uuid_from_text(rec.token@) == Some(u.token@)
                &&& u.name == rec.name
                &&& u.email == rec.email
                &&& u.slot_label is None
            },
            _ => step == internal_error(),
        },
    }
}

/// The step a handler takes on the reply to its call. `mail` says whether
/// confirmation mails are configured.
pub open spec fn handled(p: Pending, reply: Result<ApiReply, DbFailure>, mail: bool, step: Step) -> bool {
    match p {
        Pending::PageUser => match reply {
            Ok(ApiReply::User(Some(u))) => step == Step::Call(
                Pending::PageSlots { user: u },
                ApiCall::GetSlots,
            ),
            Ok(ApiReply::User(None)) => step == answer(ApiResponse::NotFound(ErrorKind::UnknownToken)),
            _ => step == internal_error(),
        },
        Pending::PageSlots { user } => match reply {
            Ok(ApiReply::Slots(rows)) => {
                &&& step matches Step::Call(
                    Pending::PageCurrent { user: u, slots },
                    ApiCall::GetCurrentSlotId { user_uuid },
                )
                &&& u == user
                &&& slots == rows
                &&& user_uuid@ == user.uuid@
            },
            _ => step == internal_error(),
        },
        Pending::PageCurrent { user, slots } => match reply {
            Ok(ApiReply::CurrentSlot(current)) => {
                &&& step matches Step::Respond(Ok(ApiResponse::BookingPage(page)))
                &&& page.user_name == user.name
                &&& page.user_email == user.email
                &&& page.current_slot_id == current
                &&& slots_shown(slots@, page.slots@)
            },
            _ => step == internal_error(),
        },
        Pending::BookUser { body } => match reply {
            Ok(ApiReply::User(Some(u))) => match contact_problem(body.name@, body.email@) {
                Some(e) => step == answer(ApiResponse::Conflict(e)),
                None => {
                    &&& step matches Step::Call(
                        Pending::BookSlot { body: b },
                        ApiCall::BookSlot { user_uuid, name, email, slot_id },
                    )
                    &&& b == body
                    &&& user_uuid@ == u.uuid@
                    &&& name@ == body.name@
                    &&& email@ == body.email@
                    &&& slot_id == body.slot_id
                },
            },
            Ok(ApiReply::User(None)) => step == answer(ApiResponse::NotFound(ErrorKind::UnknownToken)),
            _ => step == internal_error(),
        },
        Pending::BookSlot { body } => match reply {
            Ok(ApiReply::Booked(BookResult::Booked { slot_id, label })) => if mail {
                &&& step matches Step::Call(
                    Pending::BookMail { slot_id: s, label: l },
                    ApiCall::SendConfirmation { to, name, slot_label },
                )
                &&& s == slot_id
                &&& l == label
                &&& to@ == body.email@
                &&& name@ == body.name@
                &&& slot_label@ == label@
            } else {
                step == answer(ApiResponse::BookingConfirmed(BookedSlot { slot_id, label }))
            },
            Ok(ApiReply::Booked(BookResult::SlotFull)) => step == answer(
                ApiResponse::Conflict(ErrorKind::SlotFull),
            ),
            Ok(ApiReply::Booked(BookResult::AlreadyBooked)) => step == answer(
                ApiResponse::Conflict(ErrorKind::AlreadyBooked),
            ),
            _ => step == internal_error(),
        },
        Pending::BookMail { slot_id, label } => step == answer(
            ApiResponse::BookingConfirmed(BookedSlot { slot_id, label }),
        ),
        Pending::Admin { op } => match reply {
            Ok(ApiReply::AdminValid(true)) => admin_op_started(op, step),
            _ => step == answer(ApiResponse::Forbidden(ErrorKind::Unauthorized)),
        },
        Pending::AdminOp { op } => admin_op_done(op, reply, step),
    }
}

} // verus!

verus! {

/// The first problem with a participant's name and e-mail, if any.
pub fn contact_check(name: &str, email: &str) -> (res: Option<ErrorKind>)
    ensures
        res == contact_problem(name@, email@),
{
    if crate::text::blank(name) || name.len() > 200 {
        return Some(ErrorKind::InvalidName);
    }
    if crate::text::blank(email) || email.len() > 200 || !crate::text::contains_char(email, '@') {
        return Some(ErrorKind::InvalidEmail);
    }
    None
}

/// The first problem with a new slot, if any.
pub fn slot_check(label: &str, max_bookings: i32) -> (res: Option<ErrorKind>)
    ensures
        res == slot_problem(label@, max_bookings),
{
    if crate::text::blank(label) || label.len() > 100 {
        return Some(ErrorKind::InvalidLabel);
    }
    if max_bookings < 1 || max_bookings > 10_000 {
        return Some(ErrorKind::InvalidMaxBookings);
    }
    None
}

/// A slot row as the API shows it.
pub fn show_slot(r: &SlotRow) -> (res: Slot)
    ensures
        res == slot_of(*r),
{
    Slot {
        id: r.id,
        label: r.label.clone(),
        max_bookings: #[verifier::truncate] (r.max_bookings as i32),
        current_bookings: #[verifier::truncate] (r.current_bookings as i32),
    }
}

/// Slot rows as the API shows them, in the same order.
pub fn show_slots(rows: &Vec<SlotRow>) -> (res: Vec<Slot>)
    ensures
        slots_shown(rows@, res@),
{
    let mut out: Vec<Slot> = Vec::new();
    let mut i: usize = 0;
    while i < rows.len()
        invariant
            i <= rows@.len(),
            out@.len() == i,
            forall|j: int| 0 <= j < i ==> out@[j] == slot_of(#[trigger] rows@[j]),
        decreases rows@.len() - i,
    {
        out.push(show_slot(&rows[i]));
        i = i + 1;
    }
    out
}

/// A user record as the API shows it.
pub fn show_user(r: &UserRecord) -> (res: User)
    requires
        uuid_from_text(r.token@) is Some,
    ensures
        user_shown(*r, res),
{
    let token = match crate::token::parse_uuid(r.token.as_str()) {
        Some(b) => b,
        None => {
            proof {
                assert(false);
            }
            [0u8; 16]
        },
    };
    let slot_label = match &r.slot_label {
        Some(l) => Some(l.clone()),
        None => None,
    };
    User { token, name: r.name.clone(), email: r.email.clone(), slot_label }
}

/// User records as the API shows them, in the same order.
pub fn show_users(recs: &Vec<UserRecord>) -> (res: Vec<User>)
    requires
        forall|i: int| 0 <= i < recs@.len() ==> (#[trigger] uuid_from_text(recs@[i].token@)) is Some,
    ensures
        users_shown(recs@, res@),
{
    let mut out: Vec<User> = Vec::new();
    let mut i: usize = 0;
    while i < recs.len()
        invariant
            i <= recs@.len(),
            forall|j: int| 0 <= j < recs@.len() ==> (#[trigger] uuid_from_text(recs@[j].token@)) is Some,
            out@.len() == i,
            forall|j: int| 0 <= j < i ==> user_shown(#[trigger] recs@[j], out@[j]),
        decreases recs@.len() - i,
    {
        assert(uuid_from_text(recs@[i as int].token@) is Some);
        out.push(show_user(&recs[i]));
        i = i + 1;
    }
    out
}

/// The first step of a request.
pub fn start(req: ApiRequest) -> (res: Step)
    ensures
        started(req, res),
{
    match req {
        ApiRequest::GetBookingPage { user_uuid } => Step::Call(
            Pending::PageUser,
            ApiCall::GetUser { uuid: crate::token::format_uuid(&user_uuid) },
        ),
        ApiRequest::BookSlot { user_uuid, body } => Step::Call(
            Pending::BookUser { body },
            ApiCall::GetUser { uuid: crate::token::format_uuid(&user_uuid) },
        ),
        ApiRequest::UpdateUser { admin_uuid, user_uuid, body } => check_admin(
            &admin_uuid,
            AdminOp::UpdateUser { user_uuid, body },
        ),
        ApiRequest::ResetBooking { admin_uuid, user_uuid } => check_admin(
            &admin_uuid,
            AdminOp::ResetBooking { user_uuid },
        ),
        ApiRequest::DeleteUser { admin_uuid, user_uuid } => check_admin(
            &admin_uuid,
            AdminOp::DeleteUser { user_uuid },
        ),
        ApiRequest::ListUsers { admin_uuid } => check_admin(&admin_uuid, AdminOp::ListUsers),
        ApiRequest::ListSlots { admin_uuid } => check_admin(&admin_uuid, AdminOp::ListSlots),
        ApiRequest::CreateSlot { admin_uuid, body } => check_admin(
            &admin_uuid,
            AdminOp::CreateSlot { body },
        ),
        ApiRequest::DeleteSlot { admin_uuid, slot_id } => check_admin(
            &admin_uuid,
            AdminOp::DeleteSlot { slot_id },
        ),
        ApiRequest::CreateUser { admin_uuid } => check_admin(&admin_uuid, AdminOp::CreateUser),
    }
}

fn check_admin(admin: &[u8; 16], op: AdminOp) -> (res: Step)
    ensures
        checks_admin(res, *admin, op),
{
    Step::Call(
        Pending::Admin { op },
        ApiCall::IsValidAdmin { admin_uuid: crate::token::format_uuid(admin) },
    )
}

/// The call an admin request makes once the admin token is confirmed, or
/// its refusal of bad input.
fn start_admin_op(op: AdminOp) -> (res: Step)
    ensures
        admin_op_started(op, res),
{
    match op {
        AdminOp::UpdateUser { user_uuid, body } => {
            match contact_check(body.name.as_str(), body.email.as_str()) {
                Some(e) => Step::Respond(Ok(ApiResponse::Forbidden(e))),
                None => {
                    let slot_id = match &body.slot_id {
                        Some(Nullable::Present(v)) => Some(*v),
                        _ => None,
                    };
                    let call = ApiCall::UpdateUser {
                        user_uuid: crate::token::format_uuid(&user_uuid),
                        name: body.name.clone(),
                        email: body.email.clone(),
                        slot_id,
                    };
                    Step::Call(Pending::AdminOp { op: AdminOp::UpdateUser { user_uuid, body } }, call)
                },
            }
        },
        AdminOp::ResetBooking { user_uuid } => {
            let call = ApiCall::ResetBooking { user_uuid: crate::token::format_uuid(&user_uuid) };
            Step::Call(Pending::AdminOp { op: AdminOp::ResetBooking { user_uuid } }, call)
        },
        AdminOp::DeleteUser { user_uuid } => {
            let call = ApiCall::DeleteUser { user_uuid: crate::token::format_uuid(&user_uuid) };
            Step::Call(Pending::AdminOp { op: AdminOp::DeleteUser { user_uuid } }, call)
        },
        AdminOp::ListUsers => Step::Call(Pending::AdminOp { op: AdminOp::ListUsers }, ApiCall::ListUsers),
        AdminOp::ListSlots => Step::Call(Pending::AdminOp { op: AdminOp::ListSlots }, ApiCall::ListSlots),
        AdminOp::CreateSlot { body } => {
            match slot_check(body.label.as_str(), body.max_bookings) {
                Some(e) => Step::Respond(Ok(ApiResponse::Forbidden(e))),
                None => {
                    let call = ApiCall::CreateSlot {
                        label: body.label.clone(),
                        max_bookings: body.max_bookings,
                    };
                    Step::Call(Pending::AdminOp { op: AdminOp::CreateSlot { body } }, call)
                },
            }
        },
        AdminOp::DeleteSlot { slot_id } => Step::Call(
            Pending::AdminOp { op: AdminOp::DeleteSlot { slot_id } },
            ApiCall::DeleteSlot { slot_id },
        ),
        AdminOp::CreateUser => Step::Call(Pending::AdminOp { op: AdminOp::CreateUser }, ApiCall::CreateUser),
    }
}

/// The answer to an admin request once its call came back.
fn finish_admin_op(op: AdminOp, reply: Result<ApiReply, DbFailure>) -> (res: Step)
    requires
        tokens_readable(reply),
    ensures
        admin_op_done(op, reply, res),
{
    let not_found = |e: ErrorKind| -> (r: Step)
        ensures
            r == answer(ApiResponse::NotFound(e)),
        { Step::Respond(Ok(ApiResponse::NotFound(e))) };
    match op {
        AdminOp::UpdateUser { user_uuid, body } => match reply {
            Ok(ApiReply::Changed(ChangeResult::Changed)) => Step::Respond(
                Ok(
                    ApiResponse::UserUpdated(
                        User { token: user_uuid, name: body.name, email: body.email, slot_label: None },
                    ),
                ),
            ),
            Ok(ApiReply::Changed(ChangeResult::UserNotFound)) => not_found(ErrorKind::UserNotFound),
            _ => Step::Respond(Err(())),
        },
        AdminOp::ResetBooking { .. } => match reply {
            Ok(ApiReply::Changed(ChangeResult::Changed)) => Step::Respond(
                Ok(ApiResponse::BookingCleared),
            ),
            Ok(ApiReply::Changed(ChangeResult::UserNotFound)) => not_found(ErrorKind::UserNotFound),
            _ => Step::Respond(Err(())),
        },
        AdminOp::DeleteUser { .. } => match reply {
            Ok(ApiReply::Found(true)) => Step::Respond(Ok(ApiResponse::UserDeleted)),
            Ok(ApiReply::Found(false)) => not_found(ErrorKind::UserNotFound),
            _ => Step::Respond(Err(())),
        },
        AdminOp::ListUsers => match reply {
            Ok(ApiReply::Users(recs)) => Step::Respond(Ok(ApiResponse::Users(show_users(&recs)))),
            _ => Step::Respond(Err(())),
        },
        AdminOp::ListSlots => match reply {
            Ok(ApiReply::Slots(rows)) => Step::Respond(Ok(ApiResponse::Slots(show_slots(&rows)))),
            _ => Step::Respond(Err(())),
        },
        AdminOp::CreateSlot { .. } => match reply {
            Ok(ApiReply::SlotCreated(row)) => Step::Respond(
                Ok(
                    ApiResponse::SlotCreated(
                        Slot {
                            id: row.id,
                            label: row.label,
                            max_bookings: #[verifier::truncate] (row.max_bookings as i32),
                            current_bookings: #[verifier::truncate] (row.current_bookings as i32),
                        },
                    ),
                ),
            ),
            _ => Step::Respond(Err(())),
        },
        AdminOp::DeleteSlot { .. } => match reply {
            Ok(ApiReply::Found(true)) => Step::Respond(Ok(ApiResponse::SlotDeleted)),
            Ok(ApiReply::Found(false)) => not_found(ErrorKind::SlotNotFound),
            _ => Step::Respond(Err(())),
        },
        AdminOp::CreateUser => match reply {
            Ok(ApiReply::UserCreated(rec)) => {
                let u = show_user(&rec);
                Step::Respond(
                    Ok(ApiResponse::UserCreated(User { slot_label: None, ..u })),
                )
            },
            _ => Step::Respond(Err(())),
        },
    }
}

} // verus!

verus! {

/// The step a handler takes on the reply to its call; `mail` says whether
/// confirmation mails are configured. A reply that carries user records must
/// carry tokens that read as UUIDs (the server treats one that does not as a
/// broken store and stops the request);
/// `resume_checked` tests that.
pub fn resume(p: Pending, reply: Result<ApiReply, DbFailure>, mail: bool) -> (res: Step)
    requires
        tokens_readable(reply),
    ensures
        handled(p, reply, mail, res),
{
    match p {
        Pending::PageUser => match reply {
            Ok(ApiReply::User(Some(u))) => Step::Call(Pending::PageSlots { user: u }, ApiCall::GetSlots),
            Ok(ApiReply::User(None)) => Step::Respond(
                Ok(ApiResponse::NotFound(ErrorKind::UnknownToken)),
            ),
            _ => Step::Respond(Err(())),
        },
        Pending::PageSlots { user } => match reply {
            Ok(ApiReply::Slots(rows)) => {
                let call = ApiCall::GetCurrentSlotId { user_uuid: user.uuid.clone() };
                Step::Call(Pending::PageCurrent { user, slots: rows }, call)
            },
            _ => Step::Respond(Err(())),
        },
        Pending::PageCurrent { user, slots } => match reply {
            Ok(ApiReply::CurrentSlot(current)) => {
                let shown = show_slots(&slots);
                Step::Respond(
                    Ok(
                        ApiResponse::BookingPage(
                            BookingPage {
                                user_name: user.name,
                                user_email: user.email,
                                slots: shown,
                                current_slot_id: current,
                            },
                        ),
                    ),
                )
            },
            _ => Step::Respond(Err(())),
        },
        Pending::BookUser { body } => match reply {
            Ok(ApiReply::User(Some(u))) => match contact_check(
                body.name.as_str(),
                body.email.as_str(),
            ) {
                Some(e) => Step::Respond(Ok(ApiResponse::Conflict(e))),
                None => {
                    let call = ApiCall::BookSlot {
                        user_uuid: u.uuid,
                        name: body.name.clone(),
                        email: body.email.clone(),
                        slot_id: body.slot_id,
                    };
                    Step::Call(Pending::BookSlot { body }, call)
                },
            },
            Ok(ApiReply::User(None)) => Step::Respond(
                Ok(ApiResponse::NotFound(ErrorKind::UnknownToken)),
            ),
            _ => Step::Respond(Err(())),
        },
        Pending::BookSlot { body } => match reply {
            Ok(ApiReply::Booked(BookResult::Booked { slot_id, label })) => {
                if mail {
                    let call = ApiCall::SendConfirmation {
                        to: body.email,
                        name: body.name,
                        slot_label: label.clone(),
                    };
                    Step::Call(Pending::BookMail { slot_id, label }, call)
                } else {
                    Step::Respond(Ok(ApiResponse::BookingConfirmed(BookedSlot { slot_id, label })))
                }
            },
            Ok(ApiReply::Booked(BookResult::SlotFull)) => Step::Respond(
                Ok(ApiResponse::Conflict(ErrorKind::SlotFull)),
            ),
            Ok(ApiReply::Booked(BookResult::AlreadyBooked)) => Step::Respond(
                Ok(ApiResponse::Conflict(ErrorKind::AlreadyBooked)),
            ),
            _ => Step::Respond(Err(())),
        },
        Pending::BookMail { slot_id, label } => Step::Respond(
            Ok(ApiResponse::BookingConfirmed(BookedSlot { slot_id, label })),
        ),
        Pending::Admin { op } => match reply {
            Ok(ApiReply::AdminValid(true)) => start_admin_op(op),
            _ => Step::Respond(Ok(ApiResponse::Forbidden(ErrorKind::Unauthorized))),
        },
        Pending::AdminOp { op } => finish_admin_op(op, reply),
    }
}

/// Whether every token that the reply carries reads as a UUID.
pub fn reply_tokens_readable(reply: &Result<ApiReply, DbFailure>) -> (res: bool)
    ensures
        res == tokens_readable(*reply),
{
    match reply {
        Ok(ApiReply::Users(recs)) => {
            let mut i: usize = 0;
            while i < recs.len()
                invariant
                    *reply == Ok::<ApiReply, DbFailure>(ApiReply::Users(*recs)),
                    i <= recs@.len(),
                    forall|j: int| 0 <= j < i ==> (#[trigger] uuid_from_text(recs@[j].token@)) is Some,
                decreases recs@.len() - i,
            {
                if crate::token::parse_uuid(recs[i].token.as_str()).is_none() {
                    assert(!(uuid_from_text(recs@[i as int].token@) is Some));
                    return false;
                }
                i = i + 1;
            }
            true
        },
        Ok(ApiReply::UserCreated(rec)) => crate::token::parse_uuid(rec.token.as_str()).is_some(),
        _ => true,
    }
}

/// `resume`, for any reply: nothing where a token that the reply carries
/// does not read as a UUID.
pub fn resume_checked(p: Pending, reply: Result<ApiReply, DbFailure>, mail: bool) -> (res: Option<Step>)
    ensures
        res is None <==> !tokens_readable(reply),
        res matches Some(step) ==> handled(p, reply, mail, step),
{
    if reply_tokens_readable(&reply) {
        Some(resume(p, reply, mail))
    } else {
        None
    }
}

} // verus!

verus! {

/// How many more calls a handler can make after the one it waits for.
pub open spec fn calls_left(p: Pending) -> nat {
    match p {
        Pending::PageUser => 2,
        Pending::PageSlots { .. } => 1,
        Pending::PageCurrent { .. } => 0,
        Pending::BookUser { .. } => 2,
        Pending::BookSlot { .. } => 1,
        Pending::BookMail { .. } => 0,
        Pending::Admin { .. } => 1,
        Pending::AdminOp { .. } => 0,
    }
}

/// Every request is answered: it starts with a call after which at most two
/// more follow, and each step on a reply either answers or makes a call with
/// fewer calls left.
pub proof fn every_request_is_answered(
    req: ApiRequest,
    first: Step,
    p: Pending,
    reply: Result<ApiReply, DbFailure>,
    mail: bool,
    next: Step,
)
    ensures
        started(req, first) ==> (first matches Step::Call(p0, _) && calls_left(p0) <= 2),
        handled(p, reply, mail, next) ==> (next matches Step::Call(p2, _) ==> (calls_left(p2)
            < calls_left(p))),
{
}

/// An admin request whose token the database did not confirm is refused
/// with "unauthorized", and nothing else is called.
pub proof fn unconfirmed_admin_is_refused(
    op: AdminOp,
    reply: Result<ApiReply, DbFailure>,
    mail: bool,
    next: Step,
)
    requires
        handled(Pending::Admin { op }, reply, mail, next),
        reply != Ok::<ApiReply, DbFailure>(ApiReply::AdminValid(true)),
    ensures
        next == answer(ApiResponse::Forbidden(ErrorKind::Unauthorized)),
{
}

/// A booking form with a bad name or e-mail never reaches the booking: it is
/// answered with the problem, and a form that passes is booked for the user
/// that was found, with the name, e-mail and slot of the form.
pub proof fn only_valid_forms_are_booked(
    body: BookSlotRequest,
    u: UserRow,
    mail: bool,
    next: Step,
)
    requires
        handled(
            Pending::BookUser { body },
            Ok::<ApiReply, DbFailure>(ApiReply::User(Some(u))),
            mail,
            next,
        ),
    ensures
        (next is Call) <==> (valid_name(body.name@) && valid_email(body.email@)),
        (next matches Step::Call(_, ApiCall::BookSlot { user_uuid, name, email, slot_id }) ==> (
        user_uuid@ == u.uuid@ && name@ == body.name@ && email@ == body.email@ && slot_id
            == body.slot_id)),
        (next is Call) ==> (next matches Step::Call(_, ApiCall::BookSlot { .. })),
{
}

/// A booking is confirmed only after the booking transaction booked the
/// slot, with that slot and label; a full slot is never confirmed.
pub proof fn confirmed_only_when_booked(
    body: BookSlotRequest,
    result: BookResult,
    mail: bool,
    next: Step,
)
    requires
        handled(
            Pending::BookSlot { body },
            Ok::<ApiReply, DbFailure>(ApiReply::Booked(result)),
            mail,
            next,
        ),
    ensures
        (next matches Step::Respond(Ok(ApiResponse::BookingConfirmed(b))) ==> (result
            == BookResult::Booked { slot_id: b.slot_id, label: b.label })),
        (result is SlotFull) ==> (next == answer(ApiResponse::Conflict(ErrorKind::SlotFull))),
{
}

} // verus!

verus! {

/// The message text of a refusal, as the API sends it.
pub open spec fn message_of(kind: ErrorKind) -> Seq<char> {
    match kind {
        ErrorKind::UnknownToken => "unknown token"@,
        ErrorKind::InvalidName => "invalid name"@,
        ErrorKind::InvalidEmail => "invalid email"@,
        ErrorKind::SlotFull => "slot is full"@,
        ErrorKind::AlreadyBooked => "already booked"@,
        ErrorKind::Unauthorized => "unauthorized"@,
        ErrorKind::UserNotFound => "user not found"@,
        ErrorKind::InvalidLabel => "invalid label"@,
        ErrorKind::InvalidMaxBookings => "invalid max_bookings"@,
        ErrorKind::SlotNotFound => "slot not found"@,
    }
}

/// The message text of a refusal.
pub fn error_message(kind: ErrorKind) -> (res: String)
    ensures
        res@ == message_of(kind),
{
    match kind {
        ErrorKind::UnknownToken => String::from_str("unknown token"),
        ErrorKind::InvalidName => String::from_str("invalid name"),
        ErrorKind::InvalidEmail => String::from_str("invalid email"),
        ErrorKind::SlotFull => String::from_str("slot is full"),
        ErrorKind::AlreadyBooked => String::from_str("already booked"),
        ErrorKind::Unauthorized => String::from_str("unauthorized"),
        ErrorKind::UserNotFound => String::from_str("user not found"),
        ErrorKind::InvalidLabel => String::from_str("invalid label"),
        ErrorKind::InvalidMaxBookings => String::from_str("invalid max_bookings"),
        ErrorKind::SlotNotFound => String::from_str("slot not found"),
    }
}

} // verus!

verus! {

/// The admin's user list holds every stored record, in order, whether or
/// not the user booked: one user per record, with the record's token (as
/// the UUID its text names), name, e-mail and booked slot (none where the
/// user booked none).
pub proof fn every_user_is_listed(recs: Seq<UserRecord>, shown: Seq<User>)
    requires
        users_shown(recs, shown),
    ensures
        shown.len() == recs.len(),
        forall|i: int|
            0 <= i < recs.len() ==> {
                &&& uuid_from_text(#[trigger] recs[i].token@) == Some(shown[i].token@)
                &&& shown[i].name@ == recs[i].name@
                &&& shown[i].email@ == recs[i].email@
                &&& (recs[i].slot_label is None <==> shown[i].slot_label is None)
                &&& recs[i].slot_label matches Some(l) ==> shown[i].slot_label matches Some(m) && m@
                    == l@
            },
{
    assert forall|i: int| 0 <= i < recs.len() implies {
        &&& uuid_from_text(#[trigger] recs[i].token@) == Some(shown[i].token@)
        &&& shown[i].name@ == recs[i].name@
        &&& shown[i].email@ == recs[i].email@
        &&& (recs[i].slot_label is None <==> shown[i].slot_label is None)
        &&& recs[i].slot_label matches Some(l) ==> shown[i].slot_label matches Some(m) && m@ == l@
    } by {
        assert(user_shown(recs[i], shown[i]));
    }
}

/// The slots shown are all the stored slots, in order, full ones too: one
/// slot per row with the row's id and label, and its maximum and count
/// where they fit the 32-bit numbers the API carries.
pub proof fn every_slot_is_shown(rows: Seq<SlotRow>, shown: Seq<Slot>)
    requires
        slots_shown(rows, shown),
    ensures
        shown.len() == rows.len(),
        forall|i: int|
            0 <= i < rows.len() ==> {
                &&& (#[trigger] shown[i]).id == rows[i].id
                &&& shown[i].label@ == rows[i].label@
                &&& i32::MIN <= rows[i].max_bookings <= i32::MAX ==> shown[i].max_bookings
                    == rows[i].max_bookings
                &&& i32::MIN <= rows[i].current_bookings <= i32::MAX ==> shown[i].current_bookings
                    == rows[i].current_bookings
            },
{
    assert forall|i: int| 0 <= i < rows.len() implies {
        &&& (#[trigger] shown[i]).id == rows[i].id
        &&& shown[i].label@ == rows[i].label@
        &&& i32::MIN <= rows[i].max_bookings <= i32::MAX ==> shown[i].max_bookings
            == rows[i].max_bookings
        &&& i32::MIN <= rows[i].current_bookings <= i32::MAX ==> shown[i].current_bookings
            == rows[i].current_bookings
    } by {
        assert(shown[i] == slot_of(rows[i]));
    }
}

/// A name is refused exactly when it is white space only or longer than 200
/// bytes of UTF-8, and a name and e-mail pass exactly when, besides, the
/// e-mail is not white space only, at most 200 bytes long and holds an `@`.
pub proof fn contact_rule(name: Seq<char>, email: Seq<char>)
    requires
        vstd::utf8::encode_utf8(name).len() <= usize::MAX,
        vstd::utf8::encode_utf8(email).len() <= usize::MAX,
    ensures
        contact_problem(name, email) == Some(ErrorKind::InvalidName) <==> (forall|i: int|
            0 <= i < name.len() ==> crate::text::is_white_space(#[trigger] name[i]))
            || vstd::utf8::encode_utf8(name).len() > 200,
        contact_problem(name, email) is None <==> {
            &&& exists|i: int| 0 <= i < name.len() && !crate::text::is_white_space(#[trigger] name[i])
            &&& vstd::utf8::encode_utf8(name).len() <= 200
            &&& exists|i: int| 0 <= i < email.len() && !crate::text::is_white_space(#[trigger] email[i])
            &&& vstd::utf8::encode_utf8(email).len() <= 200
            &&& exists|i: int| 0 <= i < email.len() && #[trigger] email[i] == '@'
        },
{
}

} // verus!
