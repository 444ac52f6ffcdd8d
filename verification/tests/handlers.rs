use ffw_slot_selector::api::{
    contact_check, error_message, resume, resume_checked, slot_check, start, AdminOp, ApiCall, ApiReply,
    ApiRequest, ApiResponse, BookSlotRequest, BookedSlot, BookingPage, CreateSlotRequest,
    ErrorKind, Nullable, Pending, Slot, Step, UpdateUserRequest, User,
};
use ffw_slot_selector::db::{BookResult, ChangeResult, DbFailure, SlotRow, UserRecord, UserRow};

const ADMIN: [u8; 16] = [1; 16];
const USER: [u8; 16] = [
    0xa1, 0xa2, 0xa3, 0xa4, 0xb1, 0xb2, 0xc1, 0xc2, 0xd1, 0xd2, 0xd3, 0xd4, 0xd5, 0xd6, 0xd7, 0xd8,
];
const USER_TEXT: &str = "a1a2a3a4-b1b2-c1c2-d1d2-d3d4d5d6d7d8";
const ADMIN_TEXT: &str = "01010101-0101-0101-0101-010101010101";

fn user_row() -> UserRow {
    UserRow { uuid: USER_TEXT.into(), name: "Ann".into(), email: "ann@x.de".into() }
}

fn slot_rows() -> Vec<SlotRow> {
    vec![
        SlotRow { id: 1, label: "10:00".into(), max_bookings: 2, current_bookings: 1 },
        SlotRow { id: 2, label: "11:00".into(), max_bookings: 5_000_000_000, current_bookings: 0 },
    ]
}

fn form(name: &str, email: &str) -> BookSlotRequest {
    BookSlotRequest { name: name.into(), email: email.into(), slot_id: 1 }
}

fn call(step: Step) -> (Pending, ApiCall) {
    match step {
        Step::Call(p, c) => (p, c),
        other => panic!("expected a call, got {other:?}"),
    }
}

#[test]
fn booking_page_flow() {
    let (p, c) = call(start(ApiRequest::GetBookingPage { user_uuid: USER }));
    assert_eq!(c, ApiCall::GetUser { uuid: USER_TEXT.into() });
    let (p, c) = call(resume(p, Ok(ApiReply::User(Some(user_row()))), false));
    assert_eq!(c, ApiCall::GetSlots);
    let (p, c) = call(resume(p, Ok(ApiReply::Slots(slot_rows())), false));
    assert_eq!(c, ApiCall::GetCurrentSlotId { user_uuid: USER_TEXT.into() });
    let answer = resume(p, Ok(ApiReply::CurrentSlot(Some(1))), false);
    assert_eq!(
        answer,
        Step::Respond(Ok(ApiResponse::BookingPage(BookingPage {
            user_name: "Ann".into(),
            user_email: "ann@x.de".into(),
            slots: vec![
                Slot { id: 1, label: "10:00".into(), max_bookings: 2, current_bookings: 1 },
                // counts are narrowed to 32 bits
                Slot { id: 2, label: "11:00".into(), max_bookings: 5_000_000_000i64 as i32, current_bookings: 0 },
            ],
            current_slot_id: Some(1),
        })))
    );
}

#[test]
fn unknown_token_is_not_found() {
    let (p, _) = call(start(ApiRequest::GetBookingPage { user_uuid: USER }));
    assert_eq!(
        resume(p, Ok(ApiReply::User(None)), false),
        Step::Respond(Ok(ApiResponse::NotFound(ErrorKind::UnknownToken)))
    );
}

#[test]
fn database_failure_is_an_internal_error() {
    let (p, _) = call(start(ApiRequest::GetBookingPage { user_uuid: USER }));
    assert_eq!(resume(p, Err(DbFailure), false), Step::Respond(Err(())));
}

#[test]
fn booking_flow_with_mail() {
    let (p, c) = call(start(ApiRequest::BookSlot { user_uuid: USER, body: form("Ann", "ann@x.de") }));
    assert_eq!(c, ApiCall::GetUser { uuid: USER_TEXT.into() });
    let (p, c) = call(resume(p, Ok(ApiReply::User(Some(user_row()))), true));
    assert_eq!(
        c,
        ApiCall::BookSlot { user_uuid: USER_TEXT.into(), name: "Ann".into(), email: "ann@x.de".into(), slot_id: 1 }
    );
    let booked = BookResult::Booked { slot_id: 1, label: "10:00".into() };
    let (p, c) = call(resume(p, Ok(ApiReply::Booked(booked)), true));
    assert_eq!(
        c,
        ApiCall::SendConfirmation { to: "ann@x.de".into(), name: "Ann".into(), slot_label: "10:00".into() }
    );
    // a failed mail does not undo the booking
    assert_eq!(
        resume(p, Err(DbFailure), true),
        Step::Respond(Ok(ApiResponse::BookingConfirmed(BookedSlot { slot_id: 1, label: "10:00".into() })))
    );
}

#[test]
fn booking_without_mail() {
    let p = Pending::BookSlot { body: form("Ann", "ann@x.de") };
    let booked = BookResult::Booked { slot_id: 1, label: "10:00".into() };
    assert_eq!(
        resume(p, Ok(ApiReply::Booked(booked)), false),
        Step::Respond(Ok(ApiResponse::BookingConfirmed(BookedSlot { slot_id: 1, label: "10:00".into() })))
    );
}

#[test]
fn full_and_already_booked_are_conflicts() {
    let p = Pending::BookSlot { body: form("Ann", "ann@x.de") };
    assert_eq!(
        resume(p.clone(), Ok(ApiReply::Booked(BookResult::SlotFull)), true),
        Step::Respond(Ok(ApiResponse::Conflict(ErrorKind::SlotFull)))
    );
    assert_eq!(
        resume(p, Ok(ApiReply::Booked(BookResult::AlreadyBooked)), true),
        Step::Respond(Ok(ApiResponse::Conflict(ErrorKind::AlreadyBooked)))
    );
}

#[test]
fn bad_forms_are_refused_before_booking() {
    for (name, email, err) in [
        ("", "ann@x.de", ErrorKind::InvalidName),
        (" \t\u{3000}", "ann@x.de", ErrorKind::InvalidName),
        ("Ann", "", ErrorKind::InvalidEmail),
        ("Ann", "ann.x.de", ErrorKind::InvalidEmail),
        ("", "", ErrorKind::InvalidName),
    ] {
        let p = Pending::BookUser { body: form(name, email) };
        assert_eq!(
            resume(p, Ok(ApiReply::User(Some(user_row()))), false),
            Step::Respond(Ok(ApiResponse::Conflict(err)))
        );
    }
}

#[test]
fn contact_limits() {
    let long = "a".repeat(200);
    assert_eq!(contact_check(&long, "a@b"), None);
    assert_eq!(contact_check(&(long.clone() + "a"), "a@b"), Some(ErrorKind::InvalidName));
    // 100 two-byte characters are 200 bytes
    assert_eq!(contact_check(&"ä".repeat(100), "a@b"), None);
    assert_eq!(contact_check(&"ä".repeat(101), "a@b"), Some(ErrorKind::InvalidName));
    let long_mail = format!("{}@b", "a".repeat(199));
    assert_eq!(contact_check("Ann", &format!("{}@b", "a".repeat(198))), None);
    assert_eq!(contact_check("Ann", &long_mail), Some(ErrorKind::InvalidEmail));
    assert_eq!(contact_check(" Ann ", " @ "), None);
}

#[test]
fn slot_limits() {
    assert_eq!(slot_check("10:00", 1), None);
    assert_eq!(slot_check("10:00", 10_000), None);
    assert_eq!(slot_check("10:00", 0), Some(ErrorKind::InvalidMaxBookings));
    assert_eq!(slot_check("10:00", 10_001), Some(ErrorKind::InvalidMaxBookings));
    assert_eq!(slot_check("  ", 5), Some(ErrorKind::InvalidLabel));
    assert_eq!(slot_check(&"x".repeat(101), 5), Some(ErrorKind::InvalidLabel));
    assert_eq!(slot_check(&"x".repeat(101), 0), Some(ErrorKind::InvalidLabel));
}

fn admin_step(req: ApiRequest, op: AdminOp) -> Pending {
    let (p, c) = call(start(req));
    assert_eq!(c, ApiCall::IsValidAdmin { admin_uuid: ADMIN_TEXT.into() });
    assert_eq!(p, Pending::Admin { op });
    p
}

#[test]
fn unconfirmed_admin_is_refused() {
    for reply in [Ok(ApiReply::AdminValid(false)), Err(DbFailure)] {
        let p = admin_step(ApiRequest::ListUsers { admin_uuid: ADMIN }, AdminOp::ListUsers);
        assert_eq!(
            resume(p, reply, false),
            Step::Respond(Ok(ApiResponse::Forbidden(ErrorKind::Unauthorized)))
        );
    }
}

#[test]
fn list_users_flow() {
    let p = admin_step(ApiRequest::ListUsers { admin_uuid: ADMIN }, AdminOp::ListUsers);
    let (p, c) = call(resume(p, Ok(ApiReply::AdminValid(true)), false));
    assert_eq!(c, ApiCall::ListUsers);
    let recs = vec![UserRecord {
        token: USER_TEXT.into(),
        name: "Ann".into(),
        email: "ann@x.de".into(),
        slot_label: Some("10:00".into()),
    }];
    assert_eq!(
        resume(p, Ok(ApiReply::Users(recs)), false),
        Step::Respond(Ok(ApiResponse::Users(vec![User {
            token: USER,
            name: "Ann".into(),
            email: "ann@x.de".into(),
            slot_label: Some("10:00".into()),
        }])))
    );
}

#[test]
fn unreadable_token_is_caught() {
    let p = Pending::AdminOp { op: AdminOp::ListUsers };
    let recs = vec![UserRecord { token: "garbage".into(), name: "".into(), email: "".into(), slot_label: None }];
    assert_eq!(resume_checked(p, Ok(ApiReply::Users(recs)), false), None);
    let p = Pending::AdminOp { op: AdminOp::ListUsers };
    assert_eq!(
        resume_checked(p, Ok(ApiReply::Users(vec![])), false),
        Some(Step::Respond(Ok(ApiResponse::Users(vec![]))))
    );
}

#[test]
fn update_user_flow() {
    let body = UpdateUserRequest { name: "Ann".into(), email: "ann@x.de".into(), slot_id: Some(Nullable::Present(2)) };
    let op = AdminOp::UpdateUser { user_uuid: USER, body: body.clone() };
    let p = admin_step(ApiRequest::UpdateUser { admin_uuid: ADMIN, user_uuid: USER, body }, op);
    let (p, c) = call(resume(p, Ok(ApiReply::AdminValid(true)), false));
    assert_eq!(
        c,
        ApiCall::UpdateUser { user_uuid: USER_TEXT.into(), name: "Ann".into(), email: "ann@x.de".into(), slot_id: Some(2) }
    );
    assert_eq!(
        resume(p.clone(), Ok(ApiReply::Changed(ChangeResult::Changed)), false),
        Step::Respond(Ok(ApiResponse::UserUpdated(User {
            token: USER,
            name: "Ann".into(),
            email: "ann@x.de".into(),
            slot_label: None,
        })))
    );
    assert_eq!(
        resume(p.clone(), Ok(ApiReply::Changed(ChangeResult::UserNotFound)), false),
        Step::Respond(Ok(ApiResponse::NotFound(ErrorKind::UserNotFound)))
    );
    // a slot without room leaves everything as it was; the update answers a failure
    assert_eq!(resume(p, Ok(ApiReply::Changed(ChangeResult::SlotFull)), false), Step::Respond(Err(())));
}

#[test]
fn update_user_null_slot_and_bad_input() {
    let body = UpdateUserRequest { name: "Ann".into(), email: "ann@x.de".into(), slot_id: Some(Nullable::Null) };
    let p = Pending::Admin { op: AdminOp::UpdateUser { user_uuid: USER, body } };
    let (_, c) = call(resume(p, Ok(ApiReply::AdminValid(true)), false));
    assert!(matches!(c, ApiCall::UpdateUser { slot_id: None, .. }));
    let body = UpdateUserRequest { name: "Ann".into(), email: "no-at".into(), slot_id: None };
    let p = Pending::Admin { op: AdminOp::UpdateUser { user_uuid: USER, body } };
    assert_eq!(
        resume(p, Ok(ApiReply::AdminValid(true)), false),
        Step::Respond(Ok(ApiResponse::Forbidden(ErrorKind::InvalidEmail)))
    );
}

#[test]
fn reset_and_delete_flows() {
    let p = admin_step(
        ApiRequest::ResetBooking { admin_uuid: ADMIN, user_uuid: USER },
        AdminOp::ResetBooking { user_uuid: USER },
    );
    let (p, c) = call(resume(p, Ok(ApiReply::AdminValid(true)), false));
    assert_eq!(c, ApiCall::ResetBooking { user_uuid: USER_TEXT.into() });
    assert_eq!(
        resume(p.clone(), Ok(ApiReply::Changed(ChangeResult::Changed)), false),
        Step::Respond(Ok(ApiResponse::BookingCleared))
    );
    assert_eq!(
        resume(p, Ok(ApiReply::Changed(ChangeResult::UserNotFound)), false),
        Step::Respond(Ok(ApiResponse::NotFound(ErrorKind::UserNotFound)))
    );

    let p = admin_step(
        ApiRequest::DeleteUser { admin_uuid: ADMIN, user_uuid: USER },
        AdminOp::DeleteUser { user_uuid: USER },
    );
    let (p, c) = call(resume(p, Ok(ApiReply::AdminValid(true)), false));
    assert_eq!(c, ApiCall::DeleteUser { user_uuid: USER_TEXT.into() });
    assert_eq!(
        resume(p, Ok(ApiReply::Found(false)), false),
        Step::Respond(Ok(ApiResponse::NotFound(ErrorKind::UserNotFound)))
    );

    let p = admin_step(
        ApiRequest::DeleteSlot { admin_uuid: ADMIN, slot_id: 3 },
        AdminOp::DeleteSlot { slot_id: 3 },
    );
    let (p, c) = call(resume(p, Ok(ApiReply::AdminValid(true)), false));
    assert_eq!(c, ApiCall::DeleteSlot { slot_id: 3 });
    assert_eq!(
        resume(p.clone(), Ok(ApiReply::Found(false)), false),
        Step::Respond(Ok(ApiResponse::NotFound(ErrorKind::SlotNotFound)))
    );
    assert_eq!(resume(p, Ok(ApiReply::Found(true)), false), Step::Respond(Ok(ApiResponse::SlotDeleted)));
}

#[test]
fn slot_flows() {
    let body = CreateSlotRequest { label: "12:00".into(), max_bookings: 3 };
    let p = admin_step(
        ApiRequest::CreateSlot { admin_uuid: ADMIN, body: body.clone() },
        AdminOp::CreateSlot { body },
    );
    let (p, c) = call(resume(p, Ok(ApiReply::AdminValid(true)), false));
    assert_eq!(c, ApiCall::CreateSlot { label: "12:00".into(), max_bookings: 3 });
    let row = SlotRow { id: 9, label: "12:00".into(), max_bookings: 3, current_bookings: 0 };
    assert_eq!(
        resume(p, Ok(ApiReply::SlotCreated(row)), false),
        Step::Respond(Ok(ApiResponse::SlotCreated(Slot { id: 9, label: "12:00".into(), max_bookings: 3, current_bookings: 0 })))
    );

    let bad = CreateSlotRequest { label: "12:00".into(), max_bookings: 0 };
    let p = Pending::Admin { op: AdminOp::CreateSlot { body: bad } };
    assert_eq!(
        resume(p, Ok(ApiReply::AdminValid(true)), false),
        Step::Respond(Ok(ApiResponse::Forbidden(ErrorKind::InvalidMaxBookings)))
    );

    let p = admin_step(ApiRequest::ListSlots { admin_uuid: ADMIN }, AdminOp::ListSlots);
    let (p, c) = call(resume(p, Ok(ApiReply::AdminValid(true)), false));
    assert_eq!(c, ApiCall::ListSlots);
    match resume(p, Ok(ApiReply::Slots(slot_rows())), false) {
        Step::Respond(Ok(ApiResponse::Slots(v))) => {
            assert_eq!(v.len(), 2);
            assert_eq!(v[0].label, "10:00");
        }
        other => panic!("unexpected {other:?}"),
    }
}

#[test]
fn create_user_flow() {
    let p = admin_step(ApiRequest::CreateUser { admin_uuid: ADMIN }, AdminOp::CreateUser);
    let (p, c) = call(resume(p, Ok(ApiReply::AdminValid(true)), false));
    assert_eq!(c, ApiCall::CreateUser);
    let rec = UserRecord { token: USER_TEXT.into(), name: "".into(), email: "".into(), slot_label: Some("x".into()) };
    assert_eq!(
        resume(p, Ok(ApiReply::UserCreated(rec)), false),
        Step::Respond(Ok(ApiResponse::UserCreated(User { token: USER, name: "".into(), email: "".into(), slot_label: None })))
    );
}

#[test]
fn out_of_turn_reply_is_an_internal_error() {
    let p = Pending::PageSlots { user: user_row() };
    assert_eq!(resume(p, Ok(ApiReply::Found(true)), false), Step::Respond(Err(())));
}

#[test]
fn refusal_messages() {
    assert_eq!(error_message(ErrorKind::UnknownToken), "unknown token");
    assert_eq!(error_message(ErrorKind::InvalidName), "invalid name");
    assert_eq!(error_message(ErrorKind::InvalidEmail), "invalid email");
    assert_eq!(error_message(ErrorKind::SlotFull), "slot is full");
    assert_eq!(error_message(ErrorKind::AlreadyBooked), "already booked");
    assert_eq!(error_message(ErrorKind::Unauthorized), "unauthorized");
    assert_eq!(error_message(ErrorKind::UserNotFound), "user not found");
    assert_eq!(error_message(ErrorKind::InvalidLabel), "invalid label");
    assert_eq!(error_message(ErrorKind::InvalidMaxBookings), "invalid max_bookings");
    assert_eq!(error_message(ErrorKind::SlotNotFound), "slot not found");
}
