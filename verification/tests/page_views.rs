use ffw_slot_selector::api::{AdminOp, BookSlotRequest, BookingPage, Nullable, Slot, User};
use ffw_slot_selector::views::{
    edit_after_load, view_after_load, PageLoad, admin_page, create_slot_request, admin_user_row, after_booking, card_selector, change_selection, confirmation_question,
    csv_escape, deselect_class, edit_cards, edit_error_text, edit_page, edit_submission,
    find_label, inline_edit, inline_key, inline_saved_text, qr_modal, request_to_send,
    select_class, slot_card, slot_cells, slot_change, slot_options, slots_table, users_csv,
    users_table, view_page, BookingReply, EditError, EditPage, InlineKey, PageUpdate, TableBody,
    ViewPage,
};

const TOKEN: [u8; 16] = [
    0xa1, 0xa2, 0xa3, 0xa4, 0xb1, 0xb2, 0xc1, 0xc2, 0xd1, 0xd2, 0xd3, 0xd4, 0xd5, 0xd6, 0xd7, 0xd8,
];
const LINK: &str = "oaKjpLGywcLR0tPU1dbX2A";

fn slots() -> Vec<Slot> {
    vec![
        Slot { id: 1, label: "10:00".into(), max_bookings: 3, current_bookings: 1 },
        Slot { id: 2, label: "11:00".into(), max_bookings: 2, current_bookings: 2 },
        Slot { id: -7, label: "12:00".into(), max_bookings: 1, current_bookings: 5 },
    ]
}

fn page(current: Option<i64>, name: &str) -> BookingPage {
    BookingPage { user_name: name.into(), user_email: "".into(), slots: slots(), current_slot_id: current }
}

#[test]
fn booked_view() {
    assert_eq!(
        view_page(&TOKEN, &page(Some(2), "Ann")),
        ViewPage::Booked { name: "Ann".into(), email: "—".into(), slot: "11:00".into() }
    );
    assert_eq!(
        view_page(&TOKEN, &page(Some(9), "")),
        ViewPage::Booked { name: "—".into(), email: "—".into(), slot: "Unbekannt".into() }
    );
}

#[test]
fn unbooked_view_links_to_edit_page() {
    assert_eq!(
        view_page(&TOKEN, &page(None, "Ann")),
        ViewPage::NotBooked { edit_href: format!("/edit?uuid={LINK}") }
    );
}

#[test]
fn cards_of_slots() {
    let card = slot_card(&slots()[0], Some(1));
    assert_eq!(card.input_id, "slot-1");
    assert_eq!(card.value, "1");
    assert!(card.checked);
    assert!(!card.disabled);
    assert_eq!(card.card_class, "slot-card slot-card--selected");
    assert_eq!(card.label, "10:00");
    assert_eq!(card.spots_text, "2 von 3 Plätzen verfügbar");

    let full = slot_card(&slots()[1], None);
    assert!(full.disabled);
    assert!(!full.checked);
    assert_eq!(full.card_class, "slot-card slot-card--disabled");
    assert_eq!(full.spots_text, "Ausgebucht");

    let negative = slot_card(&slots()[2], Some(-7));
    assert_eq!(negative.input_id, "slot--7");
    assert_eq!(negative.card_class, "slot-card slot-card--selected slot-card--disabled");
    assert_eq!(edit_cards(&page(None, "")).len(), 3);
}

#[test]
fn edit_page_redirects_when_booked() {
    assert_eq!(edit_page(&TOKEN, &page(Some(1), "")), EditPage::Redirect { href: format!("/{LINK}") });
    match edit_page(&TOKEN, &page(None, "Ann")) {
        EditPage::Form { name, cards, .. } => {
            assert_eq!(name, "Ann");
            assert_eq!(cards.len(), 3);
            assert!(cards.iter().all(|c| !c.checked));
        }
        other => panic!("unexpected {other:?}"),
    }
}

#[test]
fn edit_form_submission() {
    let card = slot_card(&slots()[2], None);
    assert_eq!(
        edit_submission("Ann".into(), "a@b".into(), Some(&card.value)),
        Ok(BookSlotRequest { name: "Ann".into(), email: "a@b".into(), slot_id: -7 })
    );
    assert_eq!(edit_submission("Ann".into(), "a@b".into(), None), Err(EditError::NoSlot));
    assert_eq!(edit_submission("Ann".into(), "a@b".into(), Some("x1")), Err(EditError::NoSlot));
    assert_eq!(edit_submission("A".into(), "a@b".into(), Some("+5")).unwrap().slot_id, 5);
    assert_eq!(
        edit_submission("A".into(), "a@b".into(), Some("9223372036854775808")),
        Err(EditError::NoSlot)
    );
}

#[test]
fn card_classes() {
    assert_eq!(deselect_class("slot-card slot-card--selected"), "slot-card");
    assert_eq!(deselect_class("slot-card"), "slot-card");
    assert_eq!(select_class("slot-card"), "slot-card slot-card--selected");
    assert_eq!(select_class("slot-card slot-card--selected"), "slot-card slot-card--selected");
    assert_eq!(card_selector("slot-3"), "label[for='slot-3']");
}

#[test]
fn label_lookup() {
    assert_eq!(find_label(&slots(), -7), Some("12:00".to_string()));
    assert_eq!(find_label(&slots(), 5), None);
}

fn user(label: Option<&str>, name: &str) -> User {
    User { token: TOKEN, name: name.into(), email: "a@b".into(), slot_label: label.map(|s| s.to_string()) }
}

#[test]
fn admin_rows() {
    let row = admin_user_row(&user(None, "Ann"), "https://x.de");
    assert_eq!(row.token_text, LINK);
    assert_eq!((row.name.as_str(), row.email.as_str()), ("Ann", "a@b"));
    assert_eq!(row.slot_label, "—");
    assert_eq!(row.open_href, format!("/{LINK}"));
    assert_eq!(row.qr_url, format!("https://x.de/{LINK}"));
    let row = admin_user_row(&user(Some("10:00"), "Ann"), "");
    assert_eq!(row.slot_label, "10:00");
}

#[test]
fn inline_edits() {
    let r = inline_edit("name", "New".into(), "Old".into(), "o@x".into());
    assert_eq!((r.name.as_str(), r.email.as_str()), ("New", "o@x"));
    let r = inline_edit("email", "n@x".into(), "Old".into(), "o@x".into());
    assert_eq!((r.name.as_str(), r.email.as_str()), ("Old", "n@x"));
    assert!(r.slot_id.is_none());
}

#[test]
fn slot_menu() {
    let opts = slot_options(&slots(), "11:00");
    assert_eq!(opts.len(), 4);
    assert_eq!((opts[0].value.as_str(), opts[0].label.as_str(), opts[0].selected), ("", "—", false));
    assert_eq!((opts[2].value.as_str(), opts[2].selected), ("2", true));
    assert!(!opts[1].selected);
    assert_eq!(opts[3].value, "-7");

    let (req, shown) = slot_change("2", &slots(), "Ann".into(), "a@b".into());
    assert_eq!(req.slot_id, Some(Nullable::Present(2)));
    assert_eq!(shown, "11:00");
    let (req, shown) = slot_change("", &slots(), "Ann".into(), "a@b".into());
    assert_eq!(req.slot_id, Some(Nullable::Null));
    assert_eq!(shown, "—");
    let (req, shown) = slot_change("42", &slots(), "Ann".into(), "a@b".into());
    assert_eq!(req.slot_id, Some(Nullable::Present(42)));
    assert_eq!(shown, "—");
    assert_eq!(req.name, "Ann");
}

#[test]
fn slot_table_cells() {
    assert_eq!(slot_cells(&slots()[2]), ("12:00".to_string(), "1".to_string(), "5".to_string()));
    let big = Slot { id: 0, label: "".into(), max_bookings: i32::MAX, current_bookings: i32::MIN };
    assert_eq!(slot_cells(&big), ("".to_string(), "2147483647".to_string(), "-2147483648".to_string()));
}

#[test]
fn csv_fields() {
    assert_eq!(csv_escape("plain"), "plain");
    assert_eq!(csv_escape("a,b"), "\"a,b\"");
    assert_eq!(csv_escape("say \"hi\""), "\"say \"\"hi\"\"\"");
    assert_eq!(csv_escape("two\nlines"), "\"two\nlines\"");
    assert_eq!(csv_escape(""), "");
}

#[test]
fn csv_export() {
    let users = vec![user(Some("10:00, early"), "Ann"), user(None, "B\"o")];
    assert_eq!(
        users_csv(&users),
        format!("Token,Name,E-Mail,Zeitfenster\n{LINK},Ann,a@b,\"10:00, early\"\n{LINK},\"B\"\"o\",a@b,\n")
    );
    assert_eq!(users_csv(&vec![]), "Token,Name,E-Mail,Zeitfenster\n");
}

#[test]
fn qr_dialog() {
    let m = qr_modal("https://x.de/abc", LINK).unwrap();
    assert!(m.svg.contains("<svg"));
    assert_eq!(m.filename, format!("qrcode-{LINK}.png"));
    assert!(qr_modal(&"x".repeat(5000), LINK).is_none());
}

/// Reads a CSV field back: strips the quotes and undoubles inner quotes.
fn csv_value(f: &str) -> String {
    if f.len() >= 2 && f.starts_with('"') && f.ends_with('"') {
        f[1..f.len() - 1].replace("\"\"", "\"")
    } else {
        f.to_string()
    }
}

#[test]
fn csv_fields_read_back() {
    for s in ["", "plain", "a,b", "\"", "\"\"", "x\ny", "q\"q,\n\"", "\"quoted\""] {
        assert_eq!(csv_value(&csv_escape(s)), s);
    }
}

#[test]
fn exactly_one_card_selected_after_change() {
    let classes: Vec<String> = vec![
        "slot-card slot-card--selected".into(),
        "slot-card slot-card--full".into(),
        "slot-card slot-card--selected".into(),
    ];
    let after = change_selection(&classes, Some(1));
    assert_eq!(after, vec!["slot-card", "slot-card slot-card--full slot-card--selected", "slot-card"]);
    let marked: Vec<bool> = after.iter().map(|c| c.contains("slot-card--selected")).collect();
    assert_eq!(marked, vec![false, true, false]);
    let none = change_selection(&classes, None);
    assert!(none.iter().all(|c| !c.contains("slot-card--selected")));
    assert_eq!(change_selection(&classes, Some(7)), vec!["slot-card", "slot-card slot-card--full", "slot-card"]);
}

#[test]
fn admin_tables() {
    assert_eq!(
        users_table(&vec![], "https://x.de"),
        TableBody::Empty { colspan: 5, text: "Keine Benutzer vorhanden.".into() }
    );
    assert_eq!(
        slots_table(&vec![]),
        TableBody::Empty { colspan: 4, text: "Keine Slots vorhanden.".into() }
    );
    match users_table(&vec![user(None, "Ann"), user(Some("10:00"), "Bo")], "") {
        TableBody::Rows(rows) => {
            assert_eq!(rows.len(), 2);
            assert_eq!(rows[0].token_text, LINK);
            assert_eq!((rows[1].name.as_str(), rows[1].slot_label.as_str()), ("Bo", "10:00"));
        }
        other => panic!("unexpected {other:?}"),
    }
    match slots_table(&slots()) {
        TableBody::Rows(rows) => {
            assert_eq!(rows.len(), 3);
            assert_eq!(rows[2], ("12:00".to_string(), "1".to_string(), "5".to_string()));
        }
        other => panic!("unexpected {other:?}"),
    }
}

#[test]
fn edit_form_outcomes() {
    assert_eq!(edit_error_text(EditError::NoSlot), "Bitte einen Slot auswählen.");
    assert_eq!(after_booking(&TOKEN, BookingReply::Booked), PageUpdate::GoTo(format!("/{LINK}")));
    assert_eq!(
        after_booking(&TOKEN, BookingReply::Refused { message: "Slot ist voll".into() }),
        PageUpdate::ShowError("Slot ist voll".into())
    );
    assert_eq!(
        after_booking(&TOKEN, BookingReply::Failed),
        PageUpdate::ShowError("Ein Fehler ist aufgetreten. Bitte versuche es erneut.".into())
    );
}

#[test]
fn destructive_admin_requests_ask_first() {
    let reset = AdminOp::ResetBooking { user_uuid: TOKEN };
    let delete = AdminOp::DeleteUser { user_uuid: TOKEN };
    let delete_slot = AdminOp::DeleteSlot { slot_id: 4 };
    assert_eq!(confirmation_question(&reset), Some("Buchung wirklich zurücksetzen?".into()));
    assert_eq!(confirmation_question(&delete), Some("Benutzer wirklich löschen?".into()));
    assert_eq!(confirmation_question(&delete_slot), Some("Slot wirklich löschen?".into()));
    assert_eq!(confirmation_question(&AdminOp::ListUsers), None);
    assert_eq!(request_to_send(reset.clone(), false), None);
    assert_eq!(request_to_send(reset.clone(), true), Some(reset));
    assert_eq!(request_to_send(delete_slot, false), None);
    assert_eq!(request_to_send(AdminOp::CreateUser, false), Some(AdminOp::CreateUser));
}

#[test]
fn inline_editor_keys() {
    assert_eq!(inline_key("Enter"), InlineKey::Save);
    assert_eq!(inline_key("Escape"), InlineKey::Revert);
    assert_eq!(inline_key("a"), InlineKey::Ignore);
    assert_eq!(inline_saved_text("Neu".into(), true), "Neu");
    assert_eq!(inline_saved_text("Neu".into(), false), "Fehler");
}

#[test]
fn create_slot_form() {
    let r = create_slot_request("10:00".into(), "4");
    assert_eq!((r.label.as_str(), r.max_bookings), ("10:00", 4));
    assert_eq!(create_slot_request("x".into(), "").max_bookings, 1);
    assert_eq!(create_slot_request("x".into(), "vier").max_bookings, 1);
    assert_eq!(create_slot_request("x".into(), "-3").max_bookings, -3);
    assert_eq!(create_slot_request("x".into(), "3000000000").max_bookings, 1);
}

#[test]
fn admin_page_loading() {
    const ADMIN: &str = "a1a2a3a4-b1b2-c1c2-d1d2-d3d4d5d6d7d8";
    assert_eq!(admin_page("nope", Some(vec![]), Some(vec![]), ""), Err("Invalid admin link.".into()));
    assert_eq!(admin_page(ADMIN, None, Some(vec![]), ""), Err("Unauthorized or server error.".into()));
    assert_eq!(admin_page(ADMIN, Some(vec![]), None, ""), Err("Unauthorized or server error.".into()));
    let (users, slots) = admin_page(ADMIN, Some(vec![]), Some(slots()), "").unwrap();
    assert_eq!(users, TableBody::Empty { colspan: 5, text: "Keine Benutzer vorhanden.".into() });
    assert!(matches!(slots, TableBody::Rows(ref r) if r.len() == 3));
}

#[test]
fn pages_after_loading() {
    assert_eq!(view_after_load(&TOKEN, None), PageLoad::InvalidCode);
    assert_eq!(edit_after_load(&TOKEN, None), PageLoad::InvalidCode);
    assert_eq!(
        view_after_load(&TOKEN, Some(page(Some(2), "Ann"))),
        PageLoad::Shown(view_page(&TOKEN, &page(Some(2), "Ann")))
    );
    assert_eq!(
        edit_after_load(&TOKEN, Some(page(Some(2), "Ann"))),
        PageLoad::Shown(EditPage::Redirect { href: format!("/{LINK}") })
    );
    assert!(matches!(
        edit_after_load(&TOKEN, Some(page(None, "Ann"))),
        PageLoad::Shown(EditPage::Form { .. })
    ));
}
