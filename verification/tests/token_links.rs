use ffw_slot_selector::pages::{
    admin_link, edit_link, is_token_path, page_route, parse_admin_uuid, parse_path,
    parse_uuid_param, token_link, PageRoute,
};
use ffw_slot_selector::token::{b64url_to_uuid, uuid_to_b64url};

const BYTES: [u8; 16] = [
    0xa1, 0xa2, 0xa3, 0xa4, 0xb1, 0xb2, 0xc1, 0xc2, 0xd1, 0xd2, 0xd3, 0xd4, 0xd5, 0xd6, 0xd7, 0xd8,
];
const TEXT: &str = "a1a2a3a4-b1b2-c1c2-d1d2-d3d4d5d6d7d8";
const LINK: &str = "oaKjpLGywcLR0tPU1dbX2A";

#[test]
fn link_form_of_token() {
    assert_eq!(uuid_to_b64url(&BYTES), LINK);
    assert_eq!(uuid_to_b64url(&[0u8; 16]), "AAAAAAAAAAAAAAAAAAAAAA");
    assert_eq!(uuid_to_b64url(&[0xffu8; 16]), "_____________________w");
}

#[test]
fn link_form_reads_back() {
    assert_eq!(b64url_to_uuid(LINK), Some(BYTES));
    let other = [7u8; 16];
    assert_eq!(b64url_to_uuid(&uuid_to_b64url(&other)), Some(other));
}

#[test]
fn texts_that_name_no_token() {
    // valid base64, but only three bytes
    assert_eq!(b64url_to_uuid("Zm9v"), None);
    // padding is refused
    assert_eq!(b64url_to_uuid("oaKjpLGywcLR0tPU1dbX2A=="), None);
    // non-zero trailing bits are refused
    assert_eq!(b64url_to_uuid("oaKjpLGywcLR0tPU1dbX2B"), None);
    // standard alphabet is refused
    assert_eq!(b64url_to_uuid("+aKjpLGywcLR0tPU1dbX2A"), None);
}

#[test]
fn token_paths_have_22_bytes() {
    assert!(is_token_path(LINK));
    assert!(!is_token_path("style.css"));
    assert!(!is_token_path("abcdefghijklmnopqrstuvw"));
    // 22 bytes in 21 characters
    assert!(is_token_path("äbcdefghijklmnopqrstu"));
}

#[test]
fn token_in_path() {
    assert_eq!(parse_uuid_param("/oaKjpLGywcLR0tPU1dbX2A", ""), Some(TEXT.to_string()));
    assert_eq!(parse_uuid_param("//oaKjpLGywcLR0tPU1dbX2A", "?uuid=x"), Some(TEXT.to_string()));
    // a 22-byte segment that names no token gives none, the query is not consulted
    assert_eq!(parse_uuid_param("/Zm9vZm9vZm9vZm9vZm9vZm", "?uuid=abc"), None);
}

#[test]
fn token_in_query() {
    assert_eq!(parse_uuid_param("/edit", "?uuid=oaKjpLGywcLR0tPU1dbX2A"), Some(TEXT.to_string()));
    assert_eq!(parse_uuid_param("/", "?a=1&uuid=oaKjpLGywcLR0tPU1dbX2A&b"), Some(TEXT.to_string()));
    // a 36-character UUID text is taken as it is
    assert_eq!(parse_uuid_param("/", &format!("?uuid={TEXT}")), Some(TEXT.to_string()));
    let upper = TEXT.to_uppercase();
    assert_eq!(parse_uuid_param("/", &format!("?uuid={upper}")), Some(upper.clone()));
    assert_eq!(parse_uuid_param("/", &format!("uuid={TEXT}")), Some(TEXT.to_string()));
    // any other value is refused
    assert_eq!(parse_uuid_param("/", "?uuid=xyz"), None);
    assert_eq!(parse_uuid_param("/", "?uuid=abc=def"), None);
    assert_eq!(parse_uuid_param("/", "uuid=x"), None);
    assert_eq!(parse_uuid_param("/", "?uuid=a1a2a3a4b1b2c1c2d1d2d3d4d5d6d7d8"), None);
    assert_eq!(parse_uuid_param("/", "?uuid=g1a2a3a4-b1b2-c1c2-d1d2-d3d4d5d6d7d8"), None);
    // the first uuid pair counts
    assert_eq!(
        parse_uuid_param("/", &format!("?uuid={TEXT}&uuid={LINK}")),
        Some(TEXT.to_string())
    );
    assert_eq!(parse_uuid_param("/", &format!("?uuid=first&uuid={TEXT}")), None);
    assert_eq!(parse_uuid_param("/", "?uid=x&uuidx=y&uuid"), None);
    assert_eq!(parse_uuid_param("/", ""), None);
    // a 22-byte query value that names no token gives none
    assert_eq!(parse_uuid_param("/", "?uuid=Zm9vZm9vZm9vZm9vZm9vZm"), None);
}

#[test]
fn view_or_edit_page() {
    assert_eq!(parse_path(&token_link(&BYTES), ""), Some((TEXT.to_string(), false)));
    let edit = edit_link(&BYTES);
    let (path, query) = edit.split_at(5);
    assert_eq!(parse_path(path, query), Some((TEXT.to_string(), true)));
    assert_eq!(parse_path("/edit//", query), Some((TEXT.to_string(), true)));
    assert_eq!(parse_path("/edit", ""), None);
}

#[test]
fn admin_page_address() {
    let link = admin_link(TEXT).unwrap();
    assert_eq!(link, format!("/admin?uuid={LINK}"));
    let (path, query) = link.split_at(6);
    assert_eq!(parse_admin_uuid(path, query), Some(TEXT.to_string()));
    assert_eq!(parse_admin_uuid("/admin/", query), Some(TEXT.to_string()));
    assert_eq!(parse_admin_uuid("/edit", query), None);
    assert_eq!(parse_admin_uuid("/admin", ""), None);
    assert_eq!(admin_link("no uuid"), None);
}

#[test]
fn page_links() {
    assert_eq!(token_link(&BYTES), format!("/{LINK}"));
    assert_eq!(edit_link(&BYTES), format!("/edit?uuid={LINK}"));
}

#[test]
fn pages_for_addresses() {
    assert_eq!(page_route(&format!("/{LINK}"), ""), PageRoute::View { uuid: BYTES });
    assert_eq!(page_route("/edit", &format!("?uuid={LINK}")), PageRoute::Edit { uuid: BYTES });
    assert_eq!(page_route("/edit", &format!("?uuid={TEXT}")), PageRoute::Edit { uuid: BYTES });
    assert_eq!(
        page_route("/admin", &format!("?uuid={LINK}")),
        PageRoute::Admin { admin_uuid: TEXT.to_string() }
    );
    assert_eq!(page_route("/admin", ""), PageRoute::InvalidCode);
    assert_eq!(page_route("/", "?uuid=xyz"), PageRoute::InvalidCode);
    assert_eq!(page_route("/", ""), PageRoute::InvalidCode);
}
