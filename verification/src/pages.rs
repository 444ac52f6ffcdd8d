//! What the browser pages compute: which token a page address names, and
//! what the participant's and the admin's pages show.
use vstd::prelude::*;
use crate::text::{byte_len, drop_leading, drop_trailing, until_char};
use crate::token::{hyphenated, link_token};

verus! {

/// Whether a path segment is as long as a token in link form (22 bytes):
/// the server answers such a path with the participant's page.
pub fn is_token_path(token: &str) -> (res: bool)
    ensures
        res == (byte_len(token@) == 22),
{
    token.len() == 22
}

/// `uuid`
pub open spec fn uuid_key() -> Seq<char> {
    seq!['u', 'u', 'i', 'd']
}

/// The value of the first `uuid` pair of a query (pairs parted by `&`, key
/// and value by the pair's first `=`).
pub open spec fn query_uuid(q: Seq<char>) -> Option<Seq<char>>
    decreases q.len(),
{
    let k = until_char(q, '&');
    let pair = q.take(k as int);
    let e = until_char(pair, '=');
    if e < pair.len() && pair.take(e as int) == uuid_key() {
        Some(pair.skip(e as int + 1))
    } else if k < q.len() {
        query_uuid(q.skip(k as int + 1))
    } else {
        None
    }
}

/// The hyphenated text of the token that a link form names.
pub open spec fn link_uuid_text(s: Seq<char>) -> Option<Seq<char>> {
    match link_token(s) {
        Some(u) => Some(hyphenated(u)),
        None => None,
    }
}

/// The token text that a page address carries: a 22-character path segment
/// in link form, or else the `uuid` query value, read as a link form when it
/// is 22 bytes long, kept as it is when it is a 36-character UUID text, and
/// refused otherwise.
pub open spec fn uuid_param_of(path: Seq<char>, search: Seq<char>) -> Option<Seq<char>> {
    let segment = drop_leading(path, '/');
    if byte_len(segment) == 22 && !segment.contains('/') {
        link_uuid_text(segment)
    } else {
        match query_uuid(drop_leading(search, '?')) {
            None => None,
            Some(raw) => if byte_len(raw) == 22 {
                link_uuid_text(raw)
            } else if byte_len(raw) == 36 && crate::token::uuid_from_text(raw) is Some {
                Some(raw)
            } else {
                None
            },
        }
    }
}

/// `/edit`
pub open spec fn edit_path() -> Seq<char> {
    seq!['/', 'e', 'd', 'i', 't']
}

/// `/admin`
pub open spec fn admin_path() -> Seq<char> {
    seq!['/', 'a', 'd', 'm', 'i', 'n']
}

fn query_uuid_of(q: &Vec<char>) -> (res: Option<Vec<char>>)
    ensures
        res matches Some(v) ==> query_uuid(q@) == Some(v@),
        res is None ==> query_uuid(q@) is None,
{
    let key = crate::text::chars_of("uuid");
    proof {
        reveal_strlit("uuid");
        assert(key@ =~= uuid_key());
    }
    let mut start: usize = 0;
    assert(q@.skip(0) =~= q@);
    while start < q.len()
        invariant
            start <= q@.len(),
            key@ == uuid_key(),
            query_uuid(q@) == query_uuid(q@.skip(start as int)),
        decreases q@.len() - start,
    {
        let ghost r = q@.skip(start as int);
        let k = crate::text::find_char_from(q, '&', start);
        let pair = crate::text::sub_chars(q, start, k);
        assert(pair@ =~= r.take(k - start));
        let e = crate::text::find_char_from(&pair, '=', 0);
        assert(pair@.skip(0) =~= pair@);
        if e < pair.len() {
            let name = crate::text::sub_chars(&pair, 0, e);
            assert(name@ =~= pair@.take(e as int));
            if crate::text::chars_equal(&name, &key) {
                let n = pair.len();
                let value = crate::text::sub_chars(&pair, e + 1, n);
                assert(value@ =~= pair@.skip(e as int + 1));
                return Some(value);
            }
        }
        if k >= q.len() {
            return None;
        }
        assert(r.skip(k - start + 1) =~= q@.skip(k + 1));
        start = k + 1;
    }
    assert(q@.skip(start as int) =~= Seq::<char>::empty());
    None
}

/// The byte length of the UTF-8 text of some characters.
fn chars_byte_len(v: &Vec<char>) -> (res: usize)
    ensures
        res == byte_len(v@),
{
    let s = crate::text::string_from(v);
    s.as_str().len()
}

/// The hyphenated text of the token that a link form names, if any.
fn link_text(v: &Vec<char>) -> (res: Option<String>)
    ensures
        res matches Some(t) ==> link_uuid_text(v@) == Some(t@),
        res is None ==> link_uuid_text(v@) is None,
{
    let s = crate::text::string_from(v);
    match crate::token::b64url_to_uuid(s.as_str()) {
        Some(u) => Some(crate::token::format_uuid(&u)),
        None => None,
    }
}

/// The token text that a page address (its path and its query string)
/// carries, if any.
pub fn parse_uuid_param(path: &str, search: &str) -> (res: Option<String>)
    ensures
        res matches Some(t) ==> uuid_param_of(path@, search@) == Some(t@),
        res is None ==> uuid_param_of(path@, search@) is None,
{
    let segment = crate::text::strip_leading(&crate::text::chars_of(path), '/');
    if chars_byte_len(&segment) == 22 && !chars_contain(&segment, '/') {
        return link_text(&segment);
    }
    let query = crate::text::strip_leading(&crate::text::chars_of(search), '?');
    let raw = match query_uuid_of(&query) {
        Some(raw) => raw,
        None => return None,
    };
    let n = chars_byte_len(&raw);
    if n == 22 {
        return link_text(&raw);
    }
    let text = crate::text::string_from(&raw);
    if n == 36 && crate::token::parse_uuid(text.as_str()).is_some() {
        Some(text)
    } else {
        None
    }
}

fn chars_contain(v: &Vec<char>, c: char) -> (res: bool)
    ensures
        res == v@.contains(c),
{
    let mut i: usize = 0;
    while i < v.len()
        invariant
            i <= v@.len(),
            forall|j: int| 0 <= j < i ==> v@[j] != c,
        decreases v@.len() - i,
    {
        if v[i] == c {
            return true;
        }
        i = i + 1;
    }
    false
}

/// Which participant page an address asks for: the token text it carries,
/// and whether it is the edit page (`/edit`, trailing slashes aside).
pub fn parse_path(path: &str, search: &str) -> (res: Option<(String, bool)>)
    ensures
        res matches Some((t, is_edit)) ==> uuid_param_of(path@, search@) == Some(t@) && is_edit == (
        drop_trailing(path@, '/') == edit_path()),
        res is None ==> uuid_param_of(path@, search@) is None,
{
    let uuid = match parse_uuid_param(path, search) {
        Some(u) => u,
        None => return None,
    };
    let edit = crate::text::chars_of("/edit");
    proof {
        reveal_strlit("/edit");
        assert(edit@ =~= edit_path());
    }
    let trimmed = crate::text::strip_trailing(&crate::text::chars_of(path), '/');
    let is_edit = crate::text::chars_equal(&trimmed, &edit);
    Some((uuid, is_edit))
}

/// The admin token text of an admin page address (`/admin`, trailing
/// slashes aside); none for any other page.
pub fn parse_admin_uuid(path: &str, search: &str) -> (res: Option<String>)
    ensures
        drop_trailing(path@, '/') != admin_path() ==> res is None,
        drop_trailing(path@, '/') == admin_path() ==> (res matches Some(t) ==> uuid_param_of(
            path@,
            search@,
        ) == Some(t@)) && (res is None ==> uuid_param_of(path@, search@) is None),
{
    let admin = crate::text::chars_of("/admin");
    proof {
        reveal_strlit("/admin");
        assert(admin@ =~= admin_path());
    }
    let trimmed = crate::text::strip_trailing(&crate::text::chars_of(path), '/');
    if !crate::text::chars_equal(&trimmed, &admin) {
        return None;
    }
    parse_uuid_param(path, search)
}

} // verus!

verus! {

/// `/` and the link form of a token: the participant's page.
pub open spec fn token_href(u: Seq<u8>) -> Seq<char> {
    seq!['/'] + crate::token::b64url(u)
}

/// `?uuid=` and the link form of a token: the query of the edit and admin pages.
pub open spec fn uuid_query(u: Seq<u8>) -> Seq<char> {
    seq!['?', 'u', 'u', 'i', 'd', '='] + crate::token::b64url(u)
}

proof fn lemma_until_absent(s: Seq<char>, c: char)
    requires
        !s.contains(c),
    ensures
        until_char(s, c) == s.len(),
    decreases s.len(),
{
    if s.len() > 0 {
        assert(s[0] != c);
        assert forall|i: int| 0 <= i < s.drop_first().len() implies s.drop_first()[i] != c by {
            assert(s.drop_first()[i] == s[i + 1]);
        }
        lemma_until_absent(s.drop_first(), c);
    }
}

proof fn lemma_until_at(s: Seq<char>, c: char, k: int)
    requires
        0 <= k < s.len(),
        s[k] == c,
        forall|i: int| 0 <= i < k ==> s[i] != c,
    ensures
        until_char(s, c) == k,
    decreases k,
{
    if k > 0 {
        lemma_until_at(s.drop_first(), c, k - 1);
    }
}

/// The links that lead to pages name their token: the participant's link
/// `/<token>` and a `?uuid=<token>` query on the edit or admin page both
/// give back the token's text, and the query marks the edit page as such.
pub proof fn links_name_their_token(u: Seq<u8>, other_path: Seq<char>)
    requires
        u.len() == 16,
        byte_len(drop_leading(other_path, '/')) != 22,
    ensures
        uuid_param_of(token_href(u), Seq::empty()) == Some(hyphenated(u)),
        uuid_param_of(other_path, uuid_query(u)) == Some(hyphenated(u)),
        drop_trailing(edit_path(), '/') == edit_path(),
        drop_trailing(admin_path(), '/') == admin_path(),
        byte_len(drop_leading(edit_path(), '/')) != 22,
        byte_len(drop_leading(admin_path(), '/')) != 22,
{
    let b = crate::token::b64url(u);
    crate::token::token_link_shape(u);
    crate::token::lemma_b64url_symbols(u);
    assert(!b.contains('/'));
    assert(!b.contains('&'));
    assert(token_href(u).drop_first() =~= b);
    assert(drop_leading(b, '/') == b);
    assert(drop_leading(token_href(u), '/') == b);
    let q = uuid_query(u);
    assert(q.drop_first() =~= seq!['u', 'u', 'i', 'd', '='] + b);
    let p = q.drop_first();
    assert(drop_leading(p, '/') == p) by {
        assert(p[0] == 'u');
    }
    assert(drop_leading(q, '?') == p) by {
        assert(p[0] == 'u');
        assert(q[0] == '?');
        assert(drop_leading(p, '?') == p);
    }
    assert(!p.contains('&')) by {
        assert forall|i: int| 0 <= i < p.len() implies p[i] != '&' by {
            if i >= 5 {
                assert(p[i] == b[i - 5]);
            }
        }
    }
    lemma_until_absent(p, '&');
    assert(p.take(p.len() as int) =~= p);
    lemma_until_at(p, '=', 4);
    assert(p.take(4) =~= uuid_key());
    assert(p.skip(5) =~= b);
    assert(query_uuid(p) == Some(b));
    assert(edit_path().drop_first() =~= seq!['e', 'd', 'i', 't']);
    assert(drop_leading(seq!['e', 'd', 'i', 't'], '/') == seq!['e', 'd', 'i', 't']);
    vstd::utf8::is_ascii_chars_encode_utf8(seq!['e', 'd', 'i', 't']);
    assert(admin_path().drop_first() =~= seq!['a', 'd', 'm', 'i', 'n']);
    assert(drop_leading(seq!['a', 'd', 'm', 'i', 'n'], '/') == seq!['a', 'd', 'm', 'i', 'n']);
    vstd::utf8::is_ascii_chars_encode_utf8(seq!['a', 'd', 'm', 'i', 'n']);
}

} // verus!

verus! {

/// The participant's page of a token: `/<token>`.
pub fn token_link(u: &[u8; 16]) -> (res: String)
    ensures
        res@ == token_href(u@),
{
    let mut s = String::new();
    crate::text::push_char(&mut s, '/');
    let b = crate::token::uuid_to_b64url(u);
    s.append(b.as_str());
    s
}

/// The edit page of a token: `/edit?uuid=<token>`.
pub fn edit_link(u: &[u8; 16]) -> (res: String)
    ensures
        res@ == edit_path() + uuid_query(u@),
{
    let mut s = String::new();
    s.append("/edit?uuid=");
    proof {
        reveal_strlit("/edit?uuid=");
    }
    let b = crate::token::uuid_to_b64url(u);
    s.append(b.as_str());
    assert(s@ =~= edit_path() + uuid_query(u@));
    s
}

/// The admin page link that the server announces for an admin token text:
/// `/admin?uuid=<token>`; none where the text is no UUID.
pub fn admin_link(admin_uuid: &str) -> (res: Option<String>)
    ensures
        res is Some == uuid_from_text_is_some(admin_uuid@),
        res matches Some(l) ==> (crate::token::uuid_from_text(admin_uuid@) matches Some(b) && l@
            == admin_path() + uuid_query(b)),
{
    let b = match crate::token::parse_uuid(admin_uuid) {
        Some(b) => b,
        None => return None,
    };
    let mut s = String::new();
    s.append("/admin?uuid=");
    proof {
        reveal_strlit("/admin?uuid=");
    }
    let link = crate::token::uuid_to_b64url(&b);
    s.append(link.as_str());
    assert(s@ =~= admin_path() + uuid_query(b@));
    Some(s)
}

/// Whether a text names a UUID.
pub open spec fn uuid_from_text_is_some(s: Seq<char>) -> bool {
    crate::token::uuid_from_text(s) is Some
}

} // verus!

verus! {

/// Which page the browser shows for an address.
#[derive(Clone, Debug, PartialEq, Eq)]
pub enum PageRoute {
    /// The admin page, with the admin token text from the address.
    Admin { admin_uuid: String },
    /// The participant's page of a token.
    View { uuid: [u8; 16] },
    /// The participant's edit page of a token.
    Edit { uuid: [u8; 16] },
    /// No token that names a UUID: the page says the code is invalid.
    InvalidCode,
}

/// The page for an address: the admin page where `/admin` carries a token
/// text; else the edit page (`/edit`) or the participant's page of the
/// token the address carries, where that token text names a UUID; else the
/// notice that the code is invalid.
pub fn page_route(path: &str, search: &str) -> (res: PageRoute)
    ensures
        ({
            let is_admin = drop_trailing(path@, '/') == admin_path();
            let is_edit = drop_trailing(path@, '/') == edit_path();
            match uuid_param_of(path@, search@) {
                None => res == PageRoute::InvalidCode,
                Some(t) => if is_admin {
                    res matches PageRoute::Admin { admin_uuid } && admin_uuid@ == t
                } else {
                    match crate::token::uuid_from_text(t) {
                        None => res == PageRoute::InvalidCode,
                        Some(b) => if is_edit {
                            res matches PageRoute::Edit { uuid } && uuid@ == b
                        } else {
                            res matches PageRoute::View { uuid } && uuid@ == b
                        },
                    }
                },
            }
        }),
{
    if let Some(admin_uuid) = parse_admin_uuid(path, search) {
        return PageRoute::Admin { admin_uuid };
    }
    let (text, is_edit) = match parse_path(path, search) {
        Some(p) => p,
        None => return PageRoute::InvalidCode,
    };
    match crate::token::parse_uuid(text.as_str()) {
        None => PageRoute::InvalidCode,
        Some(uuid) => if is_edit {
            PageRoute::Edit { uuid }
        } else {
            PageRoute::View { uuid }
        },
    }
}

} // verus!
