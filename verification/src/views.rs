//! What the participant's view and edit pages and the admin page show, as
//! values that the page code puts into the document.
use vstd::prelude::*;
use crate::api::{BookSlotRequest, BookingPage, Slot, UpdateUserRequest, User};
use crate::text::{decimal, int_value, replaced};
use crate::token::b64url;

verus! {

/// `—`, shown for an empty field.
pub open spec fn dash() -> Seq<char> {
    seq!['\u{2014}']
}

/// A field as the view page shows it: a dash when empty.
pub open spec fn or_dash(s: Seq<char>) -> Seq<char> {
    if s.len() == 0 {
        dash()
    } else {
        s
    }
}

/// The label of the first slot with the given id.
pub open spec fn label_of(slots: Seq<Slot>, id: i64) -> Option<Seq<char>>
    decreases slots.len(),
{
    if slots.len() == 0 {
        None
    } else if slots[0].id == id {
        Some(slots[0].label@)
    } else {
        label_of(slots.drop_first(), id)
    }
}

/// `Unbekannt`, shown for a booked slot that the list does not hold.
pub open spec fn unknown_slot() -> Seq<char> {
    seq!['U', 'n', 'b', 'e', 'k', 'a', 'n', 'n', 't']
}

/// What the participant's view page shows.
#[derive(Clone, Debug, PartialEq, Eq)]
pub enum ViewPage {
    /// The participant booked: name, e-mail and slot as shown.
    Booked { name: String, email: String, slot: String },
    /// The participant has not booked yet: the link to the edit page.
    NotBooked { edit_href: String },
}

fn text_or_dash(s: &String) -> (res: String)
    ensures
        res@ == or_dash(s@),
{
    if s.as_str().is_empty() {
        let mut d = String::new();
        crate::text::push_char(&mut d, '\u{2014}');
        d
    } else {
        s.clone()
    }
}

/// The label of the first slot with the given id.
pub fn find_label(slots: &Vec<Slot>, id: i64) -> (res: Option<String>)
    ensures
        res matches Some(l) ==> label_of(slots@, id) == Some(l@),
        res is None ==> label_of(slots@, id) is None,
{
    let mut i: usize = 0;
    assert(slots@.skip(0) =~= slots@);
    while i < slots.len()
        invariant
            i <= slots@.len(),
            label_of(slots@, id) == label_of(slots@.skip(i as int), id),
        decreases slots@.len() - i,
    {
        assert(slots@.skip(i as int)[0] == slots@[i as int]);
        if slots[i].id == id {
            return Some(slots[i].label.clone());
        }
        assert(slots@.skip(i as int).drop_first() =~= slots@.skip(i + 1));
        i = i + 1;
    }
    None
}

/// Whether a view page shows the booking page of a token: the booking when
/// there is one, else the link to the edit page.
pub open spec fn view_shown(p: ViewPage, token: Seq<u8>, data: BookingPage) -> bool {
    match data.current_slot_id {
        Some(id) => p matches ViewPage::Booked { name, email, slot } && name@ == or_dash(
            data.user_name@,
        ) && email@ == or_dash(data.user_email@) && slot@ == match label_of(data.slots@, id) {
            Some(l) => l,
            None => unknown_slot(),
        },
        None => p matches ViewPage::NotBooked { edit_href } && edit_href@
            == crate::pages::edit_path() + crate::pages::uuid_query(token),
    }
}

/// The participant's view page: the booking when there is one, else the
/// link to the edit page.
pub fn view_page(token: &[u8; 16], data: &BookingPage) -> (res: ViewPage)
    ensures
        view_shown(res, token@, *data),
{
    match data.current_slot_id {
        Some(id) => {
            let slot = match find_label(&data.slots, id) {
                Some(l) => l,
                None => {
                    let s = String::from_str("Unbekannt");
                    proof {
                        reveal_strlit("Unbekannt");
                        assert(s@ =~= unknown_slot());
                    }
                    s
                },
            };
            ViewPage::Booked {
                name: text_or_dash(&data.user_name),
                email: text_or_dash(&data.user_email),
                slot,
            }
        },
        None => ViewPage::NotBooked { edit_href: crate::pages::edit_link(token) },
    }
}

} // verus!

verus! {

/// One slot's radio input and card on the edit page.
#[derive(Clone, Debug, PartialEq, Eq)]
pub struct SlotCard {
    /// `slot-<id>`, the input's id and the card's `for`.
    pub input_id: String,
    /// The slot id as decimal text, the input's value.
    pub value: String,
    /// The participant's current slot.
    pub checked: bool,
    /// The slot is full.
    pub disabled: bool,
    pub card_class: String,
    pub label: String,
    pub spots_text: String,
}

/// Whether a slot still has room.
pub open spec fn has_room(s: Slot) -> bool {
    s.current_bookings < s.max_bookings
}

/// The places a slot has left; defined where the 32-bit difference does not
/// overflow (the page computes it for every slot).
pub open spec fn spots_fit(s: Slot) -> bool {
    i32::MIN <= s.max_bookings - s.current_bookings <= i32::MAX
}

/// The card class of a slot.
pub open spec fn card_class_of(selected: bool, available: bool) -> Seq<char> {
    "slot-card"@ + (if selected {
        " slot-card--selected"@
    } else {
        Seq::empty()
    }) + (if available {
        Seq::empty()
    } else {
        " slot-card--disabled"@
    })
}

/// The card text of a slot: the places left of the maximum, or "fully booked".
pub open spec fn spots_text_of(s: Slot) -> Seq<char> {
    if has_room(s) {
        decimal(s.max_bookings - s.current_bookings) + " von "@ + decimal(s.max_bookings as int)
            + " Plätzen verfügbar"@
    } else {
        "Ausgebucht"@
    }
}

/// The card of `slot` on the edit page, `current` being the participant's
/// booked slot.
pub fn slot_card(slot: &Slot, current: Option<i64>) -> (res: SlotCard)
    requires
        spots_fit(*slot),
    ensures
        res.input_id@ == "slot-"@ + decimal(slot.id as int),
        res.value@ == decimal(slot.id as int),
        res.checked == (current == Some(slot.id)),
        res.disabled == !has_room(*slot),
        res.card_class@ == card_class_of(current == Some(slot.id), has_room(*slot)),
        res.label@ == slot.label@,
        res.spots_text@ == spots_text_of(*slot),
{
    let available = slot.current_bookings < slot.max_bookings;
    let spots_left = slot.max_bookings - slot.current_bookings;
    let is_selected = match current {
        Some(id) => id == slot.id,
        None => false,
    };
    let value = crate::text::int_text(slot.id);
    let mut input_id = String::from_str("slot-");
    input_id.append(value.as_str());
    let mut card_class = String::from_str("slot-card");
    if is_selected {
        card_class.append(" slot-card--selected");
    }
    if !available {
        card_class.append(" slot-card--disabled");
    }
    let spots_text = if available {
        let mut t = crate::text::int_text(spots_left as i64);
        t.append(" von ");
        let m = crate::text::int_text(slot.max_bookings as i64);
        t.append(m.as_str());
        t.append(" Plätzen verfügbar");
        t
    } else {
        String::from_str("Ausgebucht")
    };
    proof {
        assert(card_class@ =~= card_class_of(is_selected, available));
    }
    SlotCard {
        input_id,
        value,
        checked: is_selected,
        disabled: !available,
        card_class,
        label: slot.label.clone(),
        spots_text,
    }
}

/// The cards of all slots on the edit page, in the page's order.
pub fn edit_cards(data: &BookingPage) -> (res: Vec<SlotCard>)
    requires
        forall|i: int| 0 <= i < data.slots@.len() ==> spots_fit(#[trigger] data.slots@[i]),
    ensures
        res@.len() == data.slots@.len(),
        forall|i: int|
            0 <= i < res@.len() ==> {
                let s = #[trigger] data.slots@[i];
                let c = res@[i];
                &&& c.value@ == decimal(s.id as int)
                &&& c.checked == (data.current_slot_id == Some(s.id))
                &&& c.disabled == !has_room(s)
                &&& c.card_class@ == card_class_of(data.current_slot_id == Some(s.id), has_room(s))
                &&& c.input_id@ == "slot-"@ + decimal(s.id as int)
                &&& c.label@ == s.label@
                &&& c.spots_text@ == spots_text_of(s)
            },
{
    let mut out: Vec<SlotCard> = Vec::new();
    let mut i: usize = 0;
    while i < data.slots.len()
        invariant
            i <= data.slots@.len(),
            forall|j: int| 0 <= j < data.slots@.len() ==> spots_fit(#[trigger] data.slots@[j]),
            out@.len() == i,
            forall|j: int|
                0 <= j < i ==> {
                    let s = #[trigger] data.slots@[j];
                    let c = out@[j];
                    &&& c.value@ == decimal(s.id as int)
                    &&& c.checked == (data.current_slot_id == Some(s.id))
                    &&& c.disabled == !has_room(s)
                    &&& c.card_class@ == card_class_of(
                        data.current_slot_id == Some(s.id),
                        has_room(s),
                    )
                    &&& c.input_id@ == "slot-"@ + decimal(s.id as int)
                    &&& c.label@ == s.label@
                    &&& c.spots_text@ == spots_text_of(s)
                },
        decreases data.slots@.len() - i,
    {
        let card = slot_card(&data.slots[i], data.current_slot_id);
        out.push(card);
        i = i + 1;
    }
    out
}

/// Why the edit form was not sent.
#[derive(PartialEq, Eq, Structural, Clone, Copy, Debug)]
pub enum EditError {
    /// No slot was picked.
    NoSlot,
}

/// The booking request that the edit form sends: the name and e-mail typed
/// in and the slot whose radio input is checked (its value read as a slot
/// id); none when no slot is picked.
pub fn edit_submission(name: String, email: String, checked_value: Option<&str>) -> (res: Result<
    BookSlotRequest,
    EditError,
>)
    ensures
        match checked_value {
            Some(v) => match int_value(v@) {
                Some(id) => if i64::MIN <= id <= i64::MAX {
                    res matches Ok(r) && r.name == name && r.email == email && r.slot_id == id
                } else {
                    res == Err::<BookSlotRequest, EditError>(EditError::NoSlot)
                },
                None => res == Err::<BookSlotRequest, EditError>(EditError::NoSlot),
            },
            None => res == Err::<BookSlotRequest, EditError>(EditError::NoSlot),
        },
{
    let slot_id = match checked_value {
        Some(v) => crate::text::parse_i64(v),
        None => None,
    };
    match slot_id {
        Some(slot_id) => Ok(BookSlotRequest { name, email, slot_id }),
        None => Err(EditError::NoSlot),
    }
}

/// The decimal text of a number reads back as that number, so the slot a
/// participant picks on the edit page is the slot the card stands for.
pub proof fn card_value_reads_back(id: i64)
    ensures
        int_value(decimal(id as int)) == Some(id as int),
{
    crate::text::lemma_decimal_round_trip(id as int);
}

} // verus!

verus! {

/// ` slot-card--selected`
pub open spec fn selected_mark() -> Seq<char> {
    seq![' ', 's', 'l', 'o', 't', '-', 'c', 'a', 'r', 'd', '-', '-', 's', 'e', 'l', 'e', 'c', 't', 'e', 'd']
}

/// A card's class with the selection mark removed.
pub fn deselect_class(cls: &str) -> (res: String)
    ensures
        res@ == replaced(cls@, selected_mark(), Seq::empty()),
{
    proof {
        reveal_strlit(" slot-card--selected");
        reveal_strlit("");
        assert(" slot-card--selected"@ =~= selected_mark());
        assert(""@ =~= Seq::<char>::empty());
    }
    crate::text::replace_str(cls, " slot-card--selected", "")
}

/// A card's class with the selection mark added, unless it holds
/// `slot-card--selected` already.
pub fn select_class(cls: &str) -> (res: String)
    ensures
        res@ == if crate::text::find_from(cls@, selected_mark().drop_first(), 0) is Some {
            cls@
        } else {
            cls@ + selected_mark()
        },
{
    proof {
        reveal_strlit(" slot-card--selected");
        reveal_strlit("slot-card--selected");
        assert(" slot-card--selected"@ =~= selected_mark());
        assert("slot-card--selected"@ =~= selected_mark().drop_first());
    }
    let cs = crate::text::chars_of(cls);
    let mark = crate::text::chars_of("slot-card--selected");
    if crate::text::find_chars(&cs, &mark, 0).is_some() {
        String::from_str(cls)
    } else {
        let mut s = String::from_str(cls);
        s.append(" slot-card--selected");
        s
    }
}

/// The selector of the card that belongs to an input: `label[for='<id>']`.
pub fn card_selector(input_id: &str) -> (res: String)
    ensures
        res@ == "label[for='"@ + input_id@ + "']"@,
{
    let mut s = String::from_str("label[for='");
    s.append(input_id);
    s.append("']");
    s
}

} // verus!

verus! {

/// A card's class after every card lost its selection mark.
pub open spec fn cleared(c: Seq<char>) -> Seq<char> {
    replaced(c, selected_mark(), Seq::empty())
}

/// Whether a card's class holds `slot-card--selected`.
pub open spec fn is_selected(c: Seq<char>) -> bool {
    crate::text::find_from(c, selected_mark().drop_first(), 0) is Some
}

/// A card's class after it was chosen.
pub open spec fn marked(c: Seq<char>) -> Seq<char> {
    if is_selected(c) {
        c
    } else {
        c + selected_mark()
    }
}

/// The classes of the cards after a change of the chosen slot: every card
/// loses its mark, and the card of the checked input, if any, gets it.
pub open spec fn selection_after(classes: Seq<Seq<char>>, checked: Option<int>) -> Seq<Seq<char>> {
    Seq::new(
        classes.len(),
        |i: int|
            if checked == Some(i) {
                marked(cleared(classes[i]))
            } else {
                cleared(classes[i])
            },
    )
}

/// The card index as a number.
pub open spec fn index_of(checked: Option<usize>) -> Option<int> {
    match checked {
        Some(k) => Some(k as int),
        None => None,
    }
}

/// The cards' classes after a change of the chosen slot; `checked` is the
/// card whose `for` names the checked input, if there is one.
pub fn change_selection(classes: &Vec<String>, checked: Option<usize>) -> (res: Vec<String>)
    ensures
        res@.len() == classes@.len(),
        forall|i: int|
            0 <= i < classes@.len() ==> #[trigger] res@[i]@ == selection_after(
                classes@.map_values(|c: String| c@),
                index_of(checked),
            )[i],
{
    let ghost views = classes@.map_values(|c: String| c@);
    let mut out: Vec<String> = Vec::new();
    let mut i: usize = 0;
    while i < classes.len()
        invariant
            i <= classes@.len(),
            views == classes@.map_values(|c: String| c@),
            out@.len() == i,
            forall|j: int|
                0 <= j < i ==> #[trigger] out@[j]@ == selection_after(views, index_of(checked))[j],
        decreases classes@.len() - i,
    {
        let c = deselect_class(classes[i].as_str());
        let chosen = match checked {
            Some(k) => k == i,
            None => false,
        };
        let c = if chosen {
            select_class(c.as_str())
        } else {
            c
        };
        assert(views[i as int] == classes@[i as int]@);
        out.push(c);
        i = i + 1;
    }
    out
}

proof fn lemma_find_from_none(t: Seq<char>, pat: Seq<char>, k: int, j: int)
    requires
        0 <= k <= j,
        j + pat.len() <= t.len(),
        crate::text::find_from(t, pat, k) is None,
    ensures
        t.subrange(j, j + pat.len()) != pat,
    decreases j - k,
{
    if j > k {
        lemma_find_from_none(t, pat, k + 1, j);
    }
}

proof fn lemma_find_from_some(t: Seq<char>, pat: Seq<char>, k: int, j: int)
    requires
        0 <= k <= j,
        j + pat.len() <= t.len(),
        t.subrange(j, j + pat.len()) == pat,
    ensures
        crate::text::find_from(t, pat, k) is Some,
    decreases j - k,
{
    if j > k && !(pat.len() == 0 || t.subrange(k, k + pat.len()) == pat) {
        lemma_find_from_some(t, pat, k + 1, j);
    }
}

proof fn lemma_replaced_unmatched_prefix(t: Seq<char>, y: Seq<char>, p: Seq<char>, r: Seq<char>)
    requires
        p.len() > 0,
        forall|j: int|
            0 <= j < t.len() && j + p.len() <= t.len() + y.len() ==> #[trigger] (t + y).subrange(
                j,
                j + p.len(),
            ) != p,
    ensures
        replaced(t + y, p, r) == t + replaced(y, p, r),
    decreases t.len(),
{
    let z = t + y;
    if t.len() == 0 {
        assert(z =~= y);
        assert(t + replaced(y, p, r) =~= replaced(y, p, r));
    } else if z.len() < p.len() {
        assert(replaced(y, p, r) == y);
    } else {
        let j0: int = 0;
        assert(z.subrange(j0, j0 + p.len()) != p);
        assert(z.take(p.len() as int) =~= z.subrange(j0, j0 + p.len()));
        assert(z[0] == t[0]);
        let t1 = t.drop_first();
        assert(z.drop_first() =~= t1 + y);
        assert forall|j: int| 0 <= j < t1.len() && j + p.len() <= t1.len() + y.len() implies #[trigger] (
        t1 + y).subrange(j, j + p.len()) != p by {
            assert((t1 + y).subrange(j, j + p.len()) =~= z.subrange(j + 1, j + 1 + p.len()));
        }
        lemma_replaced_unmatched_prefix(t1, y, p, r);
        assert(seq![t[0]] + (t1 + replaced(y, p, r)) =~= t + replaced(y, p, r));
    }
}

/// A class without the mark loses nothing when the marks are removed, and
/// one with the mark added loses just the mark.
proof fn lemma_cleared_base(b: Seq<char>)
    requires
        !is_selected(b),
    ensures
        cleared(b) == b,
        cleared(b + selected_mark()) == b,
        is_selected(b + selected_mark()),
{
    let m = selected_mark();
    let e = Seq::<char>::empty();
    assert forall|j: int| 0 <= j < b.len() && j + m.len() <= b.len() + e.len() implies #[trigger] (b
        + e).subrange(j, j + m.len()) != m by {
        assert((b + e).subrange(j, j + m.len()).drop_first() =~= b.subrange(j + 1, j + m.len()));
        lemma_find_from_none(b, m.drop_first(), 0, j + 1);
    }
    lemma_replaced_unmatched_prefix(b, e, m, e);
    assert(b + e =~= b);
    assert(replaced(e, m, e) == e);
    let z = b + m;
    assert forall|j: int| 0 <= j < b.len() && j + m.len() <= b.len() + m.len() implies #[trigger] z.subrange(
        j,
        j + m.len(),
    ) != m by {
        let w = z.subrange(j, j + m.len());
        if j + m.len() <= b.len() {
            assert(w.drop_first() =~= b.subrange(j + 1, j + m.len()));
            lemma_find_from_none(b, m.drop_first(), 0, j + 1);
        } else {
            let i = b.len() - j;
            assert(w[i] == m[0]);
            assert(1 <= i < m.len());
            assert(m[i] != ' ');
        }
    }
    lemma_replaced_unmatched_prefix(b, m, m, e);
    assert(m.take(m.len() as int) =~= m);
    assert(m.skip(m.len() as int) =~= e);
    assert(replaced(m, m, e) == e + replaced(e, m, e));
    assert(z.subrange((b.len() + 1) as int, (b.len() + m.len()) as int) =~= m.drop_first());
    lemma_find_from_some(z, m.drop_first(), 0, (b.len() + 1) as int);
}

/// After a change of the chosen slot exactly one card is marked selected,
/// that of the checked input, and none where no input is checked. This
/// holds where each card's class holds `slot-card--selected` at most as the
/// trailing ` slot-card--selected` that the page adds.
pub proof fn one_card_selected(bases: Seq<Seq<char>>, marks: Seq<bool>, checked: Option<int>)
    requires
        marks.len() == bases.len(),
        forall|i: int| 0 <= i < bases.len() ==> !is_selected(#[trigger] bases[i]),
    ensures
        ({
            let classes = Seq::new(
                bases.len(),
                |i: int|
                    if marks[i] {
                        bases[i] + selected_mark()
                    } else {
                        bases[i]
                    },
            );
            let after = selection_after(classes, checked);
            &&& after.len() == bases.len()
            &&& forall|i: int|
                0 <= i < bases.len() ==> #[trigger] after[i] == if checked == Some(i) {
                    bases[i] + selected_mark()
                } else {
                    bases[i]
                }
            &&& forall|i: int|
                0 <= i < bases.len() ==> (is_selected(#[trigger] after[i]) <==> checked == Some(i))
        }),
{
    let classes = Seq::new(
        bases.len(),
        |i: int|
            if marks[i] {
                bases[i] + selected_mark()
            } else {
                bases[i]
            },
    );
    let after = selection_after(classes, checked);
    assert forall|i: int| 0 <= i < bases.len() implies #[trigger] after[i] == (if checked == Some(
        i,
    ) {
        bases[i] + selected_mark()
    } else {
        bases[i]
    }) && (is_selected(after[i]) <==> checked == Some(i)) by {
        lemma_cleared_base(bases[i]);
    }
}

} // verus!

verus! {

/// What the admin page shows and links for one user.
#[derive(Clone, Debug, PartialEq, Eq)]
pub struct AdminUserRow {
    /// The token in link form.
    pub token_text: String,
    /// The user's name.
    pub name: String,
    /// The user's e-mail address.
    pub email: String,
    /// The booked slot's label, or a dash.
    pub slot_label: String,
    /// The participant's page.
    pub open_href: String,
    /// The address that the user's QR code holds.
    pub qr_url: String,
}

/// A user's booked slot as the admin page shows it.
pub open spec fn slot_shown(l: Option<String>) -> Seq<char> {
    match l {
        Some(l) => l@,
        None => dash(),
    }
}

/// Whether a row shows a user: the token in link form, the name, the
/// e-mail, the booked slot or a dash, and the links to the user's page.
pub open spec fn shows_user(row: AdminUserRow, u: User, origin: Seq<char>) -> bool {
    &&& row.token_text@ == b64url(u.token@)
    &&& row.name@ == u.name@
    &&& row.email@ == u.email@
    &&& row.slot_label@ == slot_shown(u.slot_label)
    &&& row.open_href@ == crate::pages::token_href(u.token@)
    &&& row.qr_url@ == origin + crate::pages::token_href(u.token@)
}

/// The admin page's row for a user; `origin` is the page's origin.
pub fn admin_user_row(u: &User, origin: &str) -> (res: AdminUserRow)
    ensures
        shows_user(res, *u, origin@),
{
    let token_text = crate::token::uuid_to_b64url(&u.token);
    let slot_label = match &u.slot_label {
        Some(l) => l.clone(),
        None => {
            let mut d = String::new();
            crate::text::push_char(&mut d, '\u{2014}');
            d
        },
    };
    let open_href = crate::pages::token_link(&u.token);
    let mut qr_url = String::from_str(origin);
    qr_url.append(open_href.as_str());
    AdminUserRow {
        token_text,
        name: u.name.clone(),
        email: u.email.clone(),
        slot_label,
        open_href,
        qr_url,
    }
}

/// The update that an inline edit of a user's name (`field` is `name`) or
/// e-mail (any other field) sends; the slot is left out.
pub fn inline_edit(field: &str, new_value: String, name: String, email: String) -> (res:
    UpdateUserRequest)
    ensures
        field@ == "name"@ ==> res.name == new_value && res.email == email,
        field@ != "name"@ ==> res.name == name && res.email == new_value,
        res.slot_id is None,
{
    if crate::text::str_equal(field, "name") {
        UpdateUserRequest { name: new_value, email, slot_id: None }
    } else {
        UpdateUserRequest { name, email: new_value, slot_id: None }
    }
}

/// An entry of the admin's slot menu.
#[derive(Clone, Debug, PartialEq, Eq)]
pub struct SlotOption {
    pub value: String,
    pub label: String,
    pub selected: bool,
}

/// The admin's slot menu for a user: a dash for "no slot", then every slot,
/// the one whose label the cell shows marked as selected.
pub fn slot_options(slots: &Vec<Slot>, current_label: &str) -> (res: Vec<SlotOption>)
    ensures
        res@.len() == slots@.len() + 1,
        res@[0].value@ == Seq::<char>::empty(),
        res@[0].label@ == dash(),
        !res@[0].selected,
        forall|i: int|
            0 <= i < slots@.len() ==> {
                let o = #[trigger] res@[i + 1];
                let s = slots@[i];
                &&& o.value@ == decimal(s.id as int)
                &&& o.label@ == s.label@
                &&& o.selected == (s.label@ == current_label@)
            },
{
    let mut dash_text = String::new();
    crate::text::push_char(&mut dash_text, '\u{2014}');
    let mut out: Vec<SlotOption> = Vec::new();
    out.push(SlotOption { value: String::new(), label: dash_text, selected: false });
    let mut i: usize = 0;
    while i < slots.len()
        invariant
            i <= slots@.len(),
            out@.len() == i + 1,
            out@[0].value@ == Seq::<char>::empty(),
            out@[0].label@ == dash(),
            !out@[0].selected,
            forall|j: int|
                0 <= j < i ==> {
                    let o = #[trigger] out@[j + 1];
                    let s = slots@[j];
                    &&& o.value@ == decimal(s.id as int)
                    &&& o.label@ == s.label@
                    &&& o.selected == (s.label@ == current_label@)
                },
        decreases slots@.len() - i,
    {
        let s = &slots[i];
        let selected = crate::text::str_equal(s.label.as_str(), current_label);
        out.push(
            SlotOption { value: crate::text::int_text(s.id), label: s.label.clone(), selected },
        );
        i = i + 1;
    }
    out
}

/// The update that picking `value` in a user's slot menu sends (no slot for
/// the dash, else the slot id that the value reads as), and the label the
/// cell then shows.
pub fn slot_change(value: &str, slots: &Vec<Slot>, name: String, email: String) -> (res: (
    UpdateUserRequest,
    String,
))
    ensures
        res.0.name == name,
        res.0.email == email,
        ({
            let picked = if value@.len() == 0 {
                None
            } else {
                match int_value(value@) {
                    Some(v) => if i64::MIN <= v <= i64::MAX {
                        Some(v as i64)
                    } else {
                        None
                    },
                    None => None,
                }
            };
            &&& res.0.slot_id == match picked {
                Some(id) => Some(crate::api::Nullable::Present(id)),
                None => Some(crate::api::Nullable::<i64>::Null),
            }
            &&& res.1@ == match picked {
                Some(id) => match label_of(slots@, id) {
                    Some(l) => l,
                    None => dash(),
                },
                None => dash(),
            }
        }),
{
    let slot_id = if value.is_empty() {
        None
    } else {
        crate::text::parse_i64(value)
    };
    let mut dash_text = String::new();
    crate::text::push_char(&mut dash_text, '\u{2014}');
    let display = match slot_id {
        Some(id) => match find_label(slots, id) {
            Some(l) => l,
            None => dash_text,
        },
        None => dash_text,
    };
    let field = match slot_id {
        Some(id) => Some(crate::api::Nullable::Present(id)),
        None => Some(crate::api::Nullable::Null),
    };
    (UpdateUserRequest { name, email, slot_id: field }, display)
}

/// The cells of a slot's row on the admin page: label, maximum, bookings.
pub fn slot_cells(slot: &Slot) -> (res: (String, String, String))
    ensures
        res.0@ == slot.label@,
        res.1@ == decimal(slot.max_bookings as int),
        res.2@ == decimal(slot.current_bookings as int),
{
    (
        slot.label.clone(),
        crate::text::int_text(slot.max_bookings as i64),
        crate::text::int_text(slot.current_bookings as i64),
    )
}

} // verus!

verus! {

/// `"`
pub open spec fn quote() -> Seq<char> {
    seq!['"']
}

/// `""`
pub open spec fn double_quote() -> Seq<char> {
    seq!['"', '"']
}

/// Whether a CSV field must be quoted: it holds a comma, a quote or a newline.
pub open spec fn needs_quotes(s: Seq<char>) -> bool {
    s.contains(',') || s.contains('"') || s.contains('\n')
}

/// A value as a CSV field: quoted, with quotes doubled, where needed.
pub open spec fn csv_field(s: Seq<char>) -> Seq<char> {
    if needs_quotes(s) {
        quote() + replaced(s, quote(), double_quote()) + quote()
    } else {
        s
    }
}

/// The value that a CSV field holds.
pub open spec fn csv_value(f: Seq<char>) -> Seq<char> {
    if f.len() >= 2 && f[0] == '"' && f.last() == '"' {
        replaced(f.subrange(1, f.len() - 1), double_quote(), quote())
    } else {
        f
    }
}

/// Quotes a value for a CSV file where it holds a comma, a quote or a
/// newline, doubling its quotes.
pub fn csv_escape(s: &str) -> (res: String)
    ensures
        res@ == csv_field(s@),
{
    if crate::text::contains_char(s, ',') || crate::text::contains_char(s, '"')
        || crate::text::contains_char(s, '\n') {
        proof {
            reveal_strlit("\"");
            reveal_strlit("\"\"");
            assert("\""@ =~= quote());
            assert("\"\""@ =~= double_quote());
        }
        let mut out = String::new();
        crate::text::push_char(&mut out, '"');
        let inner = crate::text::replace_str(s, "\"", "\"\"");
        out.append(inner.as_str());
        crate::text::push_char(&mut out, '"');
        assert(out@ =~= quote() + replaced(s@, quote(), double_quote()) + quote());
        out
    } else {
        s.to_string()
    }
}

proof fn lemma_undouble(s: Seq<char>)
    ensures
        replaced(replaced(s, quote(), double_quote()), double_quote(), quote()) == s,
    decreases s.len(),
{
    let d = replaced(s, quote(), double_quote());
    if s.len() == 0 {
        assert(d == s);
    } else {
        lemma_undouble(s.drop_first());
        let rest = replaced(s.drop_first(), quote(), double_quote());
        assert(s.skip(1) =~= s.drop_first());
        if s[0] == '"' {
            assert(s.take(1) =~= quote());
            assert(d == double_quote() + rest);
            assert(d.take(2) =~= double_quote());
            assert(d.skip(2) =~= rest);
            assert(s =~= quote() + s.drop_first());
        } else {
            assert(s.take(1) != quote()) by {
                assert(s.take(1)[0] != quote()[0]);
            }
            assert(d == seq![s[0]] + rest);
            if d.len() >= 2 {
                assert(d.take(2) != double_quote()) by {
                    assert(d.take(2)[0] == s[0]);
                }
                assert(d.drop_first() =~= rest);
            } else {
                assert(rest.len() < 2);
                assert(replaced(rest, double_quote(), quote()) == rest);
            }
            assert(s =~= seq![s[0]] + s.drop_first());
        }
    }
}

proof fn lemma_no_quote_kept(s: Seq<char>)
    requires
        !s.contains('"'),
    ensures
        replaced(s, quote(), double_quote()) == s,
    decreases s.len(),
{
    if s.len() > 0 {
        assert(s[0] != '"');
        assert(!s.drop_first().contains('"')) by {
            assert forall|i: int| 0 <= i < s.drop_first().len() implies s.drop_first()[i] != '"' by {
                assert(s.drop_first()[i] == s[i + 1]);
            }
        }
        lemma_no_quote_kept(s.drop_first());
        assert(s.take(1) != quote()) by {
            assert(s.take(1)[0] != quote()[0]);
        }
        assert(s =~= seq![s[0]] + s.drop_first());
    }
}

/// A value written as a CSV field reads back as the same value.
pub proof fn csv_field_reads_back(s: Seq<char>)
    ensures
        csv_value(csv_field(s)) == s,
{
    if needs_quotes(s) {
        let f = csv_field(s);
        assert(f.subrange(1, f.len() - 1) =~= replaced(s, quote(), double_quote()));
        lemma_undouble(s);
    } else {
        if s.len() >= 2 {
            assert(s[0] != '"');
        }
    }
}

/// A user's line of the CSV export: token (link form), name, e-mail, slot.
pub open spec fn csv_line(u: User) -> Seq<char> {
    b64url(u.token@) + seq![','] + csv_field(u.name@) + seq![','] + csv_field(u.email@) + seq![',']
        + csv_field(
        match u.slot_label {
            Some(l) => l@,
            None => Seq::empty(),
        },
    ) + seq!['\n']
}

/// The lines of the CSV export, one per user, in order.
pub open spec fn csv_lines(us: Seq<User>) -> Seq<char>
    decreases us.len(),
{
    if us.len() == 0 {
        Seq::empty()
    } else {
        csv_lines(us.drop_last()) + csv_line(us.last())
    }
}

/// A user's line of the CSV export.
fn csv_user_line(u: &User) -> (res: String)
    ensures
        res@ == csv_line(*u),
{
    let mut line = crate::token::uuid_to_b64url(&u.token);
    crate::text::push_char(&mut line, ',');
    line.append(csv_escape(u.name.as_str()).as_str());
    crate::text::push_char(&mut line, ',');
    line.append(csv_escape(u.email.as_str()).as_str());
    crate::text::push_char(&mut line, ',');
    let slot = match &u.slot_label {
        Some(l) => csv_escape(l.as_str()),
        None => {
            proof {
                reveal_strlit("");
                assert(""@ =~= Seq::<char>::empty());
            }
            csv_escape("")
        },
    };
    line.append(slot.as_str());
    crate::text::push_char(&mut line, '\n');
    assert(line@ =~= csv_line(*u));
    line
}

/// The CSV export of the users that the admin page lists.
pub fn users_csv(users: &Vec<User>) -> (res: String)
    ensures
        res@ == "Token,Name,E-Mail,Zeitfenster\n"@ + csv_lines(users@),
{
    let mut csv = String::from_str("Token,Name,E-Mail,Zeitfenster\n");
    let ghost head = csv@;
    let mut i: usize = 0;
    assert(users@.take(0) =~= Seq::<User>::empty());
    assert(csv@ =~= head + csv_lines(users@.take(0)));
    while i < users.len()
        invariant
            i <= users@.len(),
            head == "Token,Name,E-Mail,Zeitfenster\n"@,
            csv@ == head + csv_lines(users@.take(i as int)),
        decreases users@.len() - i,
    {
        let line = csv_user_line(&users[i]);
        csv.append(line.as_str());
        assert(users@.take(i + 1).drop_last() =~= users@.take(i as int));
        assert(csv@ =~= head + csv_lines(users@.take(i + 1)));
        i = i + 1;
    }
    assert(users@.take(users@.len() as int) =~= users@);
    csv
}

/// What the qrcode crate renders for a text: an SVG image of its QR code at
/// error correction level M with a quiet zone, or nothing where the text
/// does not fit in a QR code.
pub uninterp spec fn qr_svg_text(url: Seq<char>) -> Option<Seq<char>>;

/// `QrCode::with_error_correction_level(url, EcLevel::M)`, rendered as SVG
/// with a quiet zone.
#[verifier::external_body]
pub(crate) fn qr_svg(url: &str) -> (res: Option<String>)
    ensures
        res is Some == qr_svg_text(url@) is Some,
        res matches Some(s) ==> qr_svg_text(url@) == Some(s@),
{
    match qrcode::QrCode::with_error_correction_level(url, qrcode::EcLevel::M) {
        Ok(code) => Some(code.render::<qrcode::render::svg::Color>().quiet_zone(true).build()),
        Err(_) => None,
    }
}

} // verus!

verus! {

/// What the QR code dialog of a user shows: the QR code image of the user's
/// link, and the file name under which it is offered as PNG.
#[derive(Clone, Debug, PartialEq, Eq)]
pub struct QrModal {
    pub svg: String,
    pub filename: String,
}

/// The QR code dialog for a link (`url`) and the user's token in link form;
/// none where the link does not fit in a QR code (the page then fails).
pub fn qr_modal(url: &str, token_text: &str) -> (res: Option<QrModal>)
    ensures
        res is Some == qr_svg_text(url@) is Some,
        res matches Some(m) ==> qr_svg_text(url@) == Some(m.svg@) && m.filename@ == "qrcode-"@
            + token_text@ + ".png"@,
{
    let svg = match qr_svg(url) {
        Some(s) => s,
        None => return None,
    };
    let mut filename = String::from_str("qrcode-");
    filename.append(token_text);
    filename.append(".png");
    Some(QrModal { svg, filename })
}

} // verus!

verus! {

/// What the participant's edit page does: a participant who booked already
/// is sent to the view page; otherwise the form shows the name, e-mail and
/// one card per slot.
#[derive(Clone, Debug, PartialEq, Eq)]
pub enum EditPage {
    Redirect { href: String },
    Form { name: String, email: String, cards: Vec<SlotCard> },
}

/// Whether an edit page is what the participant's edit page shows for a
/// booking page: the way back to the participant's page where the token has
/// a booking, else the form with a card per slot.
pub open spec fn edit_shown(p: EditPage, token: Seq<u8>, data: BookingPage) -> bool {
    &&& data.current_slot_id is Some ==> (p matches EditPage::Redirect { href } && href@
        == crate::pages::token_href(token))
    &&& data.current_slot_id is None ==> (p matches EditPage::Form { name, email, cards } && name
        == data.user_name && email == data.user_email && cards@.len() == data.slots@.len()
        && forall|i: int|
        0 <= i < cards@.len() ==> {
            let s = #[trigger] data.slots@[i];
            let c = cards@[i];
            &&& c.value@ == decimal(s.id as int)
            &&& !c.checked
            &&& c.disabled == !has_room(s)
            &&& c.card_class@ == card_class_of(false, has_room(s))
            &&& c.input_id@ == "slot-"@ + decimal(s.id as int)
            &&& c.label@ == s.label@
            &&& c.spots_text@ == spots_text_of(s)
        })
}

/// The participant's edit page.
pub fn edit_page(token: &[u8; 16], data: &BookingPage) -> (res: EditPage)
    requires
        forall|i: int| 0 <= i < data.slots@.len() ==> spots_fit(#[trigger] data.slots@[i]),
    ensures
        edit_shown(res, token@, *data),
{
    if data.current_slot_id.is_some() {
        return EditPage::Redirect { href: crate::pages::token_link(token) };
    }
    let cards = edit_cards(data);
    EditPage::Form { name: data.user_name.clone(), email: data.user_email.clone(), cards }
}

} // verus!

verus! {

/// A table body of the admin page: a row per entry, or, where there is no
/// entry, one cell across `colspan` columns that says so.
#[derive(Clone, Debug, PartialEq, Eq)]
pub enum TableBody<R> {
    Rows(Vec<R>),
    Empty { colspan: u32, text: String },
}

/// Whether a table body is the one cell across `colspan` columns that
/// shows `text`.
pub open spec fn is_empty_body<R>(b: TableBody<R>, colspan: u32, text: Seq<char>) -> bool {
    b matches TableBody::Empty { colspan: c, text: t } && c == colspan && t@ == text
}

/// Whether a table body has a row per user, each showing its user.
pub open spec fn shows_users(b: TableBody<AdminUserRow>, users: Seq<User>, origin: Seq<char>) -> bool {
    b matches TableBody::Rows(rows) && rows@.len() == users.len() && forall|i: int|
        0 <= i < users.len() ==> shows_user(#[trigger] rows@[i], users[i], origin)
}

/// Whether a row shows a slot: its label, its maximum and its bookings.
pub open spec fn shows_slot(r: (String, String, String), s: Slot) -> bool {
    &&& r.0@ == s.label@
    &&& r.1@ == decimal(s.max_bookings as int)
    &&& r.2@ == decimal(s.current_bookings as int)
}

/// Whether a table body has a row per slot, each showing its slot.
pub open spec fn shows_slots(b: TableBody<(String, String, String)>, slots: Seq<Slot>) -> bool {
    b matches TableBody::Rows(rows) && rows@.len() == slots.len() && forall|i: int|
        0 <= i < slots.len() ==> shows_slot(#[trigger] rows@[i], slots[i])
}

/// The body of the admin's user table.
pub fn users_table(users: &Vec<User>, origin: &str) -> (res: TableBody<AdminUserRow>)
    ensures
        users@.len() == 0 ==> is_empty_body(res, 5, "Keine Benutzer vorhanden."@),
        users@.len() > 0 ==> shows_users(res, users@, origin@),
{
    if users.len() == 0 {
        return TableBody::Empty { colspan: 5, text: String::from_str("Keine Benutzer vorhanden.") };
    }
    let mut rows: Vec<AdminUserRow> = Vec::new();
    let mut i: usize = 0;
    while i < users.len()
        invariant
            i <= users@.len(),
            rows@.len() == i,
            forall|j: int| 0 <= j < i ==> shows_user(#[trigger] rows@[j], users@[j], origin@),
        decreases users@.len() - i,
    {
        rows.push(admin_user_row(&users[i], origin));
        i = i + 1;
    }
    TableBody::Rows(rows)
}

/// The body of the admin's slot table: label, maximum and bookings per slot.
pub fn slots_table(slots: &Vec<Slot>) -> (res: TableBody<(String, String, String)>)
    ensures
        slots@.len() == 0 ==> is_empty_body(res, 4, "Keine Slots vorhanden."@),
        slots@.len() > 0 ==> shows_slots(res, slots@),
{
    if slots.len() == 0 {
        return TableBody::Empty { colspan: 4, text: String::from_str("Keine Slots vorhanden.") };
    }
    let mut rows: Vec<(String, String, String)> = Vec::new();
    let mut i: usize = 0;
    while i < slots.len()
        invariant
            i <= slots@.len(),
            rows@.len() == i,
            forall|j: int| 0 <= j < i ==> shows_slot(#[trigger] rows@[j], slots@[j]),
        decreases slots@.len() - i,
    {
        rows.push(slot_cells(&slots[i]));
        i = i + 1;
    }
    TableBody::Rows(rows)
}

/// The text the edit form shows when it was not sent.
pub fn edit_error_text(e: EditError) -> (res: String)
    ensures
        e == EditError::NoSlot ==> res@ == "Bitte einen Slot auswählen."@,
{
    match e {
        EditError::NoSlot => String::from_str("Bitte einen Slot auswählen."),
    }
}

/// How the server answered the edit form's booking.
#[derive(Clone, Debug, PartialEq, Eq)]
pub enum BookingReply {
    /// The booking was made.
    Booked,
    /// The server refused it with an error body and its message.
    Refused { message: String },
    /// No answer the page can read.
    Failed,
}

/// What the edit page does next.
#[derive(Clone, Debug, PartialEq, Eq)]
pub enum PageUpdate {
    /// Go to this address.
    GoTo(String),
    /// Show this error message on the form.
    ShowError(String),
}

/// After the edit form's booking: go to the participant's page, or show
/// the server's message, or a general one where there is none.
pub fn after_booking(uuid: &[u8; 16], reply: BookingReply) -> (res: PageUpdate)
    ensures
        reply == BookingReply::Booked ==> (res matches PageUpdate::GoTo(href) && href@
            == crate::pages::token_href(uuid@)),
        reply matches BookingReply::Refused { message } ==> res == PageUpdate::ShowError(message),
        reply == BookingReply::Failed ==> (res matches PageUpdate::ShowError(m) && m@
            == "Ein Fehler ist aufgetreten. Bitte versuche es erneut."@),
{
    match reply {
        BookingReply::Booked => PageUpdate::GoTo(crate::pages::token_link(uuid)),
        BookingReply::Refused { message } => PageUpdate::ShowError(message),
        BookingReply::Failed => PageUpdate::ShowError(
            String::from_str("Ein Fehler ist aufgetreten. Bitte versuche es erneut."),
        ),
    }
}

/// The question the admin page asks before a request that destroys data;
/// none for the others.
pub fn confirmation_question(op: &crate::api::AdminOp) -> (res: Option<String>)
    ensures
        op is ResetBooking ==> (res matches Some(q) && q@ == "Buchung wirklich zurücksetzen?"@),
        op is DeleteUser ==> (res matches Some(q) && q@ == "Benutzer wirklich löschen?"@),
        op is DeleteSlot ==> (res matches Some(q) && q@ == "Slot wirklich löschen?"@),
        !(op is ResetBooking || op is DeleteUser || op is DeleteSlot) ==> (res is None),
{
    match op {
        crate::api::AdminOp::ResetBooking { .. } => Some(
            String::from_str("Buchung wirklich zurücksetzen?"),
        ),
        crate::api::AdminOp::DeleteUser { .. } => Some(String::from_str("Benutzer wirklich löschen?")),
        crate::api::AdminOp::DeleteSlot { .. } => Some(String::from_str("Slot wirklich löschen?")),
        _ => None,
    }
}

/// The request the admin page sends: one that asks a question goes only
/// when the admin confirmed it.
pub fn request_to_send(op: crate::api::AdminOp, confirmed: bool) -> (res: Option<crate::api::AdminOp>)
    ensures
        res == (if (op is ResetBooking || op is DeleteUser || op is DeleteSlot) && !confirmed {
            None
        } else {
            Some(op)
        }),
{
    let asks = match &op {
        crate::api::AdminOp::ResetBooking { .. } => true,
        crate::api::AdminOp::DeleteUser { .. } => true,
        crate::api::AdminOp::DeleteSlot { .. } => true,
        _ => false,
    };
    if asks && !confirmed {
        None
    } else {
        Some(op)
    }
}

/// What a key does in the admin's inline editor.
#[derive(PartialEq, Eq, Structural, Clone, Copy, Debug)]
pub enum InlineKey {
    /// Save the typed value (so does leaving the field).
    Save,
    /// Put the old text back.
    Revert,
    /// Nothing.
    Ignore,
}

/// Enter saves, Escape puts the old text back, other keys do nothing.
pub fn inline_key(key: &str) -> (res: InlineKey)
    ensures
        key@ == "Enter"@ ==> res == InlineKey::Save,
        key@ == "Escape"@ ==> res == InlineKey::Revert,
        key@ != "Enter"@ && key@ != "Escape"@ ==> res == InlineKey::Ignore,
{
    proof {
        reveal_strlit("Enter");
        reveal_strlit("Escape");
        assert("Enter"@.len() != "Escape"@.len());
    }
    if crate::text::str_equal(key, "Enter") {
        InlineKey::Save
    } else if crate::text::str_equal(key, "Escape") {
        InlineKey::Revert
    } else {
        InlineKey::Ignore
    }
}

/// What an inline cell shows after its value was sent: the new value where
/// the server took it, `Fehler` otherwise.
pub fn inline_saved_text(new_value: String, saved: bool) -> (res: String)
    ensures
        saved ==> res == new_value,
        !saved ==> res@ == "Fehler"@,
{
    if saved {
        new_value
    } else {
        String::from_str("Fehler")
    }
}

} // verus!

verus! {

/// The new slot that the admin's form sends: the label as typed, and the
/// maximum that the number field reads as, or 1 where it reads as none.
pub fn create_slot_request(label: String, max_text: &str) -> (res: crate::api::CreateSlotRequest)
    ensures
        res.label == label,
        res.max_bookings == match int_value(max_text@) {
            Some(v) => if i32::MIN <= v <= i32::MAX {
                v
            } else {
                1
            },
            None => 1,
        },
{
    let max_bookings: i32 = match crate::text::parse_i64(max_text) {
        Some(v) => if i32::MIN as i64 <= v && v <= i32::MAX as i64 {
            v as i32
        } else {
            1
        },
        None => 1,
    };
    crate::api::CreateSlotRequest { label, max_bookings }
}

/// What the admin page shows once it asked for the users and the slots:
/// both tables, or, where the admin token names no UUID or a list could not
/// be had, a message.
pub fn admin_page(
    admin_uuid: &str,
    users: Option<Vec<User>>,
    slots: Option<Vec<Slot>>,
    origin: &str,
) -> (res: Result<(TableBody<AdminUserRow>, TableBody<(String, String, String)>), String>)
    ensures
        crate::token::uuid_from_text(admin_uuid@) is None ==> (res matches Err(m) && m@
            == "Invalid admin link."@),
        crate::token::uuid_from_text(admin_uuid@) is Some && (users is None || slots is None) ==> (
        res matches Err(m) && m@ == "Unauthorized or server error."@),
        crate::token::uuid_from_text(admin_uuid@) is Some && users is Some && slots is Some ==> (
        res matches Ok((u, s)) && (if users.unwrap()@.len() == 0 {
            is_empty_body(u, 5, "Keine Benutzer vorhanden."@)
        } else {
            shows_users(u, users.unwrap()@, origin@)
        }) && (if slots.unwrap()@.len() == 0 {
            is_empty_body(s, 4, "Keine Slots vorhanden."@)
        } else {
            shows_slots(s, slots.unwrap()@)
        })),
{
    if crate::token::parse_uuid(admin_uuid).is_none() {
        return Err(String::from_str("Invalid admin link."));
    }
    let users = match users {
        Some(u) => u,
        None => return Err(String::from_str("Unauthorized or server error.")),
    };
    let slots = match slots {
        Some(s) => s,
        None => return Err(String::from_str("Unauthorized or server error.")),
    };
    Ok((users_table(&users, origin), slots_table(&slots)))
}

} // verus!

verus! {

/// What a participant's page shows once it asked for the booking page.
#[derive(Clone, Debug, PartialEq, Eq)]
pub enum PageLoad<P> {
    /// The page, from the booking page that came back.
    Shown(P),
    /// No booking page came back: the notice that the code is invalid.
    InvalidCode,
}

/// The view page after loading: the page where the booking page came
/// back, the invalid-code notice where it did not.
pub fn view_after_load(token: &[u8; 16], data: Option<BookingPage>) -> (res: PageLoad<ViewPage>)
    ensures
        data is None ==> res == PageLoad::<ViewPage>::InvalidCode,
        data matches Some(d) ==> (res matches PageLoad::Shown(p) && view_shown(p, token@, d)),
{
    match data {
        Some(d) => PageLoad::Shown(view_page(token, &d)),
        None => PageLoad::InvalidCode,
    }
}

/// The edit page after loading: the way back to the participant's page or
/// the form where the booking page came back, the invalid-code notice where
/// it did not.
pub fn edit_after_load(token: &[u8; 16], data: Option<BookingPage>) -> (res: PageLoad<EditPage>)
    requires
        data matches Some(d) ==> (forall|i: int|
            0 <= i < d.slots@.len() ==> spots_fit(#[trigger] d.slots@[i])),
    ensures
        data is None ==> res == PageLoad::<EditPage>::InvalidCode,
        data matches Some(d) ==> (res matches PageLoad::Shown(p) && edit_shown(p, token@, d)),
{
    match data {
        Some(d) => PageLoad::Shown(edit_page(token, &d)),
        None => PageLoad::InvalidCode,
    }
}

} // verus!

verus! {

proof fn lemma_until_after(a: Seq<char>, b: Seq<char>, c: char)
    requires
        forall|i: int| 0 <= i < a.len() ==> a[i] != c,
    ensures
        crate::text::until_char(a + b, c) == a.len() + crate::text::until_char(b, c),
    decreases a.len(),
{
    if a.len() > 0 {
        assert((a + b)[0] == a[0]);
        assert((a + b).drop_first() =~= a.drop_first() + b);
        lemma_until_after(a.drop_first(), b, c);
    } else {
        assert(a + b =~= b);
    }
}

proof fn lemma_digits_plain(n: nat)
    ensures
        forall|i: int|
            0 <= i < crate::text::digits(n).len() ==> #[trigger] crate::text::digits(n)[i] != ' ',
    decreases n,
{
    let d = crate::text::digits(n);
    if n >= 10 {
        lemma_digits_plain(n / 10);
        let p = crate::text::digits(n / 10);
        assert(d == p.push(crate::text::digit_char((n % 10) as int)));
        assert forall|i: int| 0 <= i < d.len() implies #[trigger] d[i] != ' ' by {
            if i < p.len() {
                assert(d[i] == p[i]);
            } else {
                assert(d[i] == crate::text::digit_char((n % 10) as int));
            }
        }
    } else {
        assert(d[0] == crate::text::digit_char(n as int));
    }
}

proof fn lemma_decimal_plain(v: int)
    ensures
        forall|i: int| 0 <= i < decimal(v).len() ==> #[trigger] decimal(v)[i] != ' ',
{
    if v < 0 {
        let p = crate::text::digits((-v) as nat);
        lemma_digits_plain((-v) as nat);
        assert forall|i: int| 0 <= i < decimal(v).len() implies #[trigger] decimal(v)[i] != ' ' by {
            if i > 0 {
                assert(decimal(v)[i] == p[i - 1]);
            }
        }
    } else {
        lemma_digits_plain(v as nat);
    }
}

/// A card with room says how many places are left: its text begins with a
/// number, up to the first space, that reads as the maximum less the
/// bookings, followed by ` von ` and a number that reads as the maximum. So
/// an empty slot offers all its places and each booking takes one away. A
/// card without room says `Ausgebucht`.
pub proof fn card_counts_places_left(s: Slot)
    ensures
        ({
            let t = spots_text_of(s);
            let k = crate::text::until_char(t, ' ') as int;
            s.current_bookings < s.max_bookings ==> {
                &&& int_value(t.take(k)) == Some(s.max_bookings - s.current_bookings)
                &&& t.subrange(k, k + 5) == " von "@
                &&& int_value(t.skip(k + 5).take(crate::text::until_char(t.skip(k + 5), ' ') as int))
                    == Some(s.max_bookings as int)
            }
        }),
        s.current_bookings >= s.max_bookings ==> spots_text_of(s) == "Ausgebucht"@,
{
    if s.current_bookings < s.max_bookings {
        let left = s.max_bookings - s.current_bookings;
        let a = decimal(left);
        let m = decimal(s.max_bookings as int);
        let von = " von "@;
        let rest = " Plätzen verfügbar"@;
        let t = spots_text_of(s);
        reveal_strlit(" von ");
        reveal_strlit(" Plätzen verfügbar");
        assert(t == a + von + m + rest);
        lemma_decimal_plain(left);
        assert(t =~= a + (von + m + rest));
        lemma_until_after(a, von + m + rest, ' ');
        let k = crate::text::until_char(t, ' ') as int;
        assert(k == a.len());
        assert(t.take(k) =~= a);
        crate::text::lemma_decimal_round_trip(left);
        assert(t.subrange(k, k + 5) =~= von);
        let u = t.skip(k + 5);
        assert(u =~= m + rest);
        lemma_decimal_plain(s.max_bookings as int);
        lemma_until_after(m, rest, ' ');
        assert(u.take(m.len() as int) =~= m);
        crate::text::lemma_decimal_round_trip(s.max_bookings as int);
    }
}

/// A card counts as having room exactly when the slot holds fewer bookings
/// than its maximum; otherwise its input is disabled.
pub proof fn card_room_is_below_maximum(s: Slot)
    ensures
        has_room(s) <==> s.current_bookings < s.max_bookings,
{
}

/// The export holds one line per user, in order, whatever the user's data:
/// each user adds exactly its line, which is the user's token in link form,
/// then the name, the e-mail and the booked slot (empty where none) as CSV
/// fields, parted by commas and ended by a newline.
pub proof fn export_has_a_line_per_user(us: Seq<User>)
    ensures
        csv_lines(us.take(0)) == Seq::<char>::empty(),
        us.take(us.len() as int) == us,
        forall|k: int|
            0 <= k < us.len() ==> #[trigger] csv_lines(us.take(k + 1)) == csv_lines(us.take(k))
                + b64url(us[k].token@) + seq![','] + csv_field(us[k].name@) + seq![',']
                + csv_field(us[k].email@) + seq![','] + csv_field(
                match us[k].slot_label {
                    Some(l) => l@,
                    None => Seq::empty(),
                },
            ) + seq!['\n'],
{
    assert(us.take(0) =~= Seq::<User>::empty());
    assert(us.take(us.len() as int) =~= us);
    assert forall|k: int| 0 <= k < us.len() implies #[trigger] csv_lines(us.take(k + 1)) == csv_lines(
        us.take(k),
    ) + b64url(us[k].token@) + seq![','] + csv_field(us[k].name@) + seq![','] + csv_field(
        us[k].email@,
    ) + seq![','] + csv_field(
        match us[k].slot_label {
            Some(l) => l@,
            None => Seq::empty(),
        },
    ) + seq!['\n'] by {
        assert(us.take(k + 1).drop_last() =~= us.take(k));
        assert(us.take(k + 1).last() == us[k]);
    }
}

} // verus!
