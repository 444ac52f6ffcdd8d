//! The confirmation mail's texts: the subject and HTML body from the mail
//! template, and the plain-text body, with the participant's name and slot
//! filled in.
use vstd::prelude::*;
use crate::text::{find_from, replaced, trimmed};

verus! {

/// `&amp;`
pub open spec fn amp() -> Seq<char> {
    seq!['&', 'a', 'm', 'p', ';']
}

/// `&lt;`
pub open spec fn lt() -> Seq<char> {
    seq!['&', 'l', 't', ';']
}

/// `&gt;`
pub open spec fn gt() -> Seq<char> {
    seq!['&', 'g', 't', ';']
}

/// `&quot;`
pub open spec fn quot() -> Seq<char> {
    seq!['&', 'q', 'u', 'o', 't', ';']
}

/// A character as HTML text: `&`, `<`, `>` and `"` become entities.
pub open spec fn escape_char(c: char) -> Seq<char> {
    if c == '&' {
        amp()
    } else if c == '<' {
        lt()
    } else if c == '>' {
        gt()
    } else if c == '"' {
        quot()
    } else {
        seq![c]
    }
}

/// A text as HTML text, character by character.
pub open spec fn escaped(s: Seq<char>) -> Seq<char>
    decreases s.len(),
{
    if s.len() == 0 {
        seq![]
    } else {
        escaped(s.drop_last()) + escape_char(s.last())
    }
}

/// Escapes `&`, `<`, `>` and `"` for HTML.
pub fn html_escape(s: &str) -> (res: String)
    ensures
        res@ == escaped(s@),
{
    let cs = crate::text::chars_of(s);
    let mut out = String::new();
    let mut i: usize = 0;
    while i < cs.len()
        invariant
            cs@ == s@,
            i <= cs@.len(),
            out@ == escaped(s@.take(i as int)),
        decreases cs@.len() - i,
    {
        let c = cs[i];
        let ghost before = out@;
        if c == '&' {
            out.append("&amp;");
            proof {
                reveal_strlit("&amp;");
            }
        } else if c == '<' {
            out.append("&lt;");
            proof {
                reveal_strlit("&lt;");
            }
        } else if c == '>' {
            out.append("&gt;");
            proof {
                reveal_strlit("&gt;");
            }
        } else if c == '"' {
            out.append("&quot;");
            proof {
                reveal_strlit("&quot;");
            }
        } else {
            crate::text::push_char(&mut out, c);
        }
        assert(s@.take(i + 1).drop_last() =~= s@.take(i as int));
        assert(out@ =~= before + escape_char(c));
        i = i + 1;
    }
    assert(s@.take(cs@.len() as int) =~= s@);
    out
}

/// Why the mail template cannot be used.
#[derive(PartialEq, Eq, Structural, Clone, Copy, Debug)]
pub enum TemplateError {
    /// No blank line parts the headers from the body.
    MissingBlankLine,
    /// No `Subject:` header.
    MissingSubject,
}

/// `\n\n`
pub open spec fn blank_line() -> Seq<char> {
    seq!['\n', '\n']
}

/// `Subject:`
pub open spec fn subject_prefix() -> Seq<char> {
    seq!['S', 'u', 'b', 'j', 'e', 'c', 't', ':']
}

/// `{{name}}`
pub open spec fn name_marker() -> Seq<char> {
    seq!['{', '{', 'n', 'a', 'm', 'e', '}', '}']
}

/// `{{slot}}`
pub open spec fn slot_marker() -> Seq<char> {
    seq!['{', '{', 's', 'l', 'o', 't', '}', '}']
}

/// Where the first line of `h` ends: the first newline, or the end.
pub open spec fn line_end(h: Seq<char>) -> nat
    decreases h.len(),
{
    if h.len() == 0 || h[0] == '\n' {
        0
    } else {
        1 + line_end(h.drop_first())
    }
}

/// A line that `str::lines` ends at a newline loses a `\r` before it.
pub open spec fn strip_cr(l: Seq<char>) -> Seq<char> {
    if l.len() > 0 && l.last() == '\r' {
        l.drop_last()
    } else {
        l
    }
}

/// What follows `Subject:` in the first line of `h` (as `str::lines` splits
/// it) that starts with it.
pub open spec fn subject_in(h: Seq<char>) -> Option<Seq<char>>
    decreases h.len(),
{
    if h.len() == 0 {
        None
    } else {
        let k = line_end(h);
        let line = if k < h.len() {
            strip_cr(h.take(k as int))
        } else {
            h
        };
        if line.len() >= 8 && line.take(8) == subject_prefix() {
            Some(line.skip(8))
        } else if k < h.len() {
            subject_in(h.skip(k as int + 1))
        } else {
            None
        }
    }
}

/// The template's headers (before the first blank line) and body (after it).
pub open spec fn template_parts(t: Seq<char>) -> Option<(Seq<char>, Seq<char>)> {
    match find_from(t, blank_line(), 0) {
        Some(k) => Some((t.take(k), t.skip(k + 2))),
        None => None,
    }
}

/// `{{name}}` and then `{{slot}}` filled in.
pub open spec fn filled(t: Seq<char>, name: Seq<char>, slot: Seq<char>) -> Seq<char> {
    replaced(replaced(t, name_marker(), name), slot_marker(), slot)
}

/// The confirmation mail's subject, HTML body and plain-text body: the
/// template's `Subject:` header (trimmed) and body, with the HTML-escaped
/// name and the slot filled in, and the plain template with the name and slot
/// as they are.
pub open spec fn confirmation_texts(
    template: Seq<char>,
    plain: Seq<char>,
    name: Seq<char>,
    slot: Seq<char>,
) -> Result<(Seq<char>, Seq<char>, Seq<char>), TemplateError> {
    match template_parts(template) {
        None => Err(TemplateError::MissingBlankLine),
        Some((headers, body)) => match subject_in(headers) {
            None => Err(TemplateError::MissingSubject),
            Some(subject) => Ok(
                (
                    filled(trimmed(subject), escaped(name), slot),
                    filled(body, escaped(name), slot),
                    filled(plain, name, slot),
                ),
            ),
        },
    }
}

} // verus!

verus! {

/// Where the line that starts at `start` ends.
fn line_end_from(cs: &Vec<char>, start: usize) -> (k: usize)
    requires
        start <= cs@.len(),
    ensures
        start <= k <= cs@.len(),
        k - start == line_end(cs@.skip(start as int)),
{
    let mut k = start;
    while k < cs.len() && cs[k] != '\n'
        invariant
            start <= k <= cs@.len(),
            line_end(cs@.skip(start as int)) == (k - start) + line_end(cs@.skip(k as int)),
        decreases cs@.len() - k,
    {
        assert(cs@.skip(k as int).drop_first() =~= cs@.skip(k + 1));
        k = k + 1;
    }
    k
}

/// What follows `Subject:` in the first header line that starts with it.
fn find_subject(h: &Vec<char>) -> (res: Option<Vec<char>>)
    ensures
        res matches Some(v) ==> subject_in(h@) == Some(v@),
        res is None ==> subject_in(h@) is None,
{
    let prefix = crate::text::chars_of("Subject:");
    proof {
        reveal_strlit("Subject:");
        assert(prefix@ =~= subject_prefix());
    }
    let mut start: usize = 0;
    assert(h@.skip(0) =~= h@);
    while start < h.len()
        invariant
            start <= h@.len(),
            prefix@ == subject_prefix(),
            subject_in(h@) == subject_in(h@.skip(start as int)),
        decreases h@.len() - start,
    {
        let ghost r = h@.skip(start as int);
        let k = line_end_from(h, start);
        let mut line = crate::text::sub_chars(h, start, k);
        assert(line@ =~= r.take(k - start));
        if k < h.len() && line.len() > 0 && line[line.len() - 1] == '\r' {
            line.pop();
        }
        let ghost expect = if k < h@.len() {
            strip_cr(r.take(k - start))
        } else {
            r
        };
        assert(line@ =~= expect);
        if line.len() >= 8 && crate::text::occurs_at(&line, &prefix, 0) {
            assert(line@.take(8) =~= line@.subrange(0, 8));
            let rest = crate::text::sub_chars(&line, 8, line.len());
            assert(rest@ =~= line@.skip(8));
            return Some(rest);
        }
        if k >= h.len() {
            return None;
        }
        assert(r.skip(k - start + 1) =~= h@.skip(k + 1));
        start = k + 1;
    }
    None
}

/// The confirmation mail's subject, HTML body and plain-text body, from the
/// mail template (headers, a blank line, the HTML body) and the plain-text
/// template, with the participant's name and slot filled in.
pub fn parse_template(template: &str, template_plain: &str, name: &str, slot: &str) -> (res: Result<
    (String, String, String),
    TemplateError,
>)
    ensures
        match res {
            Ok((subject, html, plain)) => confirmation_texts(template@, template_plain@, name@, slot@)
                == Ok::<(Seq<char>, Seq<char>, Seq<char>), TemplateError>(
                (subject@, html@, plain@),
            ),
            Err(e) => confirmation_texts(template@, template_plain@, name@, slot@) == Err::<
                (Seq<char>, Seq<char>, Seq<char>),
                TemplateError,
            >(e),
        },
{
    let tc = crate::text::chars_of(template);
    let bl = crate::text::chars_of("\n\n");
    proof {
        reveal_strlit("\n\n");
        assert(bl@ =~= blank_line());
    }
    let k = match crate::text::find_chars(&tc, &bl, 0) {
        Some(k) => k,
        None => return Err(TemplateError::MissingBlankLine),
    };
    let n = tc.len();
    proof {
        crate::text::lemma_find_from_found(template@, blank_line(), 0);
        assert(k + 2 <= n);
    }
    let headers = crate::text::sub_chars(&tc, 0, k);
    let body = crate::text::sub_chars(&tc, k + 2, n);
    assert(headers@ =~= template@.take(k as int));
    assert(body@ =~= template@.skip(k + 2));
    let subject = match find_subject(&headers) {
        Some(s) => s,
        None => return Err(TemplateError::MissingSubject),
    };
    let subject = crate::text::string_from(&crate::text::trim_chars(&subject));
    let body = crate::text::string_from(&body);
    proof {
        reveal_strlit("{{name}}");
        reveal_strlit("{{slot}}");
        assert("{{name}}"@ =~= name_marker());
        assert("{{slot}}"@ =~= slot_marker());
    }
    let name_escaped = html_escape(name);
    let subject = crate::text::replace_str(subject.as_str(), "{{name}}", name_escaped.as_str());
    let subject = crate::text::replace_str(subject.as_str(), "{{slot}}", slot);
    let html = crate::text::replace_str(body.as_str(), "{{name}}", name_escaped.as_str());
    let html = crate::text::replace_str(html.as_str(), "{{slot}}", slot);
    let plain = crate::text::replace_str(template_plain, "{{name}}", name);
    let plain = crate::text::replace_str(plain.as_str(), "{{slot}}", slot);
    Ok((subject, html, plain))
}

} // verus!

verus! {

/// Escaped text holds no `<`, `>` or `"`, so a name filled into the mail's
/// HTML cannot open or close a tag or an attribute.
pub proof fn escaped_text_has_no_markup(s: Seq<char>)
    ensures
        forall|i: int|
            0 <= i < escaped(s).len() ==> #[trigger] escaped(s)[i] != '<' && escaped(s)[i] != '>'
                && escaped(s)[i] != '"',
    decreases s.len(),
{
    if s.len() > 0 {
        escaped_text_has_no_markup(s.drop_last());
        let head = escaped(s.drop_last());
        let tail = escape_char(s.last());
        assert forall|i: int| 0 <= i < escaped(s).len() implies #[trigger] escaped(s)[i] != '<'
            && escaped(s)[i] != '>' && escaped(s)[i] != '"' by {
            if i < head.len() {
                assert(escaped(s)[i] == head[i]);
            } else {
                assert(escaped(s)[i] == tail[i - head.len()]);
            }
        }
    }
}

} // verus!

verus! {

/// `s` with each `c` replaced by `r`, character by character from the front.
pub open spec fn subst(s: Seq<char>, c: char, r: Seq<char>) -> Seq<char>
    decreases s.len(),
{
    if s.len() == 0 {
        s
    } else {
        (if s[0] == c {
            r
        } else {
            seq![s[0]]
        }) + subst(s.drop_first(), c, r)
    }
}

proof fn lemma_replace_one_char(s: Seq<char>, c: char, r: Seq<char>)
    ensures
        replaced(s, seq![c], r) == subst(s, c, r),
    decreases s.len(),
{
    if s.len() > 0 {
        lemma_replace_one_char(s.drop_first(), c, r);
        assert(s.skip(1) =~= s.drop_first());
        if s[0] == c {
            assert(s.take(1) =~= seq![c]);
        } else {
            assert(s.take(1) != seq![c]) by {
                assert(s.take(1)[0] != seq![c][0]);
            }
        }
    }
}

proof fn lemma_subst_concat(a: Seq<char>, b: Seq<char>, c: char, r: Seq<char>)
    ensures
        subst(a + b, c, r) == subst(a, c, r) + subst(b, c, r),
    decreases a.len(),
{
    if a.len() == 0 {
        assert(a + b =~= b);
    } else {
        lemma_subst_concat(a.drop_first(), b, c, r);
        assert((a + b).drop_first() =~= a.drop_first() + b);
        assert((a + b)[0] == a[0]);
    }
}

proof fn lemma_subst_absent(s: Seq<char>, c: char, r: Seq<char>)
    requires
        !s.contains(c),
    ensures
        subst(s, c, r) == s,
    decreases s.len(),
{
    if s.len() > 0 {
        assert(s[0] != c);
        assert(!s.drop_first().contains(c)) by {
            assert forall|i: int| 0 <= i < s.drop_first().len() implies s.drop_first()[i] != c by {
                assert(s.drop_first()[i] == s[i + 1]);
            }
        }
        lemma_subst_absent(s.drop_first(), c, r);
        assert(s =~= seq![s[0]] + s.drop_first());
    }
}

/// The four replacements in turn: `&`, then `<`, `>` and `"`.
pub open spec fn chained_escape(s: Seq<char>) -> Seq<char> {
    replaced(
        replaced(replaced(replaced(s, seq!['&'], amp()), seq!['<'], lt()), seq!['>'], gt()),
        seq!['"'],
        quot(),
    )
}

/// The four replacements in turn, character by character.
pub open spec fn chained_subst(s: Seq<char>) -> Seq<char> {
    subst(subst(subst(subst(s, '&', amp()), '<', lt()), '>', gt()), '"', quot())
}

proof fn lemma_chained_subst_concat(a: Seq<char>, b: Seq<char>)
    ensures
        chained_subst(a + b) == chained_subst(a) + chained_subst(b),
{
    lemma_subst_concat(a, b, '&', amp());
    let (a1, b1) = (subst(a, '&', amp()), subst(b, '&', amp()));
    lemma_subst_concat(a1, b1, '<', lt());
    let (a2, b2) = (subst(a1, '<', lt()), subst(b1, '<', lt()));
    lemma_subst_concat(a2, b2, '>', gt());
    let (a3, b3) = (subst(a2, '>', gt()), subst(b2, '>', gt()));
    lemma_subst_concat(a3, b3, '"', quot());
}

proof fn lemma_subst_single(x: char, c: char, r: Seq<char>)
    ensures
        subst(seq![x], c, r) == if x == c {
            r
        } else {
            seq![x]
        },
{
    assert(seq![x].drop_first() =~= Seq::<char>::empty());
    assert(subst(Seq::<char>::empty(), c, r) == Seq::<char>::empty());
    if x == c {
        assert(r + Seq::<char>::empty() =~= r);
    } else {
        assert(seq![x] + Seq::<char>::empty() =~= seq![x]);
    }
}

proof fn lemma_chained_subst_char(x: char)
    ensures
        chained_subst(seq![x]) == escape_char(x),
{
    lemma_subst_single(x, '&', amp());
    let s1 = subst(seq![x], '&', amp());
    if x == '&' {
        lemma_subst_absent(amp(), '<', lt());
        lemma_subst_absent(amp(), '>', gt());
        lemma_subst_absent(amp(), '"', quot());
    } else {
        lemma_subst_single(x, '<', lt());
        if x == '<' {
            lemma_subst_absent(lt(), '>', gt());
            lemma_subst_absent(lt(), '"', quot());
        } else {
            lemma_subst_single(x, '>', gt());
            if x == '>' {
                lemma_subst_absent(gt(), '"', quot());
            } else {
                lemma_subst_single(x, '"', quot());
            }
        }
    }
}

/// Escaping character by character is the same as replacing `&`, then `<`,
/// `>` and `"` in the whole text, one after the other (the `&` first, so
/// that the entities the others bring in are not escaped again).
pub proof fn escaping_is_chained_replacement(s: Seq<char>)
    ensures
        escaped(s) == chained_escape(s),
    decreases s.len(),
{
    let s1 = replaced(s, seq!['&'], amp());
    let s2 = replaced(s1, seq!['<'], lt());
    let s3 = replaced(s2, seq!['>'], gt());
    lemma_replace_one_char(s, '&', amp());
    lemma_replace_one_char(s1, '<', lt());
    lemma_replace_one_char(s2, '>', gt());
    lemma_replace_one_char(s3, '"', quot());
    assert(chained_escape(s) == chained_subst(s));
    if s.len() == 0 {
        assert(chained_subst(s) == s);
    } else {
        escaping_is_chained_replacement(s.drop_last());
        let p = s.drop_last();
        let q1 = replaced(p, seq!['&'], amp());
        let q2 = replaced(q1, seq!['<'], lt());
        let q3 = replaced(q2, seq!['>'], gt());
        lemma_replace_one_char(p, '&', amp());
        lemma_replace_one_char(q1, '<', lt());
        lemma_replace_one_char(q2, '>', gt());
        lemma_replace_one_char(q3, '"', quot());
        assert(s =~= p + seq![s.last()]);
        lemma_chained_subst_concat(p, seq![s.last()]);
        lemma_chained_subst_char(s.last());
    }
}

} // verus!

verus! {

/// Whether lettre reads a text as a mailbox (`user@domain`, or a display
/// name with the address in angle brackets).
pub uninterp spec fn mailbox_accepts(s: Seq<char>) -> bool;

/// `str::parse::<lettre::message::Mailbox>`: whether the text parses as a
/// mailbox; which texts lettre accepts is left to its parser and named.
#[verifier::external_body]
pub(crate) fn mailbox_ok(to: &str) -> (res: bool)
    ensures
        res == mailbox_accepts(to@),
{
    to.parse::<lettre::message::Mailbox>().is_ok()
}

/// Why no confirmation mail can be made.
#[derive(PartialEq, Eq, Structural, Clone, Copy, Debug)]
pub enum MailProblem {
    /// The mail template is unusable.
    Template(TemplateError),
    /// The address is no mailbox.
    Address,
}

/// Checks the sender address of the mail settings.
pub fn sender_check(from: &str) -> (res: Result<(), MailProblem>)
    ensures
        res is Ok == mailbox_accepts(from@),
        res is Err ==> res == Err::<(), MailProblem>(MailProblem::Address),
{
    if mailbox_ok(from) {
        Ok(())
    } else {
        Err(MailProblem::Address)
    }
}

/// The confirmation mail to `to`: its subject, HTML body and plain-text body;
/// an unusable template is reported first, then an address that is no
/// mailbox.
pub fn confirmation_plan(template: &str, template_plain: &str, to: &str, name: &str, slot: &str) -> (res:
    Result<(String, String, String), MailProblem>)
    ensures
        match confirmation_texts(template@, template_plain@, name@, slot@) {
            Err(e) => res == Err::<(String, String, String), MailProblem>(MailProblem::Template(e)),
            Ok((s, h, p)) => if mailbox_accepts(to@) {
                res matches Ok((a, b, c)) && a@ == s && b@ == h && c@ == p
            } else {
                res == Err::<(String, String, String), MailProblem>(MailProblem::Address)
            },
        },
{
    let texts = match parse_template(template, template_plain, name, slot) {
        Ok(t) => t,
        Err(e) => return Err(MailProblem::Template(e)),
    };
    if !mailbox_ok(to) {
        return Err(MailProblem::Address);
    }
    Ok(texts)
}

} // verus!

verus! {

/// HTML text with the entities turned back into characters: `&quot;`,
/// `&gt;`, `&lt;` and then `&amp;`, each replaced in the whole text in turn.
pub open spec fn unescaped(t: Seq<char>) -> Seq<char> {
    replaced(
        replaced(
            replaced(replaced(t, quot(), seq!['"']), gt(), seq!['>']),
            lt(),
            seq!['<'],
        ),
        amp(),
        seq!['&'],
    )
}

/// The entity of the `n`-th escaped character (`&`, `<`, `>`, `"`).
spec fn stage_entity(n: nat) -> Seq<char> {
    if n == 1 {
        amp()
    } else if n == 2 {
        lt()
    } else if n == 3 {
        gt()
    } else {
        quot()
    }
}

/// The `n`-th escaped character.
spec fn stage_char(n: nat) -> char {
    if n == 1 {
        '&'
    } else if n == 2 {
        '<'
    } else if n == 3 {
        '>'
    } else {
        '"'
    }
}

/// A character with only the first `n` of `&`, `<`, `>` and `"` escaped.
spec fn partial_char(c: char, n: nat) -> Seq<char> {
    if c == '&' && n >= 1 {
        amp()
    } else if c == '<' && n >= 2 {
        lt()
    } else if c == '>' && n >= 3 {
        gt()
    } else if c == '"' && n >= 4 {
        quot()
    } else {
        seq![c]
    }
}

/// A text with only the first `n` of `&`, `<`, `>` and `"` escaped.
spec fn partial(s: Seq<char>, n: nat) -> Seq<char>
    decreases s.len(),
{
    if s.len() == 0 {
        seq![]
    } else {
        partial_char(s[0], n) + partial(s.drop_first(), n)
    }
}

proof fn lemma_partial_none(s: Seq<char>)
    ensures
        partial(s, 0) == s,
    decreases s.len(),
{
    if s.len() > 0 {
        lemma_partial_none(s.drop_first());
        assert(s =~= seq![s[0]] + s.drop_first());
    }
}

proof fn lemma_partial_concat(a: Seq<char>, b: Seq<char>, n: nat)
    ensures
        partial(a + b, n) == partial(a, n) + partial(b, n),
    decreases a.len(),
{
    if a.len() == 0 {
        assert(a + b =~= b);
        assert(partial(a, n) + partial(b, n) =~= partial(b, n));
    } else {
        lemma_partial_concat(a.drop_first(), b, n);
        assert((a + b).drop_first() =~= a.drop_first() + b);
        assert((a + b)[0] == a[0]);
        assert(partial(a + b, n) =~= partial(a, n) + partial(b, n));
    }
}

proof fn lemma_partial_full(s: Seq<char>)
    ensures
        partial(s, 4) == escaped(s),
    decreases s.len(),
{
    if s.len() > 0 {
        let p = s.drop_last();
        let x = s.last();
        lemma_partial_full(p);
        assert(s =~= p + seq![x]);
        lemma_partial_concat(p, seq![x], 4);
        let one = seq![x];
        assert(one.drop_first() =~= Seq::<char>::empty());
        assert(partial(one.drop_first(), 4) == Seq::<char>::empty());
        assert(partial(one, 4) == partial_char(x, 4) + partial(one.drop_first(), 4));
        assert(partial_char(x, 4) == escape_char(x));
        assert(partial(one, 4) =~= escape_char(x));
    }
}

proof fn lemma_replaced_match(p: Seq<char>, y: Seq<char>, r: Seq<char>)
    requires
        p.len() > 0,
    ensures
        replaced(p + y, p, r) == r + replaced(y, p, r),
{
    assert((p + y).take(p.len() as int) =~= p);
    assert((p + y).skip(p.len() as int) =~= y);
}

proof fn lemma_replaced_plain(t: Seq<char>, y: Seq<char>, p: Seq<char>, r: Seq<char>)
    requires
        p.len() > 0,
        !t.contains(p[0]),
    ensures
        replaced(t + y, p, r) == t + replaced(y, p, r),
    decreases t.len(),
{
    let z = t + y;
    if t.len() == 0 {
        assert(z =~= y);
        assert(t + replaced(y, p, r) =~= replaced(y, p, r));
    } else if z.len() < p.len() {
        assert(replaced(y, p, r) == y);
    } else {
        assert(z[0] == t[0]);
        assert(z.take(p.len() as int)[0] != p[0]);
        assert(z.take(p.len() as int) != p);
        assert(z.drop_first() =~= t.drop_first() + y);
        assert(!t.drop_first().contains(p[0])) by {
            assert forall|i: int| 0 <= i < t.drop_first().len() implies t.drop_first()[i]
                != p[0] by {
                assert(t.drop_first()[i] == t[i + 1]);
            }
        }
        lemma_replaced_plain(t.drop_first(), y, p, r);
        assert(seq![t[0]] + (t.drop_first() + replaced(y, p, r)) =~= t + replaced(y, p, r));
    }
}

proof fn lemma_replaced_other_entity(e: Seq<char>, y: Seq<char>, p: Seq<char>, r: Seq<char>)
    requires
        p.len() >= 2,
        e.len() >= 2,
        e[1] != p[1],
        !e.drop_first().contains(p[0]),
    ensures
        replaced(e + y, p, r) == e + replaced(y, p, r),
{
    let z = e + y;
    if z.len() < p.len() {
        assert(replaced(y, p, r) == y);
    } else {
        assert(z.take(p.len() as int)[1] == e[1]);
        assert(z.take(p.len() as int) != p);
        assert(z.drop_first() =~= e.drop_first() + y);
        lemma_replaced_plain(e.drop_first(), y, p, r);
        assert(seq![e[0]] + (e.drop_first() + replaced(y, p, r)) =~= e + replaced(y, p, r));
    }
}

proof fn lemma_entity_tail(e: Seq<char>)
    requires
        e == amp() || e == lt() || e == gt() || e == quot(),
    ensures
        e.len() >= 4,
        e[0] == '&',
        !e.drop_first().contains('&'),
{
    assert forall|i: int| 0 <= i < e.drop_first().len() implies e.drop_first()[i] != '&' by {
        assert(e.drop_first()[i] == e[i + 1]);
    }
}

proof fn lemma_unescape_stage(s: Seq<char>, n: nat)
    requires
        1 <= n <= 4,
    ensures
        replaced(partial(s, n), stage_entity(n), seq![stage_char(n)]) == partial(
            s,
            (n - 1) as nat,
        ),
    decreases s.len(),
{
    let p = stage_entity(n);
    let r = seq![stage_char(n)];
    lemma_entity_tail(p);
    if s.len() == 0 {
        assert(partial(s, n) == Seq::<char>::empty());
    } else {
        let c = s[0];
        let rest = s.drop_first();
        lemma_unescape_stage(rest, n);
        let piece = partial_char(c, n);
        if c == stage_char(n) {
            assert(piece == p);
            assert(partial_char(c, (n - 1) as nat) == r);
            lemma_replaced_match(p, partial(rest, n), r);
        } else {
            assert(piece == partial_char(c, (n - 1) as nat));
            if piece == seq![c] {
                assert(c != '&');
                assert(!piece.contains('&')) by {
                    assert forall|i: int| 0 <= i < piece.len() implies piece[i] != '&' by {
                        assert(piece[i] == c);
                    }
                }
                lemma_replaced_plain(piece, partial(rest, n), p, r);
            } else {
                lemma_entity_tail(piece);
                lemma_replaced_other_entity(piece, partial(rest, n), p, r);
            }
        }
    }
}

/// Turning the entities back into characters gives the escaped text back,
/// whatever it held: escaping loses nothing.
pub proof fn unescaping_gives_text_back(s: Seq<char>)
    ensures
        unescaped(escaped(s)) == s,
{
    lemma_partial_full(s);
    lemma_unescape_stage(s, 4);
    lemma_unescape_stage(s, 3);
    lemma_unescape_stage(s, 2);
    lemma_unescape_stage(s, 1);
    lemma_partial_none(s);
}

/// Two texts with the same escaped form are the same text.
pub proof fn escaping_is_injective(a: Seq<char>, b: Seq<char>)
    requires
        escaped(a) == escaped(b),
    ensures
        a == b,
{
    unescaping_gives_text_back(a);
    unescaping_gives_text_back(b);
}

} // verus!

verus! {

/// How often `c` occurs in `s`.
pub open spec fn count_char(s: Seq<char>, c: char) -> nat
    decreases s.len(),
{
    if s.len() == 0 {
        0
    } else {
        (if s[0] == c {
            1nat
        } else {
            0nat
        }) + count_char(s.drop_first(), c)
    }
}

proof fn lemma_count_concat(a: Seq<char>, b: Seq<char>, c: char)
    ensures
        count_char(a + b, c) == count_char(a, c) + count_char(b, c),
    decreases a.len(),
{
    if a.len() == 0 {
        assert(a + b =~= b);
    } else {
        lemma_count_concat(a.drop_first(), b, c);
        assert((a + b).drop_first() =~= a.drop_first() + b);
        assert((a + b)[0] == a[0]);
    }
}

proof fn lemma_count_absent(s: Seq<char>, c: char)
    requires
        !s.contains(c),
    ensures
        count_char(s, c) == 0,
    decreases s.len(),
{
    if s.len() > 0 {
        assert(s[0] != c);
        assert(!s.drop_first().contains(c)) by {
            assert forall|i: int| 0 <= i < s.drop_first().len() implies s.drop_first()[i] != c by {
                assert(s.drop_first()[i] == s[i + 1]);
            }
        }
        lemma_count_absent(s.drop_first(), c);
    }
}

proof fn lemma_count_replaced(t: Seq<char>, p: Seq<char>, r: Seq<char>, c: char)
    requires
        !p.contains(c),
        !r.contains(c),
    ensures
        count_char(replaced(t, p, r), c) == count_char(t, c),
    decreases t.len(),
{
    if p.len() == 0 || t.len() < p.len() {
    } else if t.take(p.len() as int) == p {
        let rest = t.skip(p.len() as int);
        lemma_count_replaced(rest, p, r, c);
        lemma_count_concat(r, replaced(rest, p, r), c);
        lemma_count_absent(r, c);
        lemma_count_absent(p, c);
        assert(t =~= t.take(p.len() as int) + rest);
        lemma_count_concat(t.take(p.len() as int), rest, c);
    } else {
        let rest = t.drop_first();
        lemma_count_replaced(rest, p, r, c);
        lemma_count_concat(seq![t[0]], replaced(rest, p, r), c);
        assert(seq![t[0]].drop_first() =~= Seq::<char>::empty());
        assert(count_char(seq![t[0]], c) == (if t[0] == c {
            1nat
        } else {
            0nat
        }) + count_char(Seq::<char>::empty(), c));
    }
}

proof fn lemma_markers_plain(c: char)
    requires
        c == '<' || c == '>',
    ensures
        !name_marker().contains(c),
        !slot_marker().contains(c),
{
    assert forall|i: int| 0 <= i < name_marker().len() implies name_marker()[i] != c by {}
    assert forall|i: int| 0 <= i < slot_marker().len() implies slot_marker()[i] != c by {}
}

/// What a participant types as name cannot add markup to the mail's HTML:
/// where the slot holds no `<` (or no `>`), the HTML body holds as many of
/// them as the template's body, for every name.
pub proof fn filling_in_keeps_markup(
    template: Seq<char>,
    plain: Seq<char>,
    name: Seq<char>,
    slot: Seq<char>,
    c: char,
)
    requires
        c == '<' || c == '>',
        !slot.contains(c),
        confirmation_texts(template, plain, name, slot) is Ok,
    ensures
        confirmation_texts(template, plain, name, slot) matches Ok((_, html, _))
            && template_parts(template) matches Some((_, body)) && count_char(html, c)
            == count_char(body, c),
{
    let (headers, body) = template_parts(template)->Some_0;
    let e = escaped(name);
    escaped_text_has_no_markup(name);
    assert(!e.contains(c));
    lemma_markers_plain(c);
    lemma_count_replaced(body, name_marker(), e, c);
    lemma_count_replaced(replaced(body, name_marker(), e), slot_marker(), slot, c);
}

} // verus!
