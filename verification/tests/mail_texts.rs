use ffw_slot_selector::email::{
    confirmation_plan, html_escape, parse_template, sender_check, MailProblem, TemplateError,
};

const TEMPLATE: &str = "From: x\r\nSubject:  Buchung für {{name}} \r\nX: y\n\n<p>Hallo {{name}}, dein Termin: {{slot}} ({{slot}})</p>";
const PLAIN: &str = "Hallo {{name}}, dein Termin: {{slot}}";

#[test]
fn html_escape_replaces_markup() {
    assert_eq!(html_escape("a & b < c > d \"e\" 'f'"), "a &amp; b &lt; c &gt; d &quot;e&quot; 'f'");
    assert_eq!(html_escape(""), "");
    assert_eq!(html_escape("&amp;"), "&amp;amp;");
    assert_eq!(html_escape("äöü"), "äöü");
}

#[test]
fn template_filled_in() {
    let (subject, html, plain) = parse_template(TEMPLATE, PLAIN, "Ann <Bo>", "10:00 & 11:00").unwrap();
    assert_eq!(subject, "Buchung für Ann &lt;Bo&gt;");
    assert_eq!(html, "<p>Hallo Ann &lt;Bo&gt;, dein Termin: 10:00 & 11:00 (10:00 & 11:00)</p>");
    assert_eq!(plain, "Hallo Ann <Bo>, dein Termin: 10:00 & 11:00");
}

#[test]
fn first_subject_header_counts() {
    let t = "Subject: one\nSubject: two\n\nbody";
    let (subject, html, _) = parse_template(t, "", "n", "s").unwrap();
    assert_eq!(subject, "one");
    assert_eq!(html, "body");
}

#[test]
fn subject_on_last_header_line() {
    let t = "X: 1\nSubject:{{slot}}\n\n\nbody\n\nmore";
    let (subject, html, _) = parse_template(t, "", "n", "9:00").unwrap();
    assert_eq!(subject, "9:00");
    assert_eq!(html, "\nbody\n\nmore");
}

#[test]
fn missing_blank_line() {
    assert_eq!(parse_template("Subject: x\nbody", "", "n", "s"), Err(TemplateError::MissingBlankLine));
    assert_eq!(parse_template("Subject: x\r\n\r\nbody", "", "n", "s"), Err(TemplateError::MissingBlankLine));
}

#[test]
fn missing_subject() {
    assert_eq!(parse_template("From: x\nsubject: y\n\nbody", "", "n", "s"), Err(TemplateError::MissingSubject));
    assert_eq!(parse_template("\n\nSubject: x", "", "n", "s"), Err(TemplateError::MissingSubject));
}

#[test]
fn placeholders_in_name_are_not_filled_again() {
    let (subject, _, plain) = parse_template("Subject: {{name}}\n\n", "{{name}}/{{slot}}", "{{slot}}", "S").unwrap();
    // the name is filled in first, then every {{slot}}, including one the name brought in
    assert_eq!(subject, "S");
    assert_eq!(plain, "S/S");
}

#[test]
fn escaping_matches_chained_replacement() {
    for s in ["", "a&b", "<&>\"", "&lt;", "x > y && z", "\"'\"", "ü&ö"] {
        let chained = s
            .replace('&', "&amp;")
            .replace('<', "&lt;")
            .replace('>', "&gt;")
            .replace('"', "&quot;");
        assert_eq!(html_escape(s), chained);
        assert!(!html_escape(s).contains(['<', '>', '"']));
    }
}

fn unescape(t: &str) -> String {
    t.replace("&quot;", "\"").replace("&gt;", ">").replace("&lt;", "<").replace("&amp;", "&")
}

#[test]
fn escaping_is_undone_by_unescaping() {
    for s in ["a & b < c > d \"e\"", "&amp;lt;", "&quot;&&<<>>", "", "plain"] {
        assert_eq!(unescape(&html_escape(s)), s);
    }
    assert_ne!(html_escape("&lt;"), html_escape("<"));
}

#[test]
fn name_adds_no_markup() {
    let (_, html, _) = parse_template(TEMPLATE, PLAIN, "<b>x</b><script>", "10:00").unwrap();
    let body = TEMPLATE.split_once("\n\n").unwrap().1;
    assert_eq!(html.matches('<').count(), body.matches('<').count());
    assert_eq!(html.matches('>').count(), body.matches('>').count());
}

#[test]
fn mail_plan_for_a_mailbox() {
    let (subject, html, plain) =
        confirmation_plan(TEMPLATE, PLAIN, "Ann <ann@example.org>", "Ann", "10:00").unwrap();
    assert_eq!(subject, "Buchung für Ann");
    assert_eq!(html, "<p>Hallo Ann, dein Termin: 10:00 (10:00)</p>");
    assert_eq!(plain, "Hallo Ann, dein Termin: 10:00");
    assert!(confirmation_plan(TEMPLATE, PLAIN, "ann@example.org", "Ann", "10:00").is_ok());
}

#[test]
fn mail_plan_refusals() {
    assert_eq!(
        confirmation_plan(TEMPLATE, PLAIN, "not an address", "Ann", "10:00"),
        Err(MailProblem::Address)
    );
    // the template is checked before the address
    assert_eq!(
        confirmation_plan("Subject: x", PLAIN, "not an address", "Ann", "10:00"),
        Err(MailProblem::Template(TemplateError::MissingBlankLine))
    );
    assert_eq!(
        confirmation_plan("X: y\n\nbody", PLAIN, "ann@example.org", "Ann", "10:00"),
        Err(MailProblem::Template(TemplateError::MissingSubject))
    );
}

#[test]
fn sender_address_checked() {
    assert_eq!(sender_check("FFW <slots@example.org>"), Ok(()));
    assert_eq!(sender_check("slots@example.org"), Ok(()));
    assert_eq!(sender_check("slots"), Err(MailProblem::Address));
    assert_eq!(sender_check(""), Err(MailProblem::Address));
}
