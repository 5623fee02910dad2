use tally::model::{Daily, Report, RunRow};
use tally::page::{escape_html, render};

#[test]
fn escapes_markup_characters() {
    assert_eq!(escape_html("a<b>&c"), "a&lt;b&gt;&amp;c");
    assert_eq!(escape_html("plain text"), "plain text");
    assert_eq!(escape_html("&amp;"), "&amp;amp;");
    assert_eq!(escape_html(""), "");
}

#[test]
fn escape_is_the_three_replacements_in_order() {
    for s in ["<script>alert('x')</script>", "a && b", "é<>&", "\"quoted\""] {
        let expected = s.replace('&', "&amp;").replace('<', "&lt;").replace('>', "&gt;");
        assert_eq!(escape_html(s), expected);
    }
}

#[test]
fn escaped_text_has_no_angle_brackets() {
    let e = escape_html("<<>><a href='x'>");
    assert!(!e.contains('<') && !e.contains('>'));
}

fn sample_report() -> Report {
    Report {
        daily: vec![Daily {
            day: "2024-05-01".to_string(),
            kind: "behave".to_string(),
            runs: 1,
            failed: 3,
            avg_ms: 91500,
        }],
        recent: vec![RunRow {
            received: "2024-05-01 10:00:00".to_string(),
            kind: "be<have>".to_string(),
            host: "crow".to_string(),
            duration_ms: 91500,
            detail: "{\"failed\":3}".to_string(),
        }],
    }
}

#[test]
fn renders_rows_into_the_slots() {
    let page = "<style>{{style}}</style><table>{{daily}}</table><table>{{recent}}</table>";
    let html = render(
        page,
        "td{}",
        &sample_report(),
        &vec!["91.5s".to_string()],
        &vec!["91.5s".to_string()],
    );
    assert_eq!(
        html,
        "<style>td{}</style><table><tr><td>2024-05-01</td><td>behave</td><td class=n>1</td>\
         <td class=n>3</td><td class=n>91.5s</td></tr>\n</table><table>\
         <tr><td>2024-05-01 10:00:00</td><td>be&lt;have&gt;</td><td>crow</td>\
         <td class=n>91.5s</td><td>{\"failed\":3}</td></tr>\n</table>"
    );
}

#[test]
fn empty_report_leaves_empty_tables() {
    let report = Report { daily: vec![], recent: vec![] };
    let html = render("[{{daily}}][{{recent}}]{{style}}", "s", &report, &vec![], &vec![]);
    assert_eq!(html, "[][]s");
}

#[test]
fn shell_without_slots_is_unchanged() {
    let html = render("<p>no slots</p>", "s", &sample_report(), &vec!["1.0s".into()], &vec!["1.0s".into()]);
    assert_eq!(html, "<p>no slots</p>");
}

#[test]
fn inserted_text_is_not_scanned_for_slots() {
    let report = Report { daily: vec![], recent: vec![] };
    let html = render("{{style}}|{{daily}}", "x{{daily}}y{{recent}}z", &report, &vec![], &vec![]);
    assert_eq!(html, "x{{daily}}y{{recent}}z|");
}

#[test]
fn client_kind_spelling_a_slot_stays_text() {
    let report = Report {
        daily: vec![Daily {
            day: "2024-05-01".into(),
            kind: "{{recent}}".into(),
            runs: 1,
            failed: 0,
            avg_ms: 0,
        }],
        recent: vec![RunRow {
            received: "2024-05-01 10:00:00".into(),
            kind: "x".into(),
            host: "h".into(),
            duration_ms: 0,
            detail: "null".into(),
        }],
    };
    let html = render("{{daily}}{{recent}}", "", &report, &vec!["0.0s".into()], &vec!["0.0s".into()]);
    assert_eq!(
        html,
        "<tr><td>2024-05-01</td><td>{{recent}}</td><td class=n>1</td><td class=n>0</td>\
         <td class=n>0.0s</td></tr>\n\
         <tr><td>2024-05-01 10:00:00</td><td>x</td><td>h</td><td class=n>0.0s</td>\
         <td>null</td></tr>\n"
    );
    assert_eq!(html.matches("<td>x</td>").count(), 1);
}

#[test]
fn each_slot_of_the_shell_is_filled() {
    let report = Report { daily: vec![], recent: vec![] };
    let html = render("{{style}}-{{style}}-{{recent}}{{daily}}", "s", &report, &vec![], &vec![]);
    assert_eq!(html, "s-s-");
}
