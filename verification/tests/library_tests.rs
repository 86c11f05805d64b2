use chatserver::db::{
    create_table_statement, credentials_match, credentials_query, decide_login, names_match, LoginDecision, find_user_in_rows, insert_user_statement,
    new_user_record, user_from_row, user_lookup_query, DbValue,
};
use chatserver::message_box::{Line, MessageBox, Span, SpanStyle};
use chatserver::protocol::LoginInfo;
use chatserver::text::{join_strings, split_string, str_eq, str_starts_with, trim_ascii_string, trim_string};
use chatserver::validation::{ip_pattern, validate_listen_ip, Pattern};

fn row(uid: i64, name: &str, pass: &str, room: &str) -> Vec<DbValue> {
    vec![
        DbValue::Integer(uid),
        DbValue::Text(name.to_string()),
        DbValue::Text(pass.to_string()),
        DbValue::Text(room.to_string()),
    ]
}

fn spans_of(line: &Line) -> Vec<(String, SpanStyle)> {
    line.spans.iter().map(|s| (s.content.clone(), s.style)).collect()
}

fn text_of(line: &Line) -> String {
    line.spans.iter().map(|s| s.content.as_str()).collect::<Vec<_>>().join("")
}

#[test]
fn trimming() {
    assert_eq!(trim_ascii_string("  a b \t\n"), "a b");
    assert_eq!(trim_ascii_string("\u{A0}x\u{A0}"), "\u{A0}x\u{A0}");
    assert_eq!(trim_string("\u{A0} x \u{3000}"), "x");
    assert_eq!(trim_string("   "), "");
}

#[test]
fn splitting_and_joining() {
    let parts = split_string("a  b c", ' ');
    assert_eq!(parts, vec!["a".to_string(), "".to_string(), "b".to_string(), "c".to_string()]);
    assert_eq!(join_strings(&parts, " "), "a  b c");
    assert_eq!(split_string("", ' '), vec!["".to_string()]);
    assert!(str_starts_with("/pm bob", "/pm"));
    assert!(!str_starts_with("/p", "/pm"));
    assert!(str_eq("abc", "abc"));
    assert!(!str_eq("abc", "abd"));
}

#[test]
fn listen_address_validation() {
    let pattern: Pattern = match ip_pattern() {
        Ok(p) => p,
        Err(_) => panic!("the address pattern compiles"),
    };
    assert!(validate_listen_ip(&pattern, &"127.0.0.1".to_string()).is_ok());
    assert!(validate_listen_ip(&pattern, &"  10.0.0.254 \n".to_string()).is_ok());
    assert_eq!(validate_listen_ip(&pattern, &"localhost".to_string()), Err("Invalid IP".to_string()));
    assert!(validate_listen_ip(&pattern, &"1.2.3".to_string()).is_err());
    assert!(validate_listen_ip(&pattern, &"1.2.3.4444".to_string()).is_err());
    assert!(Pattern::compile("(").is_err());
}

#[test]
fn database_statements() {
    assert_eq!(user_lookup_query("bob"), "SELECT DISTINCT * FROM users WHERE LOWER(username) LIKE LOWER('bob')");
    assert_eq!(credentials_query("bob"), "SELECT DISTINCT * FROM users WHERE LOWER(username) LIKE LOWER('%bob%')");
    assert_eq!(insert_user_statement(), "INSERT INTO users (username, password, room) VALUES (?, ?, ?)");
    assert!(create_table_statement().starts_with("CREATE TABLE IF NOT EXISTS users"));
    let (u, p, r) = new_user_record(" bob\t", "\nhash ");
    assert_eq!(u, "bob");
    assert_eq!(p, "hash");
    assert_eq!(r, "Global");
}

#[test]
fn users_read_from_rows() {
    let u = user_from_row(&row(3, "bob", "h", "Private")).unwrap();
    assert_eq!(u.user_id, 3);
    assert_eq!(u.username, "bob");
    assert_eq!(u.current_room_name, "Private");
    let mut bad = row(3, "bob", "h", "Private");
    bad[3] = DbValue::Null;
    assert!(user_from_row(&bad).is_none());
    assert!(user_from_row(&row(3, "bob", "h", "Private")[..2]).is_none());
    let mut bad_id = row(3, "bob", "h", "Private");
    bad_id[0] = DbValue::Text("3".to_string());
    assert!(user_from_row(&bad_id).is_none());
    assert!(find_user_in_rows(&[]).is_none());
    let rows = vec![row(1, "a", "x", "Global"), row(2, "b", "y", "Global")];
    assert_eq!(find_user_in_rows(&rows).unwrap().user_id, 1);
    let negative = user_from_row(&row(-1, "n", "h", "Global")).unwrap();
    assert_eq!(negative.user_id, usize::MAX);
}

#[test]
fn credentials_are_checked_on_the_users_own_row() {
    let login = LoginInfo { username: "bob".to_string(), password: "h1".to_string() };
    assert!(credentials_match(&[row(1, "bob", "h1", "Global")], &login));
    assert!(credentials_match(&[row(1, "BoB", "h1", "Global")], &login));
    assert!(!credentials_match(&[row(1, "bob", "h2", "Global")], &login));
    assert!(credentials_match(&[row(1, "bobby", "h2", "Global"), row(2, "bob", "h1", "Global")], &login));
    assert!(!credentials_match(&[row(1, "bobby", "h1", "Global")], &login));
    assert!(!credentials_match(&[], &login));
    let mut blob = row(1, "bob", "h1", "Global");
    blob[2] = DbValue::Blob(vec![1, 2]);
    assert!(!credentials_match(&[blob], &login));
}

#[test]
fn markup_becomes_spans() {
    let spans: Vec<(String, SpanStyle)> = MessageBox::string_to_spans("plain".to_string())
        .iter()
        .map(|s| (s.content.clone(), s.style))
        .collect();
    assert_eq!(spans, vec![("plain".to_string(), SpanStyle::Plain)]);
    let spans: Vec<(String, SpanStyle)> = MessageBox::string_to_spans("a~rRED~xb".to_string())
        .iter()
        .map(|s| (s.content.clone(), s.style))
        .collect();
    assert_eq!(
        spans,
        vec![
            ("a".to_string(), SpanStyle::Plain),
            ("RED".to_string(), SpanStyle::Red),
            ("b".to_string(), SpanStyle::Plain),
        ]
    );
    let spans: Vec<(String, SpanStyle)> = MessageBox::string_to_spans("~bold".to_string())
        .iter()
        .map(|s| (s.content.clone(), s.style))
        .collect();
    assert_eq!(spans, vec![("".to_string(), SpanStyle::Plain), ("bold".to_string(), SpanStyle::Red)]);
    let spans = MessageBox::string_to_spans("x~".to_string());
    assert_eq!(spans.len(), 2);
}

#[test]
fn lines_are_wrapped_to_width() {
    assert!(MessageBox::fits_in_box(5, 2, 3));
    assert!(!MessageBox::fits_in_box(5, 3, 3));
    let line = Line { spans: vec![Span { content: "ab".to_string(), style: SpanStyle::Plain }] };
    let (lines, n) = MessageBox::wrap_line(5, &line);
    assert_eq!(n, 1);
    assert_eq!(spans_of(&lines[0]), vec![("ab".to_string(), SpanStyle::Plain)]);
    let line = Line { spans: vec![Span { content: "abcdef".to_string(), style: SpanStyle::Red }] };
    let (lines, n) = MessageBox::wrap_line(3, &line);
    assert_eq!(n, 2);
    assert_eq!(text_of(&lines[0]), "abc");
    assert_eq!(text_of(&lines[1]), "ef");
}

#[test]
fn messages_are_cut_at_width() {
    let (text, n) = MessageBox::wrap_msg(4, "abcdefghij".to_string());
    assert_eq!(text, "abcd\nefgh\nij");
    assert_eq!(n, 3);
    let (text, n) = MessageBox::wrap_msg(4, "ab  ".to_string());
    assert_eq!(text, "ab  ");
    assert_eq!(n, 1);
    let (text, n) = MessageBox::wrap_msg(3, "".to_string());
    assert_eq!(text, "");
    assert_eq!(n, 1);
}

#[test]
fn messages_that_cannot_be_cut_are_refused() {
    assert_eq!(
        MessageBox::try_wrap_msg(3, "abcdef".to_string()),
        Some(("abc\ndef\n".to_string(), 3))
    );
    assert_eq!(MessageBox::try_wrap_msg(0, "abc".to_string()), None);
    assert_eq!(MessageBox::try_wrap_msg(1, "\u{e9}".to_string()), None);
    assert_eq!(MessageBox::try_wrap_msg(2, "\u{e9}x".to_string()), Some(("\u{e9}\nx".to_string(), 2)));
}

#[test]
fn pane_grows_and_rewraps() {
    let mut pane = MessageBox::new(4);
    pane.new_msg(&"hello".to_string());
    assert_eq!(pane.lines, 2);
    pane.scroll_amount = 10;
    let msgs = vec!["a\nb".to_string(), "xyz".to_string()];
    pane.calculate_lines(10, &msgs);
    assert_eq!(pane.lines, 2);
    assert_eq!(text_of(&pane.text[0]), "ab");
    assert_eq!(pane.scroll_amount, 8);
    assert_eq!(pane.wrap_lines(10, &msgs), 2);
}

#[test]
fn names_compare_without_ascii_case() {
    assert!(names_match("Bob", "bOB"));
    assert!(!names_match("bob", "bobby"));
    assert!(!names_match("b_b", "bob"));
    assert!(names_match("", ""));
}

#[test]
fn login_decisions() {
    let login = LoginInfo { username: "bob".to_string(), password: "h1".to_string() };
    assert!(matches!(decide_login(&[], &login), LoginDecision::Register));
    assert!(matches!(decide_login(&[row(1, "bob", "h2", "Global")], &login), LoginDecision::Reject));
    match decide_login(&[row(4, "bob", "h1", "Private")], &login) {
        LoginDecision::Accept { user } => {
            assert_eq!(user.user_id, 4);
            assert_eq!(user.current_room_name, "Private");
        }
        other => panic!("{:?}", other),
    }
    let mut no_id = row(4, "bob", "h1", "Private");
    no_id[0] = DbValue::Null;
    assert!(matches!(decide_login(&[no_id], &login), LoginDecision::Reject));
}
