use forum::timestamp::Timestamp;
use forum::views::{index_page, layout, login_page, style_sheet, thread_page, MessageRow, TopicRow};

fn head(title: &str) -> String {
    format!(
        "<!DOCTYPE html><html lang=\"en\"><head><meta charset=\"utf-8\"><meta name=\"viewport\" content=\"width=device-width, initial-scale=1\"><title>{title}</title><style>{}</style></head><body>",
        style_sheet()
    )
}

#[test]
fn layout_wraps_body() {
    assert_eq!(layout("A & B", "<p>x</p>"), format!("{}<p>x</p></body></html>", head("A &amp; B")));
    assert!(style_sheet().contains("max-width: 720px"));
}

#[test]
fn login_page_html() {
    let page = login_page("bob\"", "tok", Some("Invalid username or password."));
    let expected = format!(
        "{}<h1>Log in</h1><p class=\"error\">Invalid username or password.</p><form method=\"post\" action=\"/login\"><input type=\"hidden\" name=\"_csrf\" value=\"tok\"><div><label>Username<br><input type=\"text\" name=\"username\" value=\"bob&quot;\" autocomplete=\"username\" required></label></div><div><label>Password<br><input type=\"password\" name=\"password\" autocomplete=\"current-password\" required></label></div><div><button type=\"submit\">Log in</button></div></form></body></html>",
        head("Log in")
    );
    assert_eq!(page, expected);
    let plain = login_page("", "t", None);
    assert!(!plain.contains("class=\"error\""));
}

#[test]
fn index_page_html() {
    let topics = vec![
        TopicRow { slug: "general".into(), title: "General <chat>".into() },
        TopicRow { slug: "meta".into(), title: "Meta".into() },
    ];
    let page = index_page(&topics, "alice", "tok", None);
    let nav = "<nav><span>Logged in as <strong>alice</strong> · </span><form method=\"post\" action=\"/logout\" style=\"display:inline\"><button type=\"submit\">Log out</button></form></nav><h1>Topics</h1>";
    let form = "<form method=\"post\" action=\"/\"><input type=\"hidden\" name=\"_csrf\" value=\"tok\"><div><input type=\"text\" name=\"title\" required></div><div><button type=\"submit\">Create topic</button></div></form>";
    let expected = format!(
        "{}{nav}<ul><li><a href=\"/general\">General &lt;chat&gt;</a></li><li><a href=\"/meta\">Meta</a></li></ul><h2>New topic</h2>{form}</body></html>",
        head("Topics")
    );
    assert_eq!(page, expected);
    let empty = index_page(&[], "alice", "tok", Some("Topic title cannot be empty."));
    assert_eq!(
        empty,
        format!(
            "{}{nav}<p>No topics yet.</p><h2>New topic</h2><p class=\"error\">Topic title cannot be empty.</p>{form}</body></html>",
            head("Topics")
        )
    );
}

#[test]
fn thread_page_html() {
    let messages = vec![MessageRow {
        author: "bob".into(),
        body: "x < y".into(),
        created_at: Timestamp::new(2024, 3, 5, 14, 7, 9).unwrap(),
    }];
    let page = thread_page("rust", "Rust", &messages, "tok", Some("Message is too long."), "draft");
    let expected = format!(
        "{}<nav><a href=\"/\">← Topics</a></nav><h1>Rust</h1><div class=\"msg\"><div class=\"msg-meta\">bob · 2024-03-05 14:07 UTC</div><div class=\"msg-body\">x &lt; y</div></div><h2>Post a message</h2><p class=\"error\">Message is too long.</p><form method=\"post\" action=\"/rust\"><input type=\"hidden\" name=\"_csrf\" value=\"tok\"><div><textarea name=\"body\" rows=\"5\">draft</textarea></div><div><button type=\"submit\">Post</button></div></form></body></html>",
        head("Rust")
    );
    assert_eq!(page, expected);
    let empty = thread_page("rust", "Rust", &[], "tok", None, "");
    assert!(empty.contains("<h1>Rust</h1><p>No messages yet. Be the first!</p><h2>Post a message</h2><form"));
}

#[test]
fn user_text_cannot_break_out() {
    let evil = "\"><script>alert(1)</script>";
    let page = login_page(evil, evil, Some(evil));
    assert!(!page.contains("<script>"));
    assert_eq!(page.matches("&quot;&gt;&lt;script&gt;").count(), 3);
}
