//! The HTML pages: the layout every page shares, the topic list, a thread
//! and the login form. Every piece of text that comes from a user or the
//! database is escaped.

use vstd::prelude::*;

use crate::auth::opt_view;
use crate::html::{html_escape, push_escaped};
use crate::text::push_str;
use crate::timestamp::{minute_text, Timestamp};

verus! {

/// The style sheet every page carries.
pub open spec fn style_text() -> Seq<char> {
    "
    body { font-family: system-ui, sans-serif; max-width: 720px; margin: 2rem auto; padding: 0 1rem; line-height: 1.6; }
    a { color: #0066cc; }
    .msg { border-top: 1px solid #ddd; padding: 0.75rem 0; }
    .msg-meta { color: #666; font-size: 0.85em; margin-bottom: 0.25rem; }
    .msg-body { white-space: pre-wrap; word-break: break-word; }
    .error { color: #c00; margin-bottom: 0.5rem; }
    textarea { width: 100%; box-sizing: border-box; }
    input, textarea, button { font-size: 1rem; }
    nav { margin-bottom: 1.5rem; }
"@
}

/// The style sheet every page carries.
pub fn style_sheet() -> (s: &'static str)
    ensures
        s@ == style_text(),
{
    "
    body { font-family: system-ui, sans-serif; max-width: 720px; margin: 2rem auto; padding: 0 1rem; line-height: 1.6; }
    a { color: #0066cc; }
    .msg { border-top: 1px solid #ddd; padding: 0.75rem 0; }
    .msg-meta { color: #666; font-size: 0.85em; margin-bottom: 0.25rem; }
    .msg-body { white-space: pre-wrap; word-break: break-word; }
    .error { color: #c00; margin-bottom: 0.5rem; }
    textarea { width: 100%; box-sizing: border-box; }
    input, textarea, button { font-size: 1rem; }
    nav { margin-bottom: 1.5rem; }
"
}

/// A whole page: `title` in the head and `body` (already HTML) as its body.
pub open spec fn layout_html(title: Seq<char>, body: Seq<char>) -> Seq<char> {
    "<!DOCTYPE html>"@ + "<html lang=\"en\"><head><meta charset=\"utf-8\"><meta name=\"viewport\" content=\"width=device-width, initial-scale=1\"><title>"@
        + html_escape(title) + "</title><style>"@ + html_escape(style_text())
        + "</style></head><body>"@ + body + "</body></html>"@
}

/// Wraps the HTML `body` into a whole page titled `title`.
pub fn layout(title: &str, body: &str) -> (page: String)
    ensures
        page@ == layout_html(title@, body@),
{
    let mut out = String::new();
    push_str(&mut out, "<!DOCTYPE html>");
    push_str(
        &mut out,
        "<html lang=\"en\"><head><meta charset=\"utf-8\"><meta name=\"viewport\" content=\"width=device-width, initial-scale=1\"><title>",
    );
    push_escaped(&mut out, title);
    push_str(&mut out, "</title><style>");
    push_escaped(&mut out, style_sheet());
    push_str(&mut out, "</style></head><body>");
    push_str(&mut out, body);
    push_str(&mut out, "</body></html>");
    assert(out@ =~= layout_html(title@, body@));
    out
}

/// A topic in the topic list: where it lives and its title.
#[derive(Debug)]
pub struct TopicRow {
    pub slug: String,
    pub title: String,
}

/// The list item that links to a topic.
pub open spec fn topic_item(t: TopicRow) -> Seq<char> {
    "<li><a href=\"/"@ + html_escape(t.slug@) + "\">"@ + html_escape(t.title@) + "</a></li>"@
}

/// The list items of the topics, in order.
pub open spec fn topic_items(ts: Seq<TopicRow>) -> Seq<char>
    decreases ts.len(),
{
    if ts.len() == 0 {
        seq![]
    } else {
        topic_items(ts.drop_last()) + topic_item(ts.last())
    }
}

/// The form that opens a topic, with the session's CSRF token.
pub open spec fn new_topic_form(csrf: Seq<char>) -> Seq<char> {
    "<form method=\"post\" action=\"/\"><input type=\"hidden\" name=\"_csrf\" value=\""@
        + html_escape(csrf)
        + "\"><div><input type=\"text\" name=\"title\" required></div><div><button type=\"submit\">Create topic</button></div></form>"@
}

/// The body of the topic list.
pub open spec fn index_body(
    topics: Seq<TopicRow>,
    username: Seq<char>,
    csrf: Seq<char>,
    error: Option<Seq<char>>,
) -> Seq<char> {
    "<nav><span>Logged in as <strong>"@ + html_escape(username)
        + "</strong> · </span><form method=\"post\" action=\"/logout\" style=\"display:inline\"><button type=\"submit\">Log out</button></form></nav><h1>Topics</h1>"@
        + if topics.len() == 0 {
        "<p>No topics yet.</p>"@
    } else {
        "<ul>"@ + topic_items(topics) + "</ul>"@
    } + "<h2>New topic</h2>"@ + error_html(error) + new_topic_form(csrf)
}

/// The page that lists the topics, for the logged-in user `username`, then
/// the form that opens a new topic (with `error` above it if given).
pub fn index_page(topics: &[TopicRow], username: &str, csrf: &str, error: Option<&str>) -> (page:
    String)
    ensures
        page@ == layout_html("Topics"@, index_body(topics@, username@, csrf@, opt_view(error))),
{
    let mut body = String::new();
    push_str(&mut body, "<nav><span>Logged in as <strong>");
    push_escaped(&mut body, username);
    push_str(
        &mut body,
        "</strong> · </span><form method=\"post\" action=\"/logout\" style=\"display:inline\"><button type=\"submit\">Log out</button></form></nav><h1>Topics</h1>",
    );
    let ghost head = body@;
    if topics.len() == 0 {
        push_str(&mut body, "<p>No topics yet.</p>");
    } else {
        push_str(&mut body, "<ul>");
        let ghost start = body@;
        let mut i: usize = 0;
        assert(topics@.take(0) =~= Seq::<TopicRow>::empty());
        while i < topics.len()
            invariant
                i <= topics@.len(),
                body@ == start + topic_items(topics@.take(i as int)),
            decreases topics.len() - i,
        {
            let t = &topics[i];
            push_str(&mut body, "<li><a href=\"/");
            push_escaped(&mut body, t.slug.as_str());
            push_str(&mut body, "\">");
            push_escaped(&mut body, t.title.as_str());
            push_str(&mut body, "</a></li>");
            assert(topics@.take(i + 1).drop_last() == topics@.take(i as int));
            assert(body@ =~= start + topic_items(topics@.take(i + 1)));
            i += 1;
        }
        assert(topics@.take(topics@.len() as int) == topics@);
        push_str(&mut body, "</ul>");
    }
    push_str(&mut body, "<h2>New topic</h2>");
    push_error(&mut body, error);
    push_str(&mut body, "<form method=\"post\" action=\"/\"><input type=\"hidden\" name=\"_csrf\" value=\"");
    push_escaped(&mut body, csrf);
    push_str(
        &mut body,
        "\"><div><input type=\"text\" name=\"title\" required></div><div><button type=\"submit\">Create topic</button></div></form>",
    );
    assert(body@ =~= index_body(topics@, username@, csrf@, opt_view(error)));
    layout("Topics", body.as_str())
}

/// A message in a thread: who wrote it, what, and when.
#[derive(Debug)]
pub struct MessageRow {
    pub author: String,
    pub body: String,
    pub created_at: Timestamp,
}

/// The block that shows one message.
pub open spec fn message_item(m: MessageRow) -> Seq<char> {
    "<div class=\"msg\"><div class=\"msg-meta\">"@ + html_escape(m.author@) + " · "@
        + html_escape(minute_text(m.created_at)) + "</div><div class=\"msg-body\">"@
        + html_escape(m.body@) + "</div></div>"@
}

/// The blocks of the messages, in order.
pub open spec fn message_items(ms: Seq<MessageRow>) -> Seq<char>
    decreases ms.len(),
{
    if ms.len() == 0 {
        seq![]
    } else {
        message_items(ms.drop_last()) + message_item(ms.last())
    }
}

/// The paragraph that shows an error, if there is one.
pub open spec fn error_html(error: Option<Seq<char>>) -> Seq<char> {
    match error {
        Some(e) => "<p class=\"error\">"@ + html_escape(e) + "</p>"@,
        None => seq![],
    }
}

fn push_error(out: &mut String, error: Option<&str>)
    ensures
        final(out)@ == old(out)@ + error_html(opt_view(error)),
{
    if let Some(err) = error {
        push_str(out, "<p class=\"error\">");
        push_escaped(out, err);
        push_str(out, "</p>");
        assert(out@ =~= old(out)@ + error_html(opt_view(error)));
    } else {
        assert(out@ =~= old(out)@ + error_html(opt_view(error)));
    }
}

/// The body of a thread page.
pub open spec fn thread_body(
    slug: Seq<char>,
    title: Seq<char>,
    messages: Seq<MessageRow>,
    csrf: Seq<char>,
    error: Option<Seq<char>>,
    prefill: Seq<char>,
) -> Seq<char> {
    "<nav><a href=\"/\">← Topics</a></nav><h1>"@ + html_escape(title) + "</h1>"@
        + message_items(messages) + (if messages.len() == 0 {
        "<p>No messages yet. Be the first!</p>"@
    } else {
        seq![]
    }) + "<h2>Post a message</h2>"@ + error_html(error)
        + "<form method=\"post\" action=\"/"@ + html_escape(slug)
        + "\"><input type=\"hidden\" name=\"_csrf\" value=\""@ + html_escape(csrf)
        + "\"><div><textarea name=\"body\" rows=\"5\">"@ + html_escape(prefill)
        + "</textarea></div><div><button type=\"submit\">Post</button></div></form>"@
}

/// The page of a topic: its messages, oldest first, then the form that posts
/// a new one (with `prefill` in it, and `error` above it if given).
pub fn thread_page(
    slug: &str,
    title: &str,
    messages: &[MessageRow],
    csrf: &str,
    error: Option<&str>,
    prefill: &str,
) -> (page: String)
    ensures
        page@ == layout_html(
            title@,
            thread_body(slug@, title@, messages@, csrf@, opt_view(error), prefill@),
        ),
{
    let mut body = String::new();
    push_str(&mut body, "<nav><a href=\"/\">← Topics</a></nav><h1>");
    push_escaped(&mut body, title);
    push_str(&mut body, "</h1>");
    let ghost start = body@;
    let mut i: usize = 0;
    assert(messages@.take(0) =~= Seq::<MessageRow>::empty());
    while i < messages.len()
        invariant
            i <= messages@.len(),
            body@ == start + message_items(messages@.take(i as int)),
        decreases messages.len() - i,
    {
        let m = &messages[i];
        let when = m.created_at.format_minute();
        push_str(&mut body, "<div class=\"msg\"><div class=\"msg-meta\">");
        push_escaped(&mut body, m.author.as_str());
        push_str(&mut body, " · ");
        push_escaped(&mut body, when.as_str());
        push_str(&mut body, "</div><div class=\"msg-body\">");
        push_escaped(&mut body, m.body.as_str());
        push_str(&mut body, "</div></div>");
        assert(messages@.take(i + 1).drop_last() == messages@.take(i as int));
        assert(body@ =~= start + message_items(messages@.take(i + 1)));
        i += 1;
    }
    assert(messages@.take(messages@.len() as int) == messages@);
    if messages.len() == 0 {
        push_str(&mut body, "<p>No messages yet. Be the first!</p>");
    }
    push_str(&mut body, "<h2>Post a message</h2>");
    push_error(&mut body, error);
    push_str(&mut body, "<form method=\"post\" action=\"/");
    push_escaped(&mut body, slug);
    push_str(&mut body, "\"><input type=\"hidden\" name=\"_csrf\" value=\"");
    push_escaped(&mut body, csrf);
    push_str(&mut body, "\"><div><textarea name=\"body\" rows=\"5\">");
    push_escaped(&mut body, prefill);
    push_str(&mut body, "</textarea></div><div><button type=\"submit\">Post</button></div></form>");
    assert(body@ =~= thread_body(slug@, title@, messages@, csrf@, opt_view(error), prefill@));
    layout(title, body.as_str())
}

/// The body of the login page.
pub open spec fn login_body(username: Seq<char>, csrf: Seq<char>, error: Option<Seq<char>>) -> Seq<
    char,
> {
    "<h1>Log in</h1>"@ + error_html(error)
        + "<form method=\"post\" action=\"/login\"><input type=\"hidden\" name=\"_csrf\" value=\""@
        + html_escape(csrf)
        + "\"><div><label>Username<br><input type=\"text\" name=\"username\" value=\""@
        + html_escape(username)
        + "\" autocomplete=\"username\" required></label></div><div><label>Password<br><input type=\"password\" name=\"password\" autocomplete=\"current-password\" required></label></div><div><button type=\"submit\">Log in</button></div></form>"@
}

/// The login page: the form with its CSRF token and the username filled in,
/// and `error` above it if given.
pub fn login_page(username_prefill: &str, csrf: &str, error: Option<&str>) -> (page: String)
    ensures
        page@ == layout_html("Log in"@, login_body(username_prefill@, csrf@, opt_view(error))),
{
    let mut body = String::new();
    push_str(&mut body, "<h1>Log in</h1>");
    push_error(&mut body, error);
    push_str(
        &mut body,
        "<form method=\"post\" action=\"/login\"><input type=\"hidden\" name=\"_csrf\" value=\"",
    );
    push_escaped(&mut body, csrf);
    push_str(
        &mut body,
        "\"><div><label>Username<br><input type=\"text\" name=\"username\" value=\"",
    );
    push_escaped(&mut body, username_prefill);
    push_str(
        &mut body,
        "\" autocomplete=\"username\" required></label></div><div><label>Password<br><input type=\"password\" name=\"password\" autocomplete=\"current-password\" required></label></div><div><button type=\"submit\">Log in</button></div></form>",
    );
    assert(body@ =~= login_body(username_prefill@, csrf@, opt_view(error)));
    layout("Log in", body.as_str())
}

// ---------------------------------------------------------------------------
// Laws of the pages
// ---------------------------------------------------------------------------

/// Whether `part` stands in `page` from position `at` on.
pub open spec fn occurs_at(page: Seq<char>, part: Seq<char>, at: int) -> bool {
    0 <= at && at + part.len() <= page.len() && page.subrange(at, at + part.len()) == part
}

/// Whether `part` stands somewhere in `page`.
pub open spec fn shows(page: Seq<char>, part: Seq<char>) -> bool {
    exists|at: int| occurs_at(page, part, at)
}

proof fn lemma_occurs_in_middle(x: Seq<char>, part: Seq<char>, y: Seq<char>)
    ensures
        occurs_at(x + part + y, part, x.len() as int),
        shows(x + part + y, part),
{
    assert((x + part + y).subrange(x.len() as int, x.len() + part.len() as int) =~= part);
}

/// The blocks of a list of messages followed by one more message are the
/// blocks of the list, then the block of the new message.
pub proof fn lemma_message_items_push(ms: Seq<MessageRow>, m: MessageRow)
    ensures
        message_items(ms.push(m)) == message_items(ms) + message_item(m),
{
    assert(ms.push(m).drop_last() =~= ms);
}

/// The blocks of two lists of messages one after the other are the blocks of
/// the first list, then those of the second.
pub proof fn lemma_message_items_concat(a: Seq<MessageRow>, b: Seq<MessageRow>)
    ensures
        message_items(a + b) == message_items(a) + message_items(b),
    decreases b.len(),
{
    if b.len() == 0 {
        assert(a + b =~= a);
        assert(message_items(b) =~= Seq::<char>::empty());
        assert(message_items(a) + message_items(b) =~= message_items(a));
    } else {
        let c = b.drop_last();
        lemma_message_items_concat(a, c);
        assert((a + b).drop_last() =~= a + c);
        assert((a + b).last() == b.last());
        assert(message_items(a + b) =~= message_items(a) + message_items(b));
    }
}

/// A thread page shows its messages in the order given, oldest first when
/// given oldest first: the block of each message is followed directly by the
/// block of the next one.
#[verifier::spinoff_prover]
#[verifier::rlimit(50)]
pub proof fn lemma_thread_messages_in_order(
    slug: Seq<char>,
    title: Seq<char>,
    ms: Seq<MessageRow>,
    csrf: Seq<char>,
    error: Option<Seq<char>>,
    prefill: Seq<char>,
    i: int,
)
    requires
        0 <= i,
        i + 1 < ms.len(),
    ensures
        shows(
            thread_body(slug, title, ms, csrf, error, prefill),
            message_item(ms[i]) + message_item(ms[i + 1]),
        ),
{
    let pair = seq![ms[i], ms[i + 1]];
    let rest = ms.skip(i + 2);
    assert(ms =~= ms.take(i) + (pair + rest));
    lemma_message_items_concat(ms.take(i), pair + rest);
    lemma_message_items_concat(pair, rest);
    assert(pair.drop_last() =~= seq![ms[i]]);
    assert(seq![ms[i]].drop_last() =~= Seq::<MessageRow>::empty());
    let e = Seq::<MessageRow>::empty();
    lemma_message_items_push(e, ms[i]);
    assert(e.push(ms[i]) =~= seq![ms[i]]);
    lemma_message_items_push(seq![ms[i]], ms[i + 1]);
    assert(seq![ms[i]].push(ms[i + 1]) =~= pair);
    assert(message_items(e) =~= Seq::<char>::empty());
    assert(message_items(pair) =~= message_item(ms[i]) + message_item(ms[i + 1]));
    let body = thread_body(slug, title, ms, csrf, error, prefill);
    let head = thread_heading(title);
    let x = head + message_items(ms.take(i));
    let part = message_item(ms[i]) + message_item(ms[i + 1]);
    let tail = body.skip((head + message_items(ms)).len() as int);
    assert(body =~= head + message_items(ms) + tail);
    assert(body =~= x + part + (message_items(rest) + tail));
    lemma_occurs_in_middle(x, part, message_items(rest) + tail);
}

/// The heading of a thread page, up to where its messages begin.
pub open spec fn thread_heading(title: Seq<char>) -> Seq<char> {
    "<nav><a href=\"/\">← Topics</a></nav><h1>"@ + html_escape(title) + "</h1>"@
}

/// A thread page shows every message it is given, each by its own block.
#[verifier::spinoff_prover]
#[verifier::rlimit(50)]
pub proof fn lemma_thread_shows_every_message(
    slug: Seq<char>,
    title: Seq<char>,
    ms: Seq<MessageRow>,
    csrf: Seq<char>,
    error: Option<Seq<char>>,
    prefill: Seq<char>,
    i: int,
)
    requires
        0 <= i < ms.len(),
    ensures
        shows(thread_body(slug, title, ms, csrf, error, prefill), message_item(ms[i])),
{
    let rest = ms.skip(i + 1);
    assert(ms =~= ms.take(i) + (seq![ms[i]] + rest));
    lemma_message_items_concat(ms.take(i), seq![ms[i]] + rest);
    lemma_message_items_concat(seq![ms[i]], rest);
    let e = Seq::<MessageRow>::empty();
    lemma_message_items_push(e, ms[i]);
    assert(e.push(ms[i]) =~= seq![ms[i]]);
    assert(message_items(e) =~= Seq::<char>::empty());
    assert(message_items(seq![ms[i]]) =~= message_item(ms[i]));
    let body = thread_body(slug, title, ms, csrf, error, prefill);
    let head = thread_heading(title);
    let x = head + message_items(ms.take(i));
    let part = message_item(ms[i]);
    let tail = body.skip((head + message_items(ms)).len() as int);
    assert(body =~= head + message_items(ms) + tail);
    assert(body =~= x + part + (message_items(rest) + tail));
    lemma_occurs_in_middle(x, part, message_items(rest) + tail);
}

/// Right below its heading, a thread page says "No messages yet. Be the
/// first!" exactly when it has no message to show.
#[verifier::spinoff_prover]
#[verifier::rlimit(50)]
pub proof fn lemma_thread_empty_notice(
    slug: Seq<char>,
    title: Seq<char>,
    ms: Seq<MessageRow>,
    csrf: Seq<char>,
    error: Option<Seq<char>>,
    prefill: Seq<char>,
)
    ensures
        occurs_at(
            thread_body(slug, title, ms, csrf, error, prefill),
            "<p>No messages yet. Be the first!</p>"@,
            thread_heading(title).len() as int,
        ) <==> ms.len() == 0,
{
    reveal_strlit("<p>No messages yet. Be the first!</p>");
    reveal_strlit("<div class=\"msg\"><div class=\"msg-meta\">");
    let body = thread_body(slug, title, ms, csrf, error, prefill);
    let h = thread_heading(title);
    let hl = h.len() as int;
    let notice = "<p>No messages yet. Be the first!</p>"@;
    if ms.len() == 0 {
        assert(message_items(ms) =~= Seq::<char>::empty());
        let tail = body.skip(hl + notice.len() as int);
        assert(body =~= h + notice + tail);
        lemma_occurs_in_middle(h, notice, tail);
    } else {
        let first = seq![ms[0]];
        assert(ms =~= first + ms.skip(1));
        lemma_message_items_concat(first, ms.skip(1));
        let e = Seq::<MessageRow>::empty();
        lemma_message_items_push(e, ms[0]);
        assert(e.push(ms[0]) =~= first);
        assert(message_items(e) =~= Seq::<char>::empty());
        let open = "<div class=\"msg\"><div class=\"msg-meta\">"@;
        let tail = body.skip(hl + open.len() as int);
        assert(body =~= h + open + tail);
        assert(body[hl + 1] == 'd');
        if occurs_at(body, notice, hl) {
            assert(body.subrange(hl, hl + notice.len())[1] == body[hl + 1]);
        }
    }
}

/// A thread page's post form carries the CSRF token it is given in its hidden
/// `_csrf` field.
#[verifier::spinoff_prover]
#[verifier::rlimit(50)]
pub proof fn lemma_thread_form_carries_token(
    slug: Seq<char>,
    title: Seq<char>,
    ms: Seq<MessageRow>,
    csrf: Seq<char>,
    error: Option<Seq<char>>,
    prefill: Seq<char>,
)
    ensures
        shows(
            thread_body(slug, title, ms, csrf, error, prefill),
            "name=\"_csrf\" value=\""@ + html_escape(csrf) + "\""@,
        ),
{
    reveal_strlit("\"><input type=\"hidden\" name=\"_csrf\" value=\"");
    reveal_strlit("\"><input type=\"hidden\" ");
    reveal_strlit("name=\"_csrf\" value=\"");
    reveal_strlit("\"");
    reveal_strlit("\"><div><textarea name=\"body\" rows=\"5\">");
    let field_open = "\"><input type=\"hidden\" name=\"_csrf\" value=\""@;
    let before = "\"><input type=\"hidden\" "@;
    let field = "name=\"_csrf\" value=\""@;
    assert(field_open =~= before + field);
    let after = "\"><div><textarea name=\"body\" rows=\"5\">"@;
    let quote = "\""@;
    assert(after =~= quote + after.skip(1));
    let body = thread_body(slug, title, ms, csrf, error, prefill);
    let x = "<nav><a href=\"/\">← Topics</a></nav><h1>"@ + html_escape(title) + "</h1>"@
        + message_items(ms) + (if ms.len() == 0 {
        "<p>No messages yet. Be the first!</p>"@
    } else {
        seq![]
    }) + "<h2>Post a message</h2>"@ + error_html(error) + "<form method=\"post\" action=\"/"@
        + html_escape(slug) + before;
    let part = field + html_escape(csrf) + quote;
    let tail = body.skip(x.len() + part.len() as int);
    assert(body =~= x + part + tail);
    lemma_occurs_in_middle(x, part, tail);
}

/// The list items of two lists of topics one after the other are the items
/// of the first list, then those of the second.
pub proof fn lemma_topic_items_concat(a: Seq<TopicRow>, b: Seq<TopicRow>)
    ensures
        topic_items(a + b) == topic_items(a) + topic_items(b),
    decreases b.len(),
{
    if b.len() == 0 {
        assert(a + b =~= a);
        assert(topic_items(b) =~= Seq::<char>::empty());
        assert(topic_items(a) + topic_items(b) =~= topic_items(a));
    } else {
        let c = b.drop_last();
        lemma_topic_items_concat(a, c);
        assert((a + b).drop_last() =~= a + c);
        assert((a + b).last() == b.last());
        assert(topic_items(a + b) =~= topic_items(a) + topic_items(b));
    }
}

/// The heading of the topic list page, up to where the list begins.
pub open spec fn index_heading(username: Seq<char>) -> Seq<char> {
    "<nav><span>Logged in as <strong>"@ + html_escape(username)
        + "</strong> · </span><form method=\"post\" action=\"/logout\" style=\"display:inline\"><button type=\"submit\">Log out</button></form></nav><h1>Topics</h1>"@
}

/// The topic list page links every topic it is given, each by its own list
/// item.
#[verifier::spinoff_prover]
#[verifier::rlimit(50)]
pub proof fn lemma_index_lists_every_topic(
    topics: Seq<TopicRow>,
    username: Seq<char>,
    csrf: Seq<char>,
    error: Option<Seq<char>>,
    i: int,
)
    requires
        0 <= i < topics.len(),
    ensures
        shows(index_body(topics, username, csrf, error), topic_item(topics[i])),
{
    let rest = topics.skip(i + 1);
    assert(topics =~= topics.take(i) + (seq![topics[i]] + rest));
    lemma_topic_items_concat(topics.take(i), seq![topics[i]] + rest);
    lemma_topic_items_concat(seq![topics[i]], rest);
    assert(seq![topics[i]].drop_last() =~= Seq::<TopicRow>::empty());
    let e = Seq::<TopicRow>::empty();
    assert(e.push(topics[i]) =~= seq![topics[i]]);
    assert(e.push(topics[i]).drop_last() =~= e);
    assert(topic_items(e) =~= Seq::<char>::empty());
    assert(topic_items(seq![topics[i]]) =~= topic_item(topics[i]));
    let body = index_body(topics, username, csrf, error);
    let head = index_heading(username) + "<ul>"@;
    let x = head + topic_items(topics.take(i));
    let part = topic_item(topics[i]);
    let tail = body.skip((head + topic_items(topics)).len() as int);
    assert(body =~= head + topic_items(topics) + tail);
    assert(body =~= x + part + (topic_items(rest) + tail));
    lemma_occurs_in_middle(x, part, topic_items(rest) + tail);
}

/// The topic list page lists its topics in the order given: the item of
/// each topic is followed directly by the item of the next one.
#[verifier::spinoff_prover]
#[verifier::rlimit(50)]
pub proof fn lemma_index_topics_in_order(
    topics: Seq<TopicRow>,
    username: Seq<char>,
    csrf: Seq<char>,
    error: Option<Seq<char>>,
    i: int,
)
    requires
        0 <= i,
        i + 1 < topics.len(),
    ensures
        shows(
            index_body(topics, username, csrf, error),
            topic_item(topics[i]) + topic_item(topics[i + 1]),
        ),
{
    let pair = seq![topics[i], topics[i + 1]];
    let rest = topics.skip(i + 2);
    assert(topics =~= topics.take(i) + (pair + rest));
    lemma_topic_items_concat(topics.take(i), pair + rest);
    lemma_topic_items_concat(pair, rest);
    let e = Seq::<TopicRow>::empty();
    assert(e.push(topics[i]) =~= seq![topics[i]]);
    assert(e.push(topics[i]).drop_last() =~= e);
    assert(topic_items(e) =~= Seq::<char>::empty());
    assert(seq![topics[i]].push(topics[i + 1]) =~= pair);
    assert(pair.drop_last() =~= seq![topics[i]]);
    assert(pair.last() == topics[i + 1]);
    assert(seq![topics[i]].drop_last() =~= e);
    assert(topic_items(seq![topics[i]]) =~= topic_item(topics[i]));
    assert(topic_items(pair) =~= topic_item(topics[i]) + topic_item(topics[i + 1]));
    let body = index_body(topics, username, csrf, error);
    let head = index_heading(username) + "<ul>"@;
    let x = head + topic_items(topics.take(i));
    let part = topic_item(topics[i]) + topic_item(topics[i + 1]);
    let tail = body.skip((head + topic_items(topics)).len() as int);
    assert(body =~= head + topic_items(topics) + tail);
    assert(body =~= x + part + (topic_items(rest) + tail));
    lemma_occurs_in_middle(x, part, topic_items(rest) + tail);
}

/// The new-topic form of the topic list page carries the CSRF token it is
/// given in its hidden `_csrf` field.
#[verifier::spinoff_prover]
#[verifier::rlimit(50)]
pub proof fn lemma_index_form_carries_token(
    topics: Seq<TopicRow>,
    username: Seq<char>,
    csrf: Seq<char>,
    error: Option<Seq<char>>,
)
    ensures
        shows(
            index_body(topics, username, csrf, error),
            "name=\"_csrf\" value=\""@ + html_escape(csrf) + "\""@,
        ),
{
    reveal_strlit("<form method=\"post\" action=\"/\"><input type=\"hidden\" name=\"_csrf\" value=\"");
    reveal_strlit("<form method=\"post\" action=\"/\"><input type=\"hidden\" ");
    reveal_strlit("name=\"_csrf\" value=\"");
    reveal_strlit("\"");
    reveal_strlit(
        "\"><div><input type=\"text\" name=\"title\" required></div><div><button type=\"submit\">Create topic</button></div></form>",
    );
    let form_open = "<form method=\"post\" action=\"/\"><input type=\"hidden\" name=\"_csrf\" value=\""@;
    let before = "<form method=\"post\" action=\"/\"><input type=\"hidden\" "@;
    let field = "name=\"_csrf\" value=\""@;
    assert(form_open =~= before + field);
    let after = "\"><div><input type=\"text\" name=\"title\" required></div><div><button type=\"submit\">Create topic</button></div></form>"@;
    let quote = "\""@;
    assert(after =~= quote + after.skip(1));
    let body = index_body(topics, username, csrf, error);
    let list = if topics.len() == 0 {
        "<p>No topics yet.</p>"@
    } else {
        "<ul>"@ + topic_items(topics) + "</ul>"@
    };
    let x = index_heading(username) + list + "<h2>New topic</h2>"@ + error_html(error) + before;
    let part = field + html_escape(csrf) + quote;
    assert(body =~= x + part + after.skip(1));
    lemma_occurs_in_middle(x, part, after.skip(1));
}

/// Right below its heading, the topic list page says "No topics yet."
/// exactly when it is given no topic.
#[verifier::spinoff_prover]
#[verifier::rlimit(50)]
pub proof fn lemma_index_empty_notice(
    topics: Seq<TopicRow>,
    username: Seq<char>,
    csrf: Seq<char>,
    error: Option<Seq<char>>,
)
    ensures
        occurs_at(
            index_body(topics, username, csrf, error),
            "<p>No topics yet.</p>"@,
            index_heading(username).len() as int,
        ) <==> topics.len() == 0,
{
    reveal_strlit("<p>No topics yet.</p>");
    reveal_strlit("<ul>");
    let body = index_body(topics, username, csrf, error);
    let h = index_heading(username);
    let notice = "<p>No topics yet.</p>"@;
    if topics.len() == 0 {
        let tail = body.skip(h.len() + notice.len() as int);
        assert(body =~= h + notice + tail);
        lemma_occurs_in_middle(h, notice, tail);
    } else {
        let hl = h.len() as int;
        let tail = body.skip(hl + 4);
        assert(body =~= h + "<ul>"@ + tail);
        assert(body[hl + 1] == 'u');
        if occurs_at(body, notice, hl) {
            assert(body.subrange(hl, hl + notice.len())[1] == body[hl + 1]);
        }
    }
}

/// The login page's form carries the CSRF token it is given in its hidden
/// `_csrf` field, whether or not an error is shown above it.
#[verifier::spinoff_prover]
#[verifier::rlimit(50)]
pub proof fn lemma_login_form_carries_token(
    username: Seq<char>,
    csrf: Seq<char>,
    error: Option<Seq<char>>,
)
    ensures
        shows(
            login_body(username, csrf, error),
            "name=\"_csrf\" value=\""@ + html_escape(csrf) + "\""@,
        ),
{
    reveal_strlit(
        "<form method=\"post\" action=\"/login\"><input type=\"hidden\" name=\"_csrf\" value=\"",
    );
    reveal_strlit("<form method=\"post\" action=\"/login\"><input type=\"hidden\" ");
    reveal_strlit("name=\"_csrf\" value=\"");
    reveal_strlit("\"");
    reveal_strlit(
        "\"><div><label>Username<br><input type=\"text\" name=\"username\" value=\"",
    );
    let form_open = "<form method=\"post\" action=\"/login\"><input type=\"hidden\" name=\"_csrf\" value=\""@;
    let before = "<form method=\"post\" action=\"/login\"><input type=\"hidden\" "@;
    let field = "name=\"_csrf\" value=\""@;
    assert(form_open =~= before + field);
    let after = "\"><div><label>Username<br><input type=\"text\" name=\"username\" value=\""@;
    let quote = "\""@;
    assert(after =~= quote + after.skip(1));
    let body = login_body(username, csrf, error);
    let x = "<h1>Log in</h1>"@ + error_html(error) + before;
    let part = field + html_escape(csrf) + quote;
    let tail = body.skip(x.len() + part.len() as int);
    assert(body =~= x + part + tail);
    lemma_occurs_in_middle(x, part, tail);
}

} // verus!
