//! The decisions of the topic and thread pages: checking a form's CSRF token
//! and its fields, and what to store or show in answer.

use vstd::prelude::*;

use crate::auth::{constant_time_eq, get_session_csrf, opt_view, session_csrf_spec, submitted_str, submitted_token};
use crate::slug::{slugify, slugify_spec, SlugSearch};
use crate::text::{push_str, trim, trim_str, utf8_len_exceeds};

verus! {

/// The fields of the form that creates a topic.
#[derive(Debug)]
pub struct NewTopicForm {
    pub title: String,
    pub _csrf: Option<String>,
}

/// The fields of the form that deletes a message.
#[derive(Debug)]
pub struct DeleteForm {
    pub msg_id: i64,
    pub _csrf: Option<String>,
}

/// The fields of the form that posts a message.
#[derive(Debug)]
pub struct PostForm {
    pub body: String,
    pub _csrf: Option<String>,
}

/// The session's CSRF token, or the empty string when there is none.
pub open spec fn session_csrf_or_empty(cookie: Option<Seq<char>>) -> Seq<char> {
    match session_csrf_spec(cookie) {
        Some(t) => t,
        None => Seq::empty(),
    }
}

/// Whether a form of a logged-in page may be processed: the token it
/// submitted equals the session's token, a missing one counting as empty on
/// either side.
pub open spec fn form_csrf_ok(cookie: Option<Seq<char>>, submitted: Option<String>) -> bool {
    session_csrf_or_empty(cookie) == submitted_token(submitted)
}

/// Compares the token a form submitted with the session's token.
pub fn csrf_matches(session_cookie: Option<&str>, submitted: &Option<String>) -> (ok: bool)
    ensures
        ok == form_csrf_ok(opt_view(session_cookie), *submitted),
{
    let expected = match get_session_csrf(session_cookie) {
        Some(t) => t,
        None => String::new(),
    };
    constant_time_eq(expected.as_str(), submitted_str(submitted))
}

/// The CSRF token to embed in the forms of a page: the session's, or empty.
pub fn page_csrf(session_cookie: Option<&str>) -> (t: String)
    ensures
        t@ == session_csrf_or_empty(opt_view(session_cookie)),
{
    match get_session_csrf(session_cookie) {
        Some(t) => t,
        None => String::new(),
    }
}

/// A form that submits the token its page embedded (`page_csrf`) passes the
/// CSRF check.
pub proof fn lemma_page_token_accepted(cookie: Option<Seq<char>>, token: String)
    requires
        token@ == session_csrf_or_empty(cookie),
    ensures
        form_csrf_ok(cookie, Some(token)),
{
}

/// Where a topic lives: `/` followed by its slug.
pub fn topic_location(slug: &str) -> (path: String)
    ensures
        path@ == "/"@ + slug@,
{
    let mut path = "/".to_owned();
    push_str(&mut path, slug);
    path
}

/// What a new-topic form answers.
#[derive(Debug)]
pub enum TopicDecision {
    /// The CSRF token does not match: 403.
    Forbidden,
    /// The topic list again with status 400 and this error.
    Invalid { error: String },
    /// Create a topic with this (trimmed) title, under the first slug of
    /// `slug` that no topic uses.
    Create { title: String, slug: SlugSearch },
}

/// Checks a new-topic form: its CSRF token, then that the trimmed title is
/// not empty, then that it has a letter or a digit to make a slug of.
pub fn new_topic_request(session_cookie: Option<&str>, form: &NewTopicForm) -> (r: TopicDecision)
    ensures
        !form_csrf_ok(opt_view(session_cookie), form._csrf) ==> r is Forbidden,
        form_csrf_ok(opt_view(session_cookie), form._csrf) ==> {
            let title = trim(form.title@);
            if title.len() == 0 {
                r matches TopicDecision::Invalid { error } && error@ == "Topic title cannot be empty."@
            } else if slugify_spec(title).len() == 0 {
                r matches TopicDecision::Invalid { error } && error@
                    == "Topic title must contain letters or numbers."@
            } else {
                r matches TopicDecision::Create { title: t, slug } && t@ == title
                    && slug.base_view() == slugify_spec(title) && slug.taken_count() == 0
            }
        },
{
    if !csrf_matches(session_cookie, &form._csrf) {
        return TopicDecision::Forbidden;
    }
    let title = trim_str(form.title.as_str());
    if title.as_str().is_empty() {
        return TopicDecision::Invalid { error: "Topic title cannot be empty.".to_owned() };
    }
    let base = slugify(title.as_str());
    if base.as_str().is_empty() {
        return TopicDecision::Invalid {
            error: "Topic title must contain letters or numbers.".to_owned(),
        };
    }
    let slug = SlugSearch::new(base.as_str());
    TopicDecision::Create { title, slug }
}

/// What a new-message form answers, once its topic was found.
#[derive(Debug)]
pub enum MessageDecision {
    /// The CSRF token does not match: 403.
    Forbidden,
    /// The thread again with status 400, this error and the submitted text.
    Invalid { error: String },
    /// Store this (trimmed) message.
    Create { body: String },
}

/// Checks a new-message form: its CSRF token, then that the trimmed message
/// is not empty and takes at most `max_body_bytes` bytes in UTF-8.
pub fn new_message_request(session_cookie: Option<&str>, form: &PostForm, max_body_bytes: u64) -> (r:
    MessageDecision)
    ensures
        !form_csrf_ok(opt_view(session_cookie), form._csrf) ==> r is Forbidden,
        form_csrf_ok(opt_view(session_cookie), form._csrf) ==> {
            let body = trim(form.body@);
            if body.len() == 0 {
                r matches MessageDecision::Invalid { error } && error@ == "Message cannot be empty."@
            } else if vstd::utf8::encode_utf8(body).len() > max_body_bytes {
                r matches MessageDecision::Invalid { error } && error@ == "Message is too long."@
            } else {
                r matches MessageDecision::Create { body: b } && b@ == body
            }
        },
{
    if !csrf_matches(session_cookie, &form._csrf) {
        return MessageDecision::Forbidden;
    }
    let body = trim_str(form.body.as_str());
    if body.as_str().is_empty() {
        return MessageDecision::Invalid { error: "Message cannot be empty.".to_owned() };
    }
    if utf8_len_exceeds(body.as_str(), max_body_bytes) {
        return MessageDecision::Invalid { error: "Message is too long.".to_owned() };
    }
    MessageDecision::Create { body }
}

/// What a delete form answers, once its topic was found.
#[derive(Debug, PartialEq, Eq, Structural)]
pub enum DeleteDecision {
    /// The CSRF token does not match: 403.
    Forbidden,
    /// Delete message `msg_id` if the requester wrote it and it is the
    /// topic's latest; then redirect to the topic.
    Delete { msg_id: i64 },
}

/// Checks a delete form's CSRF token.
pub fn delete_request(session_cookie: Option<&str>, form: &DeleteForm) -> (r: DeleteDecision)
    ensures
        form_csrf_ok(opt_view(session_cookie), form._csrf) ==> r == (DeleteDecision::Delete {
            msg_id: form.msg_id,
        }),
        !form_csrf_ok(opt_view(session_cookie), form._csrf) ==> r is Forbidden,
{
    if csrf_matches(session_cookie, &form._csrf) {
        DeleteDecision::Delete { msg_id: form.msg_id }
    } else {
        DeleteDecision::Forbidden
    }
}

} // verus!
