use forum::handlers::{
    csrf_matches, delete_request, new_message_request, new_topic_request, page_csrf,
    topic_location, DeleteDecision, DeleteForm, MessageDecision, NewTopicForm, PostForm,
    TopicDecision,
};

fn tok(s: &str) -> Option<String> {
    Some(s.to_string())
}

#[test]
fn csrf_compares_session_and_form_tokens() {
    assert!(csrf_matches(Some("3:abc"), &tok("abc")));
    assert!(!csrf_matches(Some("3:abc"), &tok("abd")));
    assert!(!csrf_matches(Some("3:abc"), &None));
    // A missing token on both sides counts as the same empty token.
    assert!(csrf_matches(Some("3:"), &None));
    assert!(csrf_matches(None, &None));
    assert!(csrf_matches(None, &tok("")));
    assert_eq!(page_csrf(Some("3:abc")), "abc");
    assert_eq!(page_csrf(Some("junk")), "");
}

#[test]
fn new_topic_checks_in_order() {
    let f = NewTopicForm { title: "  Hello World  ".into(), _csrf: tok("t") };
    assert!(matches!(new_topic_request(Some("1:x"), &f), TopicDecision::Forbidden));
    match new_topic_request(Some("1:t"), &f) {
        TopicDecision::Create { title, slug } => {
            assert_eq!(title, "Hello World");
            assert_eq!(slug.candidate(), "hello-world");
        }
        other => panic!("{other:?}"),
    }
    let f = NewTopicForm { title: " \t ".into(), _csrf: tok("t") };
    match new_topic_request(Some("1:t"), &f) {
        TopicDecision::Invalid { error } => assert_eq!(error, "Topic title cannot be empty."),
        other => panic!("{other:?}"),
    }
    let f = NewTopicForm { title: "?!?".into(), _csrf: tok("t") };
    match new_topic_request(Some("1:t"), &f) {
        TopicDecision::Invalid { error } => {
            assert_eq!(error, "Topic title must contain letters or numbers.")
        }
        other => panic!("{other:?}"),
    }
    // The token is checked before the title.
    let f = NewTopicForm { title: "".into(), _csrf: tok("bad") };
    assert!(matches!(new_topic_request(Some("1:t"), &f), TopicDecision::Forbidden));
}

#[test]
fn new_message_checks() {
    let f = PostForm { body: "  hi there \n".into(), _csrf: tok("t") };
    assert!(matches!(new_message_request(Some("1:u"), &f, 100), MessageDecision::Forbidden));
    match new_message_request(Some("1:t"), &f, 100) {
        MessageDecision::Create { body } => assert_eq!(body, "hi there"),
        other => panic!("{other:?}"),
    }
    match new_message_request(Some("1:t"), &f, 8) {
        MessageDecision::Create { body } => assert_eq!(body, "hi there"),
        other => panic!("{other:?}"),
    }
    match new_message_request(Some("1:t"), &f, 7) {
        MessageDecision::Invalid { error } => assert_eq!(error, "Message is too long."),
        other => panic!("{other:?}"),
    }
    let f = PostForm { body: "héé".into(), _csrf: tok("t") };
    assert!(matches!(new_message_request(Some("1:t"), &f, 4), MessageDecision::Invalid { .. }));
    assert!(matches!(new_message_request(Some("1:t"), &f, 5), MessageDecision::Create { .. }));
    let f = PostForm { body: "   ".into(), _csrf: tok("t") };
    match new_message_request(Some("1:t"), &f, 100) {
        MessageDecision::Invalid { error } => assert_eq!(error, "Message cannot be empty."),
        other => panic!("{other:?}"),
    }
}

#[test]
fn delete_checks_token() {
    let f = DeleteForm { msg_id: 12, _csrf: tok("t") };
    assert_eq!(delete_request(Some("1:t"), &f), DeleteDecision::Delete { msg_id: 12 });
    assert_eq!(delete_request(Some("1:u"), &f), DeleteDecision::Forbidden);
}

#[test]
fn topic_locations() {
    assert_eq!(topic_location("hello-world"), "/hello-world");
    assert_eq!(topic_location(""), "/");
}

#[test]
fn page_token_passes_the_check() {
    for cookie in [Some("4:abc"), Some("4:"), Some("nonsense"), None] {
        let token = page_csrf(cookie);
        assert!(csrf_matches(cookie, &Some(token)));
    }
}
