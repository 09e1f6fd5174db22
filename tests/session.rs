use seymour::protocol::Response;
use seymour::session::{LineAction, Session, StoreRequest, StoreResult, SubscriptionRow, UnreadRow};

fn lines(rs: &[Response]) -> Vec<String> {
    rs.iter().map(|r| r.to_line()).collect()
}

fn reply(a: LineAction) -> Vec<String> {
    match a {
        LineAction::Reply(rs) => lines(&rs),
        LineAction::Ask(_) => panic!("expected a reply"),
    }
}

fn named(s: &mut Session, name: &str, id: i64) {
    let q = match s.on_line(&format!("USER {}", name)) {
        LineAction::Ask(q) => q,
        LineAction::Reply(_) => panic!("expected a store request"),
    };
    assert_eq!(lines(&s.on_result(q, StoreResult::User { id })), vec![format!("20 {}", id)]);
}

#[test]
fn unparseable_line_gets_one_bad_command_reply() {
    let mut s = Session::new();
    assert_eq!(reply(s.on_line("FOO")), vec!["41 unknown command \"FOO\"".to_string()]);
    named(&mut s, "bob", 3);
    assert_eq!(s.user.as_ref().map(|u| u.1), Some(3));
    assert_eq!(reply(s.on_line("FOO")), vec!["41 unknown command \"FOO\"".to_string()]);
    assert!(matches!(s.on_line("LISTUNREAD"), LineAction::Ask(StoreRequest::ListUnread { user_id: 3 })));
}

#[test]
fn commands_need_a_user_first() {
    let s = Session::new();
    for line in ["LISTSUBSCRIPTIONS", "SUBSCRIBE gemini://x/", "UNSUBSCRIBE 1", "LISTUNREAD", "MARKREAD 2"] {
        assert_eq!(reply(s.on_line(line)), vec!["42 must select a user".to_string()]);
    }
}

#[test]
fn requests_carry_the_user() {
    let mut s = Session::new();
    named(&mut s, "ann", 9);
    match s.on_line("SUBSCRIBE gemini://x/") {
        LineAction::Ask(StoreRequest::Subscribe { user_id, url }) => {
            assert_eq!(user_id, 9);
            assert_eq!(url, "gemini://x/");
        }
        _ => panic!("expected a subscription"),
    }
    assert!(matches!(
        s.on_line("UNSUBSCRIBE 4"),
        LineAction::Ask(StoreRequest::Unsubscribe { user_id: 9, feed_id: 4 })
    ));
    assert!(matches!(
        s.on_line("MARKREAD 5"),
        LineAction::Ask(StoreRequest::MarkRead { user_id: 9, entry_id: 5 })
    ));
}

#[test]
fn list_results_are_framed() {
    let mut s = Session::new();
    let rows = vec![
        SubscriptionRow { feed_id: 1, url: "gemini://a/".to_string() },
        SubscriptionRow { feed_id: 2, url: "gemini://b/".to_string() },
    ];
    let out = s.on_result(StoreRequest::ListSubscriptions { user_id: 1 }, StoreResult::Subscriptions(rows));
    assert_eq!(lines(&out), vec!["21", "22 1 gemini://a/", "22 2 gemini://b/", "25"]);
    let rows = vec![UnreadRow {
        id: 10,
        feed_id: 1,
        feed_url: "gemini://a/".to_string(),
        url: "gemini://a/post".to_string(),
        title: "Post".to_string(),
    }];
    let out = s.on_result(StoreRequest::ListUnread { user_id: 1 }, StoreResult::Unread(rows));
    assert_eq!(lines(&out), vec!["23", "24 10 1 gemini://a/ gemini://a/post :Post", "25"]);
    let out = s.on_result(StoreRequest::ListUnread { user_id: 1 }, StoreResult::Unread(vec![]));
    assert_eq!(lines(&out), vec!["23", "25"]);
    assert!(s.user.is_none());
}

#[test]
fn acknowledgements_and_failures() {
    let mut s = Session::new();
    let unsub = || StoreRequest::Unsubscribe { user_id: 1, feed_id: 9 };
    assert_eq!(lines(&s.on_result(unsub(), StoreResult::Unsubscribed { removed: 1 })), vec!["27"]);
    assert_eq!(
        lines(&s.on_result(unsub(), StoreResult::Unsubscribed { removed: 0 })),
        vec!["40 no subscription with feed ID 9 exists"]
    );
    let sub = StoreRequest::Subscribe { user_id: 1, url: "gemini://x/".to_string() };
    assert_eq!(lines(&s.on_result(sub, StoreResult::Subscribed)), vec!["26"]);
    let mark = StoreRequest::MarkRead { user_id: 1, entry_id: 2 };
    assert_eq!(lines(&s.on_result(mark, StoreResult::MarkedRead)), vec!["28"]);
    let mark = StoreRequest::MarkRead { user_id: 1, entry_id: 2 };
    assert_eq!(lines(&s.on_result(mark, StoreResult::Failed("disk full".to_string()))), vec!["51 disk full"]);
}
