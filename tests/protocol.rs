use seymour::protocol::{Command, ParseCommandError, Response};

fn parse(line: &str) -> Result<Command, ParseCommandError> {
    Command::from_str(line)
}

#[test]
fn user_command_reads_its_name() {
    match parse("USER alice") {
        Ok(Command::User { username }) => assert_eq!(username, "alice"),
        _ => panic!("expected USER"),
    }
}

#[test]
fn commands_without_arguments() {
    assert!(matches!(parse("LISTSUBSCRIPTIONS"), Ok(Command::ListSubscriptions)));
    assert!(matches!(parse("LISTUNREAD"), Ok(Command::ListUnread)));
}

#[test]
fn subscribe_reads_its_url() {
    match parse("SUBSCRIBE gemini://example.org/gemlog/") {
        Ok(Command::Subscribe { url }) => assert_eq!(url, "gemini://example.org/gemlog/"),
        _ => panic!("expected SUBSCRIBE"),
    }
}

#[test]
fn ids_are_signed_integers() {
    assert!(matches!(parse("UNSUBSCRIBE 42"), Ok(Command::Unsubscribe { id: 42 })));
    assert!(matches!(parse("MARKREAD -7"), Ok(Command::MarkRead { id: -7 })));
    assert!(matches!(parse("MARKREAD +7"), Ok(Command::MarkRead { id: 7 })));
    assert!(matches!(
        parse("MARKREAD 9223372036854775807"),
        Ok(Command::MarkRead { id: 9223372036854775807 })
    ));
    assert!(matches!(
        parse("MARKREAD -9223372036854775808"),
        Ok(Command::MarkRead { id: i64::MIN })
    ));
}

#[test]
fn unknown_command_is_reported_with_its_word() {
    let e = parse("FOO").err().expect("FOO is no command");
    match &e {
        ParseCommandError::UnknownCommand(w) => assert_eq!(w, "FOO"),
        _ => panic!("expected an unknown command"),
    }
    assert_eq!(e.message(), "unknown command \"FOO\"");
    assert_eq!(Response::from(e).to_line(), "41 unknown command \"FOO\"");
}

#[test]
fn empty_line_is_an_unknown_command() {
    let e = parse("").err().expect("an empty line is no command");
    assert_eq!(e.message(), "unknown command \"\"");
}

#[test]
fn too_many_arguments() {
    let e = parse("LISTUNREAD now").err().expect("too many");
    assert!(matches!(e, ParseCommandError::TooManyArguments { expected: 0, actual: 1 }));
    assert_eq!(e.message(), "too many arguments (expected 0, got 1)");
    let e = parse("USER a b c").err().expect("too many");
    assert_eq!(e.message(), "too many arguments (expected 1, got 3)");
}

#[test]
fn missing_argument() {
    let e = parse("USER").err().expect("missing");
    assert_eq!(e.message(), "missing argument \"username\"");
    let e = parse("SUBSCRIBE").err().expect("missing");
    assert_eq!(e.message(), "missing argument \"url\"");
    let e = parse("MARKREAD").err().expect("missing");
    assert_eq!(e.message(), "missing argument \"id\"");
}

#[test]
fn invalid_integer_argument() {
    let e = parse("UNSUBSCRIBE twelve").err().expect("not a number");
    assert_eq!(e.message(), "invalid integer value \"twelve\" for argument \"id\"");
    let e = parse("MARKREAD 9223372036854775808").err().expect("too large");
    assert!(matches!(e, ParseCommandError::InvalidIntegerArgument { .. }));
    assert!(parse("MARKREAD -").is_err());
    assert!(parse("MARKREAD ").is_err());
}

#[test]
fn response_lines() {
    assert_eq!(Response::AckUser { id: 7 }.to_line(), "20 7");
    assert_eq!(Response::StartSubscriptionList.to_line(), "21");
    assert_eq!(
        Response::Subscription { id: 3, url: "gemini://x/".to_string() }.to_line(),
        "22 3 gemini://x/"
    );
    assert_eq!(Response::StartEntryList.to_line(), "23");
    assert_eq!(
        Response::Entry {
            id: 1,
            feed_id: -2,
            feed_url: "gemini://f/".to_string(),
            title: "A title".to_string(),
            url: "gemini://f/a".to_string(),
        }
        .to_line(),
        "24 1 -2 gemini://f/ gemini://f/a :A title"
    );
    assert_eq!(Response::EndList.to_line(), "25");
    assert_eq!(Response::AckSubscribe.to_line(), "26");
    assert_eq!(Response::AckUnsubscribe.to_line(), "27");
    assert_eq!(Response::AckMarkRead.to_line(), "28");
    assert_eq!(Response::ResourceNotFound("gone".to_string()).to_line(), "40 gone");
    assert_eq!(Response::BadCommand("bad".to_string()).to_line(), "41 bad");
    assert_eq!(Response::NeedUser("who".to_string()).to_line(), "42 who");
    assert_eq!(Response::InternalError("oops".to_string()).to_line(), "51 oops");
    assert_eq!(Response::EndList.to_wire(), "25\r\n");
}

#[test]
fn commands_write_back_as_lines() {
    let cases = [
        "USER alice",
        "LISTSUBSCRIPTIONS",
        "SUBSCRIBE gemini://x/",
        "UNSUBSCRIBE -3",
        "LISTUNREAD",
        "MARKREAD 12",
    ];
    for line in cases {
        let c = parse(line).ok().expect("command");
        assert_eq!(c.to_line(), line);
    }
}
