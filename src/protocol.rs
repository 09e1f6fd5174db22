//! The line protocol spoken with clients: commands in, numbered responses out.
//!
//! ```text
//! > USER <username>          < 20 <user_id>
//! > LISTSUBSCRIPTIONS        < 21, 22 <feed_id> <url> per row, 25
//! > SUBSCRIBE <url>          < 26
//! > UNSUBSCRIBE <feed_id>    < 27, or 40 <message>
//! > LISTUNREAD               < 23, 24 <entry_id> <feed_id> <feed_url> <url> :<title> per row, 25
//! > MARKREAD <entry_id>      < 28
//! ```

use vstd::prelude::*;

use crate::text::{
    chars_of, eq_str, int_text, nat_text, parse_i64, parse_i64_chars, push_chars, push_int,
    push_nat, push_str, split, split_chars, string_of, views,
};

verus! {

pub enum Command {
    User { username: String },
    ListSubscriptions,
    Subscribe { url: String },
    Unsubscribe { id: i64 },
    ListUnread,
    MarkRead { id: i64 },
}

/// What a command says, over plain values.
pub enum CommandView {
    User { username: Seq<char> },
    ListSubscriptions,
    Subscribe { url: Seq<char> },
    Unsubscribe { id: i64 },
    ListUnread,
    MarkRead { id: i64 },
}

impl View for Command {
    type V = CommandView;

    open spec fn view(&self) -> CommandView {
        match self {
            Command::User { username } => CommandView::User { username: username@ },
            Command::ListSubscriptions => CommandView::ListSubscriptions,
            Command::Subscribe { url } => CommandView::Subscribe { url: url@ },
            Command::Unsubscribe { id } => CommandView::Unsubscribe { id: *id },
            Command::ListUnread => CommandView::ListUnread,
            Command::MarkRead { id } => CommandView::MarkRead { id: *id },
        }
    }
}

pub enum ParseCommandError {
    EmptyCommand,
    UnknownCommand(String),
    MissingArgument(String),
    TooManyArguments { expected: usize, actual: usize },
    InvalidIntegerArgument { argument: String, value: String },
}

pub enum ParseCommandErrorView {
    EmptyCommand,
    UnknownCommand(Seq<char>),
    MissingArgument(Seq<char>),
    TooManyArguments { expected: usize, actual: usize },
    InvalidIntegerArgument { argument: Seq<char>, value: Seq<char> },
}

impl View for ParseCommandError {
    type V = ParseCommandErrorView;

    open spec fn view(&self) -> ParseCommandErrorView {
        match self {
            ParseCommandError::EmptyCommand => ParseCommandErrorView::EmptyCommand,
            ParseCommandError::UnknownCommand(c) => ParseCommandErrorView::UnknownCommand(c@),
            ParseCommandError::MissingArgument(a) => ParseCommandErrorView::MissingArgument(a@),
            ParseCommandError::TooManyArguments { expected, actual } => {
                ParseCommandErrorView::TooManyArguments { expected: *expected, actual: *actual }
            },
            ParseCommandError::InvalidIntegerArgument { argument, value } => {
                ParseCommandErrorView::InvalidIntegerArgument {
                    argument: argument@,
                    value: value@,
                }
            },
        }
    }
}

/// A quoted word: `"w"`.
pub open spec fn quoted(w: Seq<char>) -> Seq<char> {
    seq!['"'] + w + seq!['"']
}

impl ParseCommandErrorView {
    /// The text that explains the error to the client.
    pub open spec fn message(self) -> Seq<char> {
        match self {
            ParseCommandErrorView::EmptyCommand => "empty command"@,
            ParseCommandErrorView::UnknownCommand(c) => "unknown command "@ + quoted(c),
            ParseCommandErrorView::MissingArgument(a) => "missing argument "@ + quoted(a),
            ParseCommandErrorView::TooManyArguments { expected, actual } => "too many arguments (expected "@
                + nat_text(expected as nat) + ", got "@ + nat_text(actual as nat) + ")"@,
            ParseCommandErrorView::InvalidIntegerArgument { argument, value } => "invalid integer value "@
                + quoted(value) + " for argument "@ + quoted(argument),
        }
    }
}

/// The result of reading one argument as an `i64`.
pub open spec fn int_argument(name: Seq<char>, value: Seq<char>) -> Result<
    i64,
    ParseCommandErrorView,
> {
    match parse_i64(value) {
        Some(v) => Ok(v),
        None => Err(ParseCommandErrorView::InvalidIntegerArgument { argument: name, value }),
    }
}

/// `parts` holds no more than the command word and `expected` arguments.
pub open spec fn arguments_fit(parts: Seq<Seq<char>>, expected: usize) -> Result<
    (),
    ParseCommandErrorView,
> {
    if parts.len() > expected + 1 {
        Err(
            ParseCommandErrorView::TooManyArguments {
                expected,
                actual: (parts.len() - 1) as usize,
            },
        )
    } else {
        Ok(())
    }
}

/// The command that one client line asks for, with its words separated by
/// single spaces.
pub open spec fn command_of(line: Seq<char>) -> Result<CommandView, ParseCommandErrorView> {
    let parts = split(line, ' ');
    let word = parts[0];
    if word == "USER"@ {
        match arguments_fit(parts, 1) {
            Err(e) => Err(e),
            Ok(_) => if parts.len() < 2 {
                Err(ParseCommandErrorView::MissingArgument("username"@))
            } else {
                Ok(CommandView::User { username: parts[1] })
            },
        }
    } else if word == "LISTSUBSCRIPTIONS"@ {
        match arguments_fit(parts, 0) {
            Err(e) => Err(e),
            Ok(_) => Ok(CommandView::ListSubscriptions),
        }
    } else if word == "SUBSCRIBE"@ {
        match arguments_fit(parts, 1) {
            Err(e) => Err(e),
            Ok(_) => if parts.len() < 2 {
                Err(ParseCommandErrorView::MissingArgument("url"@))
            } else {
                Ok(CommandView::Subscribe { url: parts[1] })
            },
        }
    } else if word == "UNSUBSCRIBE"@ {
        match arguments_fit(parts, 1) {
            Err(e) => Err(e),
            Ok(_) => if parts.len() < 2 {
                Err(ParseCommandErrorView::MissingArgument("id"@))
            } else {
                match int_argument("id"@, parts[1]) {
                    Ok(id) => Ok(CommandView::Unsubscribe { id }),
                    Err(e) => Err(e),
                }
            },
        }
    } else if word == "MARKREAD"@ {
        match arguments_fit(parts, 1) {
            Err(e) => Err(e),
            Ok(_) => if parts.len() < 2 {
                Err(ParseCommandErrorView::MissingArgument("id"@))
            } else {
                match int_argument("id"@, parts[1]) {
                    Ok(id) => Ok(CommandView::MarkRead { id }),
                    Err(e) => Err(e),
                }
            },
        }
    } else if word == "LISTUNREAD"@ {
        match arguments_fit(parts, 0) {
            Err(e) => Err(e),
            Ok(_) => Ok(CommandView::ListUnread),
        }
    } else {
        Err(ParseCommandErrorView::UnknownCommand(word))
    }
}

impl CommandView {
    /// The line that sends the command.
    pub open spec fn line(self) -> Seq<char> {
        match self {
            CommandView::User { username } => "USER "@ + username,
            CommandView::ListSubscriptions => "LISTSUBSCRIPTIONS"@,
            CommandView::Subscribe { url } => "SUBSCRIBE "@ + url,
            CommandView::Unsubscribe { id } => "UNSUBSCRIBE "@ + int_text(id as int),
            CommandView::ListUnread => "LISTUNREAD"@,
            CommandView::MarkRead { id } => "MARKREAD "@ + int_text(id as int),
        }
    }
}

/// The arguments of a command hold no space, so its line reads back whole.
pub open spec fn plain_arguments(c: CommandView) -> bool {
    match c {
        CommandView::User { username } => !username.contains(' '),
        CommandView::Subscribe { url } => !url.contains(' '),
        _ => true,
    }
}

/// A command written as a line reads back as the same command, when its
/// arguments hold no space.
pub proof fn lemma_command_round_trip(c: CommandView)
    requires
        plain_arguments(c),
    ensures
        command_of(c.line()) == Ok::<CommandView, ParseCommandErrorView>(c),
{
    match c {
        CommandView::User { username } => lemma_user_round_trip(username),
        CommandView::ListSubscriptions => lemma_bare_round_trip(c, "LISTSUBSCRIPTIONS"@),
        CommandView::Subscribe { url } => lemma_subscribe_round_trip(url),
        CommandView::Unsubscribe { id } => lemma_id_round_trip(c, "UNSUBSCRIBE"@, id),
        CommandView::ListUnread => lemma_bare_round_trip(c, "LISTUNREAD"@),
        CommandView::MarkRead { id } => lemma_id_round_trip(c, "MARKREAD"@, id),
    }
}

proof fn lemma_words()
    ensures
        "USER"@.len() == 4,
        "LISTSUBSCRIPTIONS"@.len() == 17,
        "SUBSCRIBE"@.len() == 9,
        "UNSUBSCRIBE"@.len() == 11,
        "MARKREAD"@.len() == 8,
        "LISTUNREAD"@.len() == 10,
        !"USER"@.contains(' '),
        !"LISTSUBSCRIPTIONS"@.contains(' '),
        !"SUBSCRIBE"@.contains(' '),
        !"UNSUBSCRIBE"@.contains(' '),
        !"MARKREAD"@.contains(' '),
        !"LISTUNREAD"@.contains(' '),
        "USER "@ == "USER"@ + seq![' '],
        "SUBSCRIBE "@ == "SUBSCRIBE"@ + seq![' '],
        "UNSUBSCRIBE "@ == "UNSUBSCRIBE"@ + seq![' '],
        "MARKREAD "@ == "MARKREAD"@ + seq![' '],
{
    reveal_strlit("USER");
    reveal_strlit("USER ");
    reveal_strlit("LISTSUBSCRIPTIONS");
    reveal_strlit("SUBSCRIBE");
    reveal_strlit("SUBSCRIBE ");
    reveal_strlit("UNSUBSCRIBE");
    reveal_strlit("UNSUBSCRIBE ");
    reveal_strlit("LISTUNREAD");
    reveal_strlit("MARKREAD");
    reveal_strlit("MARKREAD ");
    assert("USER "@ =~= "USER"@ + seq![' ']);
    assert("SUBSCRIBE "@ =~= "SUBSCRIBE"@ + seq![' ']);
    assert("UNSUBSCRIBE "@ =~= "UNSUBSCRIBE"@ + seq![' ']);
    assert("MARKREAD "@ =~= "MARKREAD"@ + seq![' ']);
}

proof fn lemma_user_round_trip(username: Seq<char>)
    requires
        !username.contains(' '),
    ensures
        command_of(CommandView::User { username }.line()) == Ok::<
            CommandView,
            ParseCommandErrorView,
        >(CommandView::User { username }),
{
    lemma_words();
    crate::text::lemma_split_two("USER"@, username, ' ');
    assert("USER "@ + username =~= "USER"@ + seq![' '] + username);
}

proof fn lemma_subscribe_round_trip(url: Seq<char>)
    requires
        !url.contains(' '),
    ensures
        command_of(CommandView::Subscribe { url }.line()) == Ok::<
            CommandView,
            ParseCommandErrorView,
        >(CommandView::Subscribe { url }),
{
    lemma_words();
    crate::text::lemma_split_two("SUBSCRIBE"@, url, ' ');
    assert("SUBSCRIBE "@ + url =~= "SUBSCRIBE"@ + seq![' '] + url);
}

proof fn lemma_bare_round_trip(c: CommandView, w: Seq<char>)
    requires
        c is ListSubscriptions && w == "LISTSUBSCRIPTIONS"@ || c is ListUnread && w
            == "LISTUNREAD"@,
    ensures
        command_of(c.line()) == Ok::<CommandView, ParseCommandErrorView>(c),
{
    lemma_words();
    crate::text::lemma_split_two(w, seq![], ' ');
}

proof fn lemma_id_round_trip(c: CommandView, w: Seq<char>, id: i64)
    requires
        c == (CommandView::Unsubscribe { id }) && w == "UNSUBSCRIBE"@ || c
            == (CommandView::MarkRead { id }) && w == "MARKREAD"@,
    ensures
        command_of(c.line()) == Ok::<CommandView, ParseCommandErrorView>(c),
{
    lemma_words();
    let t = int_text(id as int);
    lemma_no_space_in_int_text(id);
    crate::text::lemma_split_two(w, t, ' ');
    assert(w + seq![' '] + t =~= (w + seq![' ']) + t);
    crate::text::lemma_int_text(id);
}

proof fn lemma_no_space_in_int_text(n: i64)
    ensures
        !int_text(n as int).contains(' '),
{
    let t = int_text(n as int);
    if n < 0 {
        crate::text::lemma_nat_text((0 - n) as nat);
        assert forall|i: int| 0 <= i < t.len() implies t[i] != ' ' by {
            if i > 0 {
                assert(t[i] == nat_text((0 - n) as nat)[i - 1]);
            }
        }
    } else {
        crate::text::lemma_nat_text(n as nat);
        assert forall|i: int| 0 <= i < t.len() implies t[i] != ' ' by {
            assert(crate::text::is_digit(t[i]));
        }
    }
}

/// Refuses a command line with more than `expected` arguments after its word.
pub fn check_arguments(parts: &Vec<Vec<char>>, expected: usize) -> (r: Result<
    (),
    ParseCommandError,
>)
    requires
        expected < usize::MAX,
    ensures
        match r {
            Ok(()) => arguments_fit(views(parts@), expected) == Ok::<(), ParseCommandErrorView>(()),
            Err(e) => arguments_fit(views(parts@), expected) == Err::<(), ParseCommandErrorView>(e@),
        },
{
    if parts.len() > expected + 1 {
        return Err(ParseCommandError::TooManyArguments { expected, actual: parts.len() - 1 });
    }
    Ok(())
}

fn int_argument_of(name: &str, value: &Vec<char>) -> (r: Result<i64, ParseCommandError>)
    ensures
        match r {
            Ok(v) => int_argument(name@, value@) == Ok::<i64, ParseCommandErrorView>(v),
            Err(e) => int_argument(name@, value@) == Err::<i64, ParseCommandErrorView>(e@),
        },
{
    match parse_i64_chars(value) {
        Some(v) => Ok(v),
        None => Err(
            ParseCommandError::InvalidIntegerArgument {
                argument: string_of(chars_of(name)),
                value: string_of(copy_chars(value)),
            },
        ),
    }
}

fn copy_chars(v: &Vec<char>) -> (r: Vec<char>)
    ensures
        r@ == v@,
{
    let mut r: Vec<char> = Vec::new();
    push_chars(&mut r, v);
    r
}

fn missing(name: &str) -> (r: ParseCommandError)
    ensures
        r@ == ParseCommandErrorView::MissingArgument(name@),
{
    ParseCommandError::MissingArgument(string_of(chars_of(name)))
}

impl Command {
    /// The line that sends the command.
    pub fn to_line(&self) -> (r: String)
        ensures
            r@ == self@.line(),
    {
        let mut out: Vec<char> = Vec::new();
        match self {
            Command::User { username } => {
                push_str(&mut out, "USER ");
                push_str(&mut out, username.as_str());
            },
            Command::ListSubscriptions => push_str(&mut out, "LISTSUBSCRIPTIONS"),
            Command::Subscribe { url } => {
                push_str(&mut out, "SUBSCRIBE ");
                push_str(&mut out, url.as_str());
            },
            Command::Unsubscribe { id } => {
                push_str(&mut out, "UNSUBSCRIBE ");
                push_int(&mut out, *id);
            },
            Command::ListUnread => push_str(&mut out, "LISTUNREAD"),
            Command::MarkRead { id } => {
                push_str(&mut out, "MARKREAD ");
                push_int(&mut out, *id);
            },
        }
        assert(out@ =~= self@.line());
        string_of(out)
    }

    /// Reads one client line.
    pub fn from_str(value: &str) -> (r: Result<Command, ParseCommandError>)
        ensures
            match r {
                Ok(c) => command_of(value@) == Ok::<CommandView, ParseCommandErrorView>(c@),
                Err(e) => command_of(value@) == Err::<CommandView, ParseCommandErrorView>(e@),
            },
    {
        let line = chars_of(value);
        let parts = split_chars(&line, ' ');
        proof {
            crate::text::lemma_split_from_nonempty(value@, ' ', 0, 0);
        }
        let ghost ps = views(parts@);
        assert(ps[0] == parts@[0]@);
        let word = &parts[0];
        if eq_str(word, "USER") {
            check_arguments(&parts, 1)?;
            if parts.len() < 2 {
                return Err(missing("username"));
            }
            assert(ps[1] == parts@[1]@);
            Ok(Command::User { username: string_of(copy_chars(&parts[1])) })
        } else if eq_str(word, "LISTSUBSCRIPTIONS") {
            check_arguments(&parts, 0)?;
            Ok(Command::ListSubscriptions)
        } else if eq_str(word, "SUBSCRIBE") {
            check_arguments(&parts, 1)?;
            if parts.len() < 2 {
                return Err(missing("url"));
            }
            assert(ps[1] == parts@[1]@);
            Ok(Command::Subscribe { url: string_of(copy_chars(&parts[1])) })
        } else if eq_str(word, "UNSUBSCRIBE") {
            check_arguments(&parts, 1)?;
            if parts.len() < 2 {
                return Err(missing("id"));
            }
            assert(ps[1] == parts@[1]@);
            let id = int_argument_of("id", &parts[1])?;
            Ok(Command::Unsubscribe { id })
        } else if eq_str(word, "MARKREAD") {
            check_arguments(&parts, 1)?;
            if parts.len() < 2 {
                return Err(missing("id"));
            }
            assert(ps[1] == parts@[1]@);
            let id = int_argument_of("id", &parts[1])?;
            Ok(Command::MarkRead { id })
        } else if eq_str(word, "LISTUNREAD") {
            check_arguments(&parts, 0)?;
            Ok(Command::ListUnread)
        } else {
            Err(ParseCommandError::UnknownCommand(string_of(copy_chars(word))))
        }
    }
}

fn push_quoted(out: &mut Vec<char>, w: &String)
    ensures
        final(out)@ == old(out)@ + quoted(w@),
{
    out.push('"');
    push_str(out, w.as_str());
    out.push('"');
    assert(final(out)@ =~= old(out)@ + quoted(w@));
}

impl ParseCommandError {
    /// The text that explains the error to the client.
    pub fn message(&self) -> (r: String)
        ensures
            r@ == self@.message(),
    {
        let mut out: Vec<char> = Vec::new();
        match self {
            ParseCommandError::EmptyCommand => {
                push_str(&mut out, "empty command");
            },
            ParseCommandError::UnknownCommand(c) => {
                push_str(&mut out, "unknown command ");
                push_quoted(&mut out, c);
            },
            ParseCommandError::MissingArgument(a) => {
                push_str(&mut out, "missing argument ");
                push_quoted(&mut out, a);
            },
            ParseCommandError::TooManyArguments { expected, actual } => {
                push_str(&mut out, "too many arguments (expected ");
                push_nat(&mut out, *expected as u64);
                push_str(&mut out, ", got ");
                push_nat(&mut out, *actual as u64);
                push_str(&mut out, ")");
            },
            ParseCommandError::InvalidIntegerArgument { argument, value } => {
                push_str(&mut out, "invalid integer value ");
                push_quoted(&mut out, value);
                push_str(&mut out, " for argument ");
                push_quoted(&mut out, argument);
            },
        }
        assert(out@ =~= self@.message());
        string_of(out)
    }
}

pub enum Response {
    AckUser { id: i64 },
    StartSubscriptionList,
    Subscription { id: i64, url: String },
    StartEntryList,
    Entry { id: i64, feed_id: i64, feed_url: String, title: String, url: String },
    EndList,
    AckSubscribe,
    AckUnsubscribe,
    AckMarkRead,
    ResourceNotFound(String),
    BadCommand(String),
    NeedUser(String),
    InternalError(String),
}

pub enum ResponseView {
    AckUser { id: i64 },
    StartSubscriptionList,
    Subscription { id: i64, url: Seq<char> },
    StartEntryList,
    Entry { id: i64, feed_id: i64, feed_url: Seq<char>, title: Seq<char>, url: Seq<char> },
    EndList,
    AckSubscribe,
    AckUnsubscribe,
    AckMarkRead,
    ResourceNotFound(Seq<char>),
    BadCommand(Seq<char>),
    NeedUser(Seq<char>),
    InternalError(Seq<char>),
}

impl View for Response {
    type V = ResponseView;

    open spec fn view(&self) -> ResponseView {
        match self {
            Response::AckUser { id } => ResponseView::AckUser { id: *id },
            Response::StartSubscriptionList => ResponseView::StartSubscriptionList,
            Response::Subscription { id, url } => ResponseView::Subscription { id: *id, url: url@ },
            Response::StartEntryList => ResponseView::StartEntryList,
            Response::Entry { id, feed_id, feed_url, title, url } => ResponseView::Entry {
                id: *id,
                feed_id: *feed_id,
                feed_url: feed_url@,
                title: title@,
                url: url@,
            },
            Response::EndList => ResponseView::EndList,
            Response::AckSubscribe => ResponseView::AckSubscribe,
            Response::AckUnsubscribe => ResponseView::AckUnsubscribe,
            Response::AckMarkRead => ResponseView::AckMarkRead,
            Response::ResourceNotFound(m) => ResponseView::ResourceNotFound(m@),
            Response::BadCommand(m) => ResponseView::BadCommand(m@),
            Response::NeedUser(m) => ResponseView::NeedUser(m@),
            Response::InternalError(m) => ResponseView::InternalError(m@),
        }
    }
}

impl ResponseView {
    /// The line sent for the response, without its line ending.
    pub open spec fn line(self) -> Seq<char> {
        match self {
            ResponseView::AckUser { id } => "20 "@ + int_text(id as int),
            ResponseView::StartSubscriptionList => "21"@,
            ResponseView::Subscription { id, url } => "22 "@ + int_text(id as int) + " "@ + url,
            ResponseView::StartEntryList => "23"@,
            ResponseView::Entry { id, feed_id, feed_url, title, url } => "24 "@ + int_text(
                id as int,
            ) + " "@ + int_text(feed_id as int) + " "@ + feed_url + " "@ + url + " :"@ + title,
            ResponseView::EndList => "25"@,
            ResponseView::AckSubscribe => "26"@,
            ResponseView::AckUnsubscribe => "27"@,
            ResponseView::AckMarkRead => "28"@,
            ResponseView::ResourceNotFound(m) => "40 "@ + m,
            ResponseView::BadCommand(m) => "41 "@ + m,
            ResponseView::NeedUser(m) => "42 "@ + m,
            ResponseView::InternalError(m) => "51 "@ + m,
        }
    }
}

impl Response {
    /// The line sent for the response, without its line ending.
    pub fn to_line(&self) -> (r: String)
        ensures
            r@ == self@.line(),
    {
        let mut out: Vec<char> = Vec::new();
        match self {
            Response::AckUser { id } => {
                push_str(&mut out, "20 ");
                push_int(&mut out, *id);
            },
            Response::StartSubscriptionList => push_str(&mut out, "21"),
            Response::Subscription { id, url } => {
                push_str(&mut out, "22 ");
                push_int(&mut out, *id);
                push_str(&mut out, " ");
                push_str(&mut out, url.as_str());
            },
            Response::StartEntryList => push_str(&mut out, "23"),
            Response::Entry { id, feed_id, feed_url, title, url } => {
                push_str(&mut out, "24 ");
                push_int(&mut out, *id);
                push_str(&mut out, " ");
                push_int(&mut out, *feed_id);
                push_str(&mut out, " ");
                push_str(&mut out, feed_url.as_str());
                push_str(&mut out, " ");
                push_str(&mut out, url.as_str());
                push_str(&mut out, " :");
                push_str(&mut out, title.as_str());
            },
            Response::EndList => push_str(&mut out, "25"),
            Response::AckSubscribe => push_str(&mut out, "26"),
            Response::AckUnsubscribe => push_str(&mut out, "27"),
            Response::AckMarkRead => push_str(&mut out, "28"),
            Response::ResourceNotFound(m) => {
                push_str(&mut out, "40 ");
                push_str(&mut out, m.as_str());
            },
            Response::BadCommand(m) => {
                push_str(&mut out, "41 ");
                push_str(&mut out, m.as_str());
            },
            Response::NeedUser(m) => {
                push_str(&mut out, "42 ");
                push_str(&mut out, m.as_str());
            },
            Response::InternalError(m) => {
                push_str(&mut out, "51 ");
                push_str(&mut out, m.as_str());
            },
        }
        assert(out@ =~= self@.line());
        string_of(out)
    }

    /// The line sent for the response, ended by `\r\n`.
    pub fn to_wire(&self) -> (r: String)
        ensures
            r@ == self@.line() + "\r\n"@,
    {
        let mut out = chars_of(self.to_line().as_str());
        push_str(&mut out, "\r\n");
        string_of(out)
    }
}

impl Response {
    /// The response that tells a client its line was not understood.
    pub fn from(e: ParseCommandError) -> (r: Response)
        ensures
            r@ == ResponseView::BadCommand(e@.message()),
    {
        Response::BadCommand(e.message())
    }
}

} // verus!
