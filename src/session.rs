//! What a client connection decides: each line becomes either an immediate
//! reply or a request to the store, and each store result becomes the
//! response lines sent back.

use vstd::prelude::*;

use crate::protocol::{Command, CommandView, Response, ResponseView, command_of};
use crate::text::{chars_of, int_text, push_int, push_str, string_of};

verus! {

/// The user a connection acts for, once one was named.
pub struct Session {
    pub user: Option<(String, i64)>,
}

/// A unit of work for the store.
pub enum StoreRequest {
    /// Find the user of this name, creating it if there is none.
    SelectUser { username: String },
    ListSubscriptions { user_id: i64 },
    /// Find or create the feed of this URL and subscribe the user to it.
    Subscribe { user_id: i64, url: String },
    Unsubscribe { user_id: i64, feed_id: i64 },
    ListUnread { user_id: i64 },
    MarkRead { user_id: i64, entry_id: i64 },
}

/// A feed that a user is subscribed to.
pub struct SubscriptionRow {
    pub feed_id: i64,
    pub url: String,
}

/// An entry that a user has not read.
pub struct UnreadRow {
    pub id: i64,
    pub feed_id: i64,
    pub feed_url: String,
    pub url: String,
    pub title: String,
}

/// What the store answered.
pub enum StoreResult {
    User { id: i64 },
    Subscriptions(Vec<SubscriptionRow>),
    Subscribed,
    /// The number of subscriptions removed.
    Unsubscribed { removed: u64 },
    Unread(Vec<UnreadRow>),
    MarkedRead,
    /// The store failed, for this reason.
    Failed(String),
}

/// What a connection does with a line.
pub enum LineAction {
    /// Send these responses; the store is not asked.
    Reply(Vec<Response>),
    /// Ask the store.
    Ask(StoreRequest),
}

/// Whether a command may only run once a user was named: all but `USER`.
pub open spec fn needs_user(c: CommandView) -> bool {
    !(c is User)
}

pub open spec fn need_user_message() -> Seq<char> {
    "must select a user"@
}

/// The message for an unsubscription that removed nothing.
pub open spec fn no_subscription_message(feed_id: i64) -> Seq<char> {
    "no subscription with feed ID "@ + int_text(feed_id as int) + " exists"@
}

/// The id of the user, if one was named.
pub open spec fn user_id_of(user: Option<(String, i64)>) -> i64 {
    match user {
        Some((_, id)) => id,
        None => 0,
    }
}

/// `q` is the store request for command `c` on behalf of `user`.
pub open spec fn request_for(c: CommandView, user: Option<(String, i64)>, q: StoreRequest) -> bool {
    let uid = user_id_of(user);
    match c {
        CommandView::User { username } => q matches StoreRequest::SelectUser { username: u }
            && u@ == username,
        CommandView::ListSubscriptions => q matches StoreRequest::ListSubscriptions { user_id }
            && user_id == uid,
        CommandView::Subscribe { url } => q matches StoreRequest::Subscribe { user_id, url: u }
            && user_id == uid && u@ == url,
        CommandView::Unsubscribe { id } => q matches StoreRequest::Unsubscribe { user_id, feed_id }
            && user_id == uid && feed_id == id,
        CommandView::ListUnread => q matches StoreRequest::ListUnread { user_id } && user_id == uid,
        CommandView::MarkRead { id } => q matches StoreRequest::MarkRead { user_id, entry_id }
            && user_id == uid && entry_id == id,
    }
}

pub open spec fn subscription_lines(rows: Seq<SubscriptionRow>) -> Seq<ResponseView> {
    rows.map_values(|r: SubscriptionRow| subscription_line(r))
}

pub open spec fn unread_lines(rows: Seq<UnreadRow>) -> Seq<ResponseView> {
    rows.map_values(|r: UnreadRow| unread_line(r))
}

pub open spec fn subscription_line(r: SubscriptionRow) -> ResponseView {
    ResponseView::Subscription { id: r.feed_id, url: r.url@ }
}

pub open spec fn unread_line(r: UnreadRow) -> ResponseView {
    ResponseView::Entry {
        id: r.id,
        feed_id: r.feed_id,
        feed_url: r.feed_url@,
        title: r.title@,
        url: r.url@,
    }
}

/// The responses `rv` answer request `q` whose store result is `res`: a list
/// is framed by its start and end lines, one line per row in between.
pub open spec fn results_in(q: StoreRequest, res: StoreResult, rv: Seq<ResponseView>) -> bool {
    match res {
        StoreResult::Failed(m) => rv == seq![ResponseView::InternalError(m@)],
        StoreResult::User { id } => rv == seq![ResponseView::AckUser { id }],
        StoreResult::Subscriptions(rows) => rv == seq![ResponseView::StartSubscriptionList]
            + subscription_lines(rows@) + seq![
            ResponseView::EndList,
        ],
        StoreResult::Subscribed => rv == seq![ResponseView::AckSubscribe],
        StoreResult::Unsubscribed { removed } => if removed > 0 {
            rv == seq![ResponseView::AckUnsubscribe]
        } else {
            rv == seq![
                ResponseView::ResourceNotFound(
                    no_subscription_message(
                        match q {
                            StoreRequest::Unsubscribe { feed_id, .. } => feed_id,
                            _ => 0,
                        },
                    ),
                ),
            ]
        },
        StoreResult::Unread(rows) => rv == seq![ResponseView::StartEntryList] + unread_lines(rows@) + seq![
            ResponseView::EndList,
        ],
        StoreResult::MarkedRead => rv == seq![ResponseView::AckMarkRead],
    }
}

pub open spec fn response_views(rs: Seq<Response>) -> Seq<ResponseView> {
    rs.map_values(|r: Response| r@)
}

impl Session {
    pub fn new() -> (r: Session)
        ensures
            r.user.is_none(),
    {
        Session { user: None }
    }

    /// Decides what a client line leads to. A line that does not read as a
    /// command gets one bad-command response; a command other than `USER`
    /// before any user was named gets one need-user response.
    pub fn on_line(&self, line: &str) -> (r: LineAction)
        ensures
            command_of(line@) is Err ==> (r matches LineAction::Reply(rs) && rs@.len() == 1
                && response_views(rs@)[0] == ResponseView::BadCommand(
                command_of(line@)->Err_0.message(),
            )),
            command_of(line@) is Ok && needs_user(command_of(line@)->Ok_0) && self.user.is_none()
                ==> (r matches LineAction::Reply(rs) && rs@.len() == 1 && response_views(rs@)[0]
                == ResponseView::NeedUser(need_user_message())),
            command_of(line@) is Ok && !(needs_user(command_of(line@)->Ok_0)
                && self.user.is_none()) ==> (r matches LineAction::Ask(q) && request_for(
                command_of(line@)->Ok_0,
                self.user,
                q,
            )),
    {
        match Command::from_str(line) {
            Err(e) => {
                let resp = Response::from(e);
                let mut rs: Vec<Response> = Vec::new();
                rs.push(resp);
                assert(response_views(rs@) =~= seq![resp@]);
                LineAction::Reply(rs)
            },
            Ok(Command::User { username }) => LineAction::Ask(StoreRequest::SelectUser { username }),
            Ok(c) => {
                let user_id = match &self.user {
                    None => {
                        let resp = Response::NeedUser(string_of(chars_of("must select a user")));
                        let mut rs: Vec<Response> = Vec::new();
                        rs.push(resp);
                        assert(response_views(rs@) =~= seq![resp@]);
                        return LineAction::Reply(rs);
                    },
                    Some((_, id)) => *id,
                };
                let q = match c {
                    Command::ListSubscriptions => StoreRequest::ListSubscriptions { user_id },
                    Command::Subscribe { url } => StoreRequest::Subscribe { user_id, url },
                    Command::Unsubscribe { id } => StoreRequest::Unsubscribe { user_id, feed_id: id },
                    Command::ListUnread => StoreRequest::ListUnread { user_id },
                    Command::MarkRead { id } => StoreRequest::MarkRead { user_id, entry_id: id },
                    Command::User { username } => StoreRequest::SelectUser { username },
                };
                LineAction::Ask(q)
            },
        }
    }

    /// Turns the store's answer to `q` into the responses sent back. A named
    /// user becomes the connection's user.
    pub fn on_result(&mut self, q: StoreRequest, res: StoreResult) -> (r: Vec<Response>)
        ensures
            results_in(q, res, response_views(r@)),
            (q is SelectUser && res is User) ==> (final(self).user matches Some((n, i)) && n@
                == q->SelectUser_username@ && i == res->User_id),
            !(q is SelectUser && res is User) ==> *final(self) == *old(self),
    {
        let ghost q0 = q;
        let ghost res0 = res;
        let mut out: Vec<Response> = Vec::new();
        match res {
            StoreResult::Failed(m) => {
                let ghost mv = m@;
                out.push(Response::InternalError(m));
                assert(response_views(out@) =~= seq![ResponseView::InternalError(mv)]);
                assert(results_in(q0, res0, response_views(out@)));
            },
            StoreResult::User { id } => {
                match q {
                    StoreRequest::SelectUser { username } => {
                        self.user = Some((username, id));
                    },
                    _ => {},
                }
                out.push(Response::AckUser { id });
                assert(response_views(out@) =~= seq![ResponseView::AckUser { id }]);
            },
            StoreResult::Subscriptions(rows) => {
                out.push(Response::StartSubscriptionList);
                let mut i: usize = 0;
                while i < rows.len()
                    invariant
                        i <= rows@.len(),
                        response_views(out@) == seq![ResponseView::StartSubscriptionList]
                            + subscription_lines(rows@.take(i as int)),
                    decreases rows.len() - i,
                {
                    let ghost before = response_views(out@);
                    let resp = Response::Subscription {
                        id: rows[i].feed_id,
                        url: rows[i].url.clone(),
                    };
                    out.push(resp);
                    assert(rows@.take(i + 1) =~= rows@.take(i as int).push(rows@[i as int]));
                    assert(response_views(out@) =~= before.push(resp@));
                    i += 1;
                }
                let ghost before = response_views(out@);
                out.push(Response::EndList);
                assert(rows@.take(i as int) =~= rows@);
                assert(response_views(out@) =~= before.push(ResponseView::EndList));
                assert(response_views(out@) =~= seq![ResponseView::StartSubscriptionList]
                    + subscription_lines(rows@) + seq![ResponseView::EndList]);
            },
            StoreResult::Subscribed => {
                out.push(Response::AckSubscribe);
                assert(response_views(out@) =~= seq![ResponseView::AckSubscribe]);
            },
            StoreResult::Unsubscribed { removed } => {
                if removed > 0 {
                    out.push(Response::AckUnsubscribe);
                    assert(response_views(out@) =~= seq![ResponseView::AckUnsubscribe]);
                } else {
                    let feed_id = match q {
                        StoreRequest::Unsubscribe { feed_id, .. } => feed_id,
                        _ => 0,
                    };
                    let mut m = chars_of("no subscription with feed ID ");
                    push_int(&mut m, feed_id);
                    push_str(&mut m, " exists");
                    assert(m@ =~= no_subscription_message(feed_id));
                    let resp = Response::ResourceNotFound(string_of(m));
                    out.push(resp);
                    assert(response_views(out@) =~= seq![resp@]);
                }
            },
            StoreResult::Unread(rows) => {
                out.push(Response::StartEntryList);
                let mut i: usize = 0;
                while i < rows.len()
                    invariant
                        i <= rows@.len(),
                        response_views(out@) == seq![ResponseView::StartEntryList] + unread_lines(rows@.take(i as int)),
                    decreases rows.len() - i,
                {
                    let ghost before = response_views(out@);
                    let resp = Response::Entry {
                        id: rows[i].id,
                        feed_id: rows[i].feed_id,
                        feed_url: rows[i].feed_url.clone(),
                        title: rows[i].title.clone(),
                        url: rows[i].url.clone(),
                    };
                    out.push(resp);
                    assert(rows@.take(i + 1) =~= rows@.take(i as int).push(rows@[i as int]));
                    assert(response_views(out@) =~= before.push(resp@));
                    i += 1;
                }
                let ghost before = response_views(out@);
                out.push(Response::EndList);
                assert(rows@.take(i as int) =~= rows@);
                assert(response_views(out@) =~= before.push(ResponseView::EndList));
                assert(response_views(out@) =~= seq![ResponseView::StartEntryList]
                    + unread_lines(rows@) + seq![ResponseView::EndList]);
            },
            StoreResult::MarkedRead => {
                out.push(Response::AckMarkRead);
                assert(response_views(out@) =~= seq![ResponseView::AckMarkRead]);
            },
        }
                out
    }
}

} // verus!
