//! What the fetcher decides: where a URL leads, what request it sends, and
//! when a chain of redirects stops.

use vstd::prelude::*;

use crate::codec::{Page, Status};
use crate::feed::opt_view;
use crate::text::{chars_of, push_str, string_of};

verus! {

/// The port that a URL without one is fetched from.
pub const DEFAULT_PORT: u16 = 1965;

/// The number of redirects followed before a fetch gives up.
pub const REDIRECT_CAP: usize = 5;

/// What a URL is made of, as far as the fetcher reads it.
pub struct UrlParts {
    pub scheme: String,
    pub host: Option<String>,
    pub port: Option<u16>,
}

impl View for UrlParts {
    type V = (Seq<char>, Option<Seq<char>>, Option<u16>);

    open spec fn view(&self) -> (Seq<char>, Option<Seq<char>>, Option<u16>) {
        (self.scheme@, opt_view(self.host), self.port)
    }
}

/// The scheme, host and port that the URL parser reads from a text, if it
/// reads a URL there at all.
pub uninterp spec fn url_parts_of(s: Seq<char>) -> Option<(Seq<char>, Option<Seq<char>>, Option<u16>)>;

/// Relies on `url::Url::parse` with `Url::scheme`, `Url::host_str` and
/// `Url::port`: the parts depend on the text alone.
#[verifier::external_body]
fn parse_url(s: &str) -> (r: Option<UrlParts>)
    ensures
        match r {
            Some(p) => url_parts_of(s@) == Some(p@),
            None => url_parts_of(s@).is_none(),
        },
{
    url::Url::parse(s).ok().map(
        |u| UrlParts {
            scheme: u.scheme().to_string(),
            host: u.host_str().map(|h| h.to_string()),
            port: u.port(),
        },
    )
}

/// The host and port to connect to.
pub struct Target {
    pub host: String,
    pub port: u16,
}

pub enum CheckFeedError {
    InvalidUrl(String),
    UnsupportedScheme(String),
    MissingHost(String),
    FailedToResolve(String),
    MissingHeader,
}

/// Where the parts of `url` lead: a `gemini` URL with a host, on its port or
/// the default one; `Err(0)` for another scheme, `Err(1)` for no host.
pub open spec fn target_of(parts: (Seq<char>, Option<Seq<char>>, Option<u16>)) -> Result<
    (Seq<char>, u16),
    int,
> {
    if parts.0 != "gemini"@ {
        Err(0)
    } else {
        match parts.1 {
            None => Err(1),
            Some(h) => Ok(
                (
                    h,
                    match parts.2 {
                        Some(p) => p,
                        None => DEFAULT_PORT,
                    },
                ),
            ),
        }
    }
}

/// `r` is the answer that `target_of` gives for `url`.
pub open spec fn target_matches(
    url: Seq<char>,
    t: Result<(Seq<char>, u16), int>,
    r: Result<Target, CheckFeedError>,
) -> bool {
    match (t, r) {
        (Ok((h, p)), Ok(target)) => target.host@ == h && target.port == p,
        (Err(k), Err(CheckFeedError::UnsupportedScheme(u))) => k == 0 && u@ == url,
        (Err(k), Err(CheckFeedError::MissingHost(u))) => k == 1 && u@ == url,
        _ => false,
    }
}

impl Target {
    /// Where a URL with these parts leads.
    pub fn from_parts(url: &str, parts: UrlParts) -> (r: Result<Target, CheckFeedError>)
        ensures
            target_matches(url@, target_of(parts@), r),
    {
        if !crate::text::eq_str(&chars_of(parts.scheme.as_str()), "gemini") {
            return Err(CheckFeedError::UnsupportedScheme(string_of(chars_of(url))));
        }
        let host = match parts.host {
            Some(h) => h,
            None => {
                return Err(CheckFeedError::MissingHost(string_of(chars_of(url))));
            },
        };
        let port = match parts.port {
            Some(p) => p,
            None => DEFAULT_PORT,
        };
        Ok(Target { host, port })
    }

    /// Where `url` leads.
    pub fn resolve(url: &str) -> (r: Result<Target, CheckFeedError>)
        ensures
            match url_parts_of(url@) {
                None => (r matches Err(CheckFeedError::InvalidUrl(u)) && u@ == url@),
                Some(parts) => target_matches(url@, target_of(parts), r),
            },
    {
        match parse_url(url) {
            None => Err(CheckFeedError::InvalidUrl(string_of(chars_of(url)))),
            Some(parts) => Target::from_parts(url, parts),
        }
    }
}

/// The request sent for `url`.
pub fn request_line(url: &str) -> (r: String)
    ensures
        r@ == url@ + "\r\n"@,
{
    let mut out = chars_of(url);
    push_str(&mut out, "\r\n");
    string_of(out)
}

/// What to do once a page has come back.
pub enum FetchStep {
    /// The page is the answer.
    Done(Page),
    /// Fetch this URL next.
    Follow(String),
    /// The redirect cap was reached.
    TooManyRedirects,
}

/// The state of a fetch that follows redirects.
pub struct Redirects {
    pub url: String,
    pub hops: usize,
}

/// The kind of step taken after `hops` redirects on a page of status `st`:
/// 0 done, 1 follow, 2 give up.
pub open spec fn step_kind(hops: nat, st: Status) -> int {
    if st.class() != 3 {
        0
    } else if hops < REDIRECT_CAP {
        1
    } else {
        2
    }
}

impl Redirects {
    pub fn new(url: String) -> (r: Redirects)
        ensures
            r.url@ == url@,
            r.hops == 0,
    {
        Redirects { url, hops: 0 }
    }

    /// Decides what follows a fetched page: a page that is no redirect is the
    /// answer; a redirect names the next URL in its meta, up to the cap.
    pub fn on_page(&mut self, page: Page) -> (r: FetchStep)
        requires
            old(self).hops <= REDIRECT_CAP,
        ensures
            final(self).hops <= REDIRECT_CAP,
            step_kind(old(self).hops as nat, page.header.status) == 0 ==> r == FetchStep::Done(
                page,
            ) && *final(self) == *old(self),
            step_kind(old(self).hops as nat, page.header.status) == 1 ==> (r matches FetchStep::Follow(u)
                && u@ == page.header.meta@ && final(self).url@ == u@ && final(self).hops
                == old(self).hops + 1),
            step_kind(old(self).hops as nat, page.header.status) == 2 ==> r
                == FetchStep::TooManyRedirects && *final(self) == *old(self),
    {
        if !page.header.status.is_redirect() {
            return FetchStep::Done(page);
        }
        if self.hops < REDIRECT_CAP {
            self.hops = self.hops + 1;
            let next = string_of(chars_of(page.header.meta.as_str()));
            self.url = page.header.meta;
            FetchStep::Follow(next)
        } else {
            FetchStep::TooManyRedirects
        }
    }
}

/// Where a run of fetches whose pages have the statuses `sts` ends, from `hops`
/// redirects on: `Ok(i)` when page `i` is the answer, `Err(i)` when the cap
/// is reached at page `i`, and `Err(-1)` when the pages run out.
pub open spec fn run_from(sts: Seq<Status>, hops: nat, i: int) -> Result<int, int>
    decreases sts.len() - i,
{
    if i < 0 || i >= sts.len() {
        Err(-1)
    } else if step_kind(hops, sts[i]) == 0 {
        Ok(i)
    } else if step_kind(hops, sts[i]) == 2 {
        Err(i)
    } else {
        run_from(sts, hops + 1, i + 1)
    }
}

/// A chain of at most five redirects and then a page of another kind gives
/// that page; a chain of six redirects gives up on the sixth fetch, after
/// five redirects were followed.
pub proof fn lemma_redirect_chain(sts: Seq<Status>, k: int)
    requires
        0 <= k < sts.len(),
        forall|i: int| 0 <= i < k ==> (#[trigger] sts[i]).class() == 3,
    ensures
        k <= REDIRECT_CAP && sts[k].class() != 3 ==> run_from(sts, 0, 0) == Ok::<int, int>(k),
        k == REDIRECT_CAP && sts[k].class() == 3 ==> run_from(sts, 0, 0) == Err::<int, int>(k),
{
    lemma_run_from(sts, k, 0);
}

proof fn lemma_run_from(sts: Seq<Status>, k: int, i: int)
    requires
        0 <= i <= k < sts.len(),
        forall|j: int| 0 <= j < k ==> (#[trigger] sts[j]).class() == 3,
    ensures
        k <= REDIRECT_CAP && sts[k].class() != 3 ==> run_from(sts, i as nat, i) == Ok::<int, int>(k),
        k == REDIRECT_CAP && sts[k].class() == 3 ==> run_from(sts, i as nat, i) == Err::<int, int>(k),
    decreases k - i,
{
    if i < k {
        lemma_run_from(sts, k, i + 1);
    }
}

} // verus!
