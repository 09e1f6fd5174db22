//! The feed document parser: a title line, an optional subtitle right after
//! it, and dated link lines.

use vstd::prelude::*;

use crate::codec::Page;

use crate::text::{
    digits_value, is_digit, is_white, lines, slice_chars, split_lines,
    starts_with, string_of, views, white,
};

verus! {

/// The first index at or after `i` that does not hold white space.
pub open spec fn white_end(s: Seq<char>, i: int) -> int
    decreases s.len() - i,
{
    if i < s.len() && is_white(s[i]) {
        white_end(s, i + 1)
    } else {
        i
    }
}

/// The first index at or after `i` that holds white space.
pub open spec fn word_end(s: Seq<char>, i: int) -> int
    decreases s.len() - i,
{
    if i < s.len() && !is_white(s[i]) {
        word_end(s, i + 1)
    } else {
        i
    }
}

/// The index just past the last line feed in `s[..i]`, or 0.
pub open spec fn after_last_newline(s: Seq<char>, i: int) -> int
    decreases i,
{
    if i <= 0 {
        0
    } else if s[i - 1] == '\n' {
        i
    } else {
        after_last_newline(s, i - 1)
    }
}

/// `YYYY-MM-DD` in ASCII digits.
pub open spec fn is_date_shape(d: Seq<char>) -> bool {
    &&& d.len() == 10
    &&& d[4] == '-'
    &&& d[7] == '-'
    &&& forall|i: int| 0 <= i < 10 && i != 4 && i != 7 ==> is_digit(#[trigger] d[i])
}

/// The largest start of a title not above `k`: a title holds at least one
/// character.
pub open spec fn last_start(s: Seq<char>, k: int) -> int {
    if k < s.len() {
        k
    } else {
        s.len() - 1
    }
}

/// Where the title begins in a line whose date ends at `e`: after the white
/// space that follows the date and an optional `-` with white space of its
/// own; failing that, as late as it can while the title is not empty and holds
/// no line feed.
pub open spec fn title_start(s: Seq<char>, e: int) -> Option<int> {
    let f = white_end(s, e);
    let g = white_end(s, f + 1);
    let m = after_last_newline(s, s.len() as int);
    let dash = last_start(s, g);
    let plain = last_start(s, f);
    if f < s.len() && s[f] == '-' && g > f + 1 && dash >= f + 2 && dash >= m {
        Some(dash)
    } else if plain >= e + 1 && plain >= m {
        Some(plain)
    } else {
        None
    }
}

/// The link, the date text and the title of an entry line
/// `=> <link> <YYYY-MM-DD> [- ]<title>`, white space being any run of it.
pub open spec fn entry_fields(s: Seq<char>) -> Option<(Seq<char>, Seq<char>, Seq<char>)> {
    let b = white_end(s, 2);
    let c = word_end(s, b);
    let d = white_end(s, c);
    let e = d + 10;
    if !(s.len() >= 2 && s[0] == '=' && s[1] == '>' && b > 2 && c > b && d > c && e <= s.len()
        && is_date_shape(s.subrange(d, e)) && white_end(s, e) > e) {
        None
    } else {
        match title_start(s, e) {
            Some(t) => Some((s.subrange(b, c), s.subrange(d, e), s.subrange(t, s.len() as int))),
            None => None,
        }
    }
}

pub open spec fn is_leap_year(y: int) -> bool {
    (y % 4 == 0 && y % 100 != 0) || y % 400 == 0
}

pub open spec fn days_in_month(y: int, m: int) -> int {
    if m == 2 {
        if is_leap_year(y) {
            29
        } else {
            28
        }
    } else if m == 4 || m == 6 || m == 9 || m == 11 {
        30
    } else {
        31
    }
}

/// A day of the proleptic Gregorian calendar.
pub struct Date {
    pub year: i32,
    pub month: u32,
    pub day: u32,
}

impl Date {
    pub open spec fn wf(self) -> bool {
        &&& 1 <= self.month <= 12
        &&& 1 <= self.day <= days_in_month(self.year as int, self.month as int)
    }

    /// The date as `YYYY-MM-DD`; a year outside 0 to 9999 is written after
    /// its sign, `+` or `-`, with at least four digits.
    pub open spec fn iso(self) -> Seq<char> {
        let y = if 0 <= self.year <= 9999 {
            padded(self.year as nat, 4)
        } else if self.year > 9999 {
            seq!['+'] + crate::text::nat_text(self.year as nat)
        } else {
            let m = (0 - self.year) as nat;
            seq!['-'] + if m <= 9999 {
                padded(m, 4)
            } else {
                crate::text::nat_text(m)
            }
        };
        y + seq!['-'] + padded(self.month as nat, 2) + seq!['-'] + padded(self.day as nat, 2)
    }

    /// The date of `year`, `month` and `day`, if the calendar has it.
    pub fn from_ymd(year: i32, month: u32, day: u32) -> (r: Option<Date>)
        ensures
            r.is_some() == (1 <= month <= 12 && 1 <= day <= days_in_month(
                year as int,
                month as int,
            )),
            r.is_some() ==> r.unwrap() == (Date { year, month, day }),
            r.is_some() ==> r.unwrap().wf(),
    {
        if month < 1 || month > 12 || day < 1 {
            return None;
        }
        let leap = (year % 4 == 0 && year % 100 != 0) || year % 400 == 0;
        let days: u32 = if month == 2 {
            if leap {
                29
            } else {
                28
            }
        } else if month == 4 || month == 6 || month == 9 || month == 11 {
            30
        } else {
            31
        };
        if day > days {
            return None;
        }
        Some(Date { year, month, day })
    }

    /// The date as `YYYY-MM-DD`.
    pub fn to_iso(&self) -> (r: String)
        ensures
            r@ == self.iso(),
    {
        let mut out: Vec<char> = Vec::new();
        if 0 <= self.year && self.year <= 9999 {
            push_padded(&mut out, self.year as u64, 4);
        } else if self.year > 9999 {
            out.push('+');
            crate::text::push_nat(&mut out, self.year as u64);
        } else {
            out.push('-');
            let m: u64 = (0 - (self.year as i64)) as u64;
            if m <= 9999 {
                push_padded(&mut out, m, 4);
            } else {
                crate::text::push_nat(&mut out, m);
            }
        }
        out.push('-');
        push_padded(&mut out, self.month as u64, 2);
        out.push('-');
        push_padded(&mut out, self.day as u64, 2);
        assert(out@ =~= self.iso());
        string_of(out)
    }
}

/// The last `width` decimal digits of `n`, with leading zeros.
pub open spec fn padded(n: nat, width: nat) -> Seq<char>
    decreases width,
{
    if width == 0 {
        seq![]
    } else {
        padded(n / 10, (width - 1) as nat) + seq![crate::text::digit_char(n % 10)]
    }
}

fn push_padded(out: &mut Vec<char>, n: u64, width: u64)
    ensures
        final(out)@ == old(out)@ + padded(n as nat, width as nat),
    decreases width,
{
    if width > 0 {
        push_padded(out, n / 10, width - 1);
        let d: u8 = (n % 10) as u8;
        out.push(('0' as u8 + d) as char);
        assert(final(out)@ =~= old(out)@ + padded(n as nat, width as nat));
    }
}

pub struct Entry {
    pub published_at: Date,
    pub link: String,
    pub title: String,
}

/// What an entry says, over plain values.
pub struct EntryView {
    pub published_at: Date,
    pub link: Seq<char>,
    pub title: Seq<char>,
}

impl View for Entry {
    type V = EntryView;

    open spec fn view(&self) -> EntryView {
        EntryView { published_at: self.published_at, link: self.link@, title: self.title@ }
    }
}

pub enum ParseEntryError {
    MalformedEntry,
    MissingYear,
    InvalidYear(String),
    MissingMonth,
    InvalidMonth(String),
    MissingDay,
    InvalidDay(String),
}

pub enum ParseEntryErrorView {
    MalformedEntry,
    MissingYear,
    InvalidYear(Seq<char>),
    MissingMonth,
    InvalidMonth(Seq<char>),
    MissingDay,
    InvalidDay(Seq<char>),
}

impl View for ParseEntryError {
    type V = ParseEntryErrorView;

    open spec fn view(&self) -> ParseEntryErrorView {
        match self {
            ParseEntryError::MalformedEntry => ParseEntryErrorView::MalformedEntry,
            ParseEntryError::MissingYear => ParseEntryErrorView::MissingYear,
            ParseEntryError::InvalidYear(y) => ParseEntryErrorView::InvalidYear(y@),
            ParseEntryError::MissingMonth => ParseEntryErrorView::MissingMonth,
            ParseEntryError::InvalidMonth(m) => ParseEntryErrorView::InvalidMonth(m@),
            ParseEntryError::MissingDay => ParseEntryErrorView::MissingDay,
            ParseEntryError::InvalidDay(d) => ParseEntryErrorView::InvalidDay(d@),
        }
    }
}

/// The entry that a line describes. Its date must exist in the calendar: a
/// month outside 1 to 12 is an invalid month, a day outside the month an
/// invalid day.
pub open spec fn entry_of(s: Seq<char>) -> Result<EntryView, ParseEntryErrorView> {
    match entry_fields(s) {
        None => Err(ParseEntryErrorView::MalformedEntry),
        Some((link, date, title)) => {
            let y = digits_value(date.subrange(0, 4));
            let m = digits_value(date.subrange(5, 7));
            let d = digits_value(date.subrange(8, 10));
            if !(1 <= m <= 12) {
                Err(ParseEntryErrorView::InvalidMonth(date.subrange(5, 7)))
            } else if !(1 <= d <= days_in_month(y as int, m as int)) {
                Err(ParseEntryErrorView::InvalidDay(date.subrange(8, 10)))
            } else {
                Ok(
                    EntryView {
                        published_at: Date { year: y as i32, month: m as u32, day: d as u32 },
                        link,
                        title,
                    },
                )
            }
        },
    }
}

fn white_end_exec(s: &Vec<char>, i: usize) -> (r: usize)
    requires
        i <= s@.len(),
    ensures
        r == white_end(s@, i as int),
        i <= r <= s@.len(),
{
    let mut j = i;
    while j < s.len() && white(s[j])
        invariant
            i <= j <= s@.len(),
            white_end(s@, i as int) == white_end(s@, j as int),
        decreases s.len() - j,
    {
        j += 1;
    }
    j
}

fn word_end_exec(s: &Vec<char>, i: usize) -> (r: usize)
    requires
        i <= s@.len(),
    ensures
        r == word_end(s@, i as int),
        i <= r <= s@.len(),
{
    let mut j = i;
    while j < s.len() && !white(s[j])
        invariant
            i <= j <= s@.len(),
            word_end(s@, i as int) == word_end(s@, j as int),
        decreases s.len() - j,
    {
        j += 1;
    }
    j
}

fn after_last_newline_exec(s: &Vec<char>) -> (r: usize)
    ensures
        r == after_last_newline(s@, s@.len() as int),
        r <= s@.len(),
{
    let mut i = s.len();
    while i > 0 && s[i - 1] != '\n'
        invariant
            i <= s@.len(),
            after_last_newline(s@, s@.len() as int) == after_last_newline(s@, i as int),
        decreases i,
    {
        i -= 1;
    }
    i
}

fn digits_exec(s: &Vec<char>, from: usize, to: usize) -> (r: u32)
    requires
        from <= to <= s@.len(),
        to - from <= 4,
        forall|i: int| from <= i < to ==> is_digit(#[trigger] s@[i]),
    ensures
        r == digits_value(s@.subrange(from as int, to as int)),
        r < pow10((to - from) as nat),
{
    let mut acc: u32 = 0;
    let mut i = from;
    while i < to
        invariant
            from <= i <= to <= s@.len(),
            to - from <= 4,
            forall|i: int| from <= i < to ==> is_digit(#[trigger] s@[i]),
            acc == digits_value(s@.subrange(from as int, i as int)),
            acc < pow10((i - from) as nat),
        decreases to - i,
    {
        assert(s@.subrange(from as int, i + 1).drop_last() =~= s@.subrange(from as int, i as int));
        assert(is_digit(s@[i as int]));
        assert(pow10((i - from) as nat) <= 1000) by {
            assert(pow10(0) == 1);
            assert(pow10(1) == 10);
            assert(pow10(2) == 100);
            assert(pow10(3) == 1000);
        }
        assert(pow10((i + 1 - from) as nat) == 10 * pow10((i - from) as nat));
        acc = acc * 10 + (s[i] as u32 - '0' as u32);
        i += 1;
    }
    acc
}

pub open spec fn pow10(n: nat) -> nat
    decreases n,
{
    if n == 0 {
        1
    } else {
        10 * pow10((n - 1) as nat)
    }
}

impl Entry {
    /// Reads an entry line `=> <link> <YYYY-MM-DD> [- ]<title>`.
    pub fn from_str(value: &str) -> (r: Result<Entry, ParseEntryError>)
        ensures
            match r {
                Ok(e) => entry_of(value@) == Ok::<EntryView, ParseEntryErrorView>(e@)
                    && e.published_at.wf(),
                Err(e) => entry_of(value@) == Err::<EntryView, ParseEntryErrorView>(e@),
            },
    {
        let s = crate::text::chars_of(value);
        Entry::from_chars(&s)
    }

    /// Reads an entry line given as characters.
    pub fn from_chars(s: &Vec<char>) -> (r: Result<Entry, ParseEntryError>)
        ensures
            match r {
                Ok(e) => entry_of(s@) == Ok::<EntryView, ParseEntryErrorView>(e@)
                    && e.published_at.wf(),
                Err(e) => entry_of(s@) == Err::<EntryView, ParseEntryErrorView>(e@),
            },
    {
        if s.len() < 2 || s[0] != '=' || s[1] != '>' {
            return Err(ParseEntryError::MalformedEntry);
        }
        let b = white_end_exec(s, 2);
        let c = word_end_exec(s, b);
        let d = white_end_exec(s, c);
        if !(b > 2 && c > b && d > c && d <= s.len() && s.len() - d >= 10) {
            return Err(ParseEntryError::MalformedEntry);
        }
        let e = d + 10;
        let mut shape = s[d + 4] == '-' && s[d + 7] == '-';
        let mut k: usize = 0;
        while k < 10
            invariant
                d + 10 <= s@.len(),
                s@.len() <= usize::MAX,
                k <= 10,
                shape == (s@[d + 4] == '-' && s@[d + 7] == '-' && forall|i: int|
                    0 <= i < k && i != 4 && i != 7 ==> is_digit(#[trigger] s@[d + i])),
            decreases 10 - k,
        {
            if k != 4 && k != 7 && !('0' <= s[d + k] && s[d + k] <= '9') {
                shape = false;
            }
            k += 1;
        }
        proof {
            let ds = s@.subrange(d as int, e as int);
            assert(shape == is_date_shape(ds)) by {
                if shape {
                    assert forall|i: int| 0 <= i < 10 && i != 4 && i != 7 implies is_digit(
                        #[trigger] ds[i],
                    ) by {
                        assert(ds[i] == s@[d + i]);
                    }
                } else if s@[d + 4] == '-' && s@[d + 7] == '-' {
                    let i = choose|i: int|
                        0 <= i < 10 && i != 4 && i != 7 && !is_digit(#[trigger] s@[d + i]);
                    assert(ds[i] == s@[d + i]);
                }
            }
        }
        if !shape {
            return Err(ParseEntryError::MalformedEntry);
        }
        let f = white_end_exec(s, e);
        if f == e {
            return Err(ParseEntryError::MalformedEntry);
        }
        let m = after_last_newline_exec(s);
        let g = if f < s.len() {
            white_end_exec(s, f + 1)
        } else {
            f
        };
        let dash: usize = if g < s.len() {
            g
        } else {
            s.len() - 1
        };
        let plain: usize = if f < s.len() {
            f
        } else {
            s.len() - 1
        };
        let t: usize;
        if f < s.len() && s[f] == '-' && g > f + 1 && dash >= f + 2 && dash >= m {
            t = dash;
        } else if plain >= e + 1 && plain >= m {
            t = plain;
        } else {
            return Err(ParseEntryError::MalformedEntry);
        }
        assert(title_start(s@, e as int) == Some(t as int));
        proof {
            assert forall|i: int| d <= i < e && i != d + 4 && i != d + 7 implies is_digit(
                #[trigger] s@[i],
            ) by {
                assert(s@.subrange(d as int, e as int)[i - d] == s@[i]);
            }
        }
        let year = digits_exec(s, d, d + 4);
        let month = digits_exec(s, d + 5, d + 7);
        let day = digits_exec(s, d + 8, d + 10);
        let ghost date = s@.subrange(d as int, e as int);
        assert(date.subrange(0, 4) =~= s@.subrange(d as int, d + 4));
        assert(date.subrange(5, 7) =~= s@.subrange(d + 5, d + 7));
        assert(date.subrange(8, 10) =~= s@.subrange(d + 8, d + 10));
        assert(year < 10000) by {
            assert(pow10(0) == 1);
            assert(pow10(1) == 10);
            assert(pow10(2) == 100);
            assert(pow10(3) == 1000);
            assert(pow10(4) == 10000);
        }
        match Date::from_ymd(year as i32, month, day) {
            None => {
                if month < 1 || month > 12 {
                    Err(ParseEntryError::InvalidMonth(string_of(slice_chars(s, d + 5, d + 7))))
                } else {
                    Err(ParseEntryError::InvalidDay(string_of(slice_chars(s, d + 8, d + 10))))
                }
            },
            Some(date) => {
                let link = string_of(slice_chars(s, b, c));
                let title = string_of(slice_chars(s, t, s.len()));
                Ok(Entry { published_at: date, link, title })
            },
        }
    }
}

/// Whether `l` begins with `p`.
pub open spec fn begins(l: Seq<char>, p: Seq<char>) -> bool {
    p.len() <= l.len() && l.take(p.len() as int) == p
}

/// The index of the first of `ls[..n]` that opens with `# `.
pub open spec fn title_index(ls: Seq<Seq<char>>, n: int) -> Option<int>
    decreases n,
{
    if n <= 0 {
        None
    } else {
        match title_index(ls, n - 1) {
            Some(i) => Some(i),
            None => if begins(ls[n - 1], "# "@) {
                Some(n - 1)
            } else {
                None
            },
        }
    }
}

/// The entries of the lines `ls[..n]` that open with `=> ` and read as
/// entries, in order; the other such lines are left out.
pub open spec fn entries_in(ls: Seq<Seq<char>>, n: int) -> Seq<EntryView>
    decreases n,
{
    if n <= 0 {
        seq![]
    } else {
        let before = entries_in(ls, n - 1);
        if begins(ls[n - 1], "=> "@) && entry_of(ls[n - 1]) is Ok {
            before.push(entry_of(ls[n - 1])->Ok_0)
        } else {
            before
        }
    }
}

/// The subtitle: the text of a `## ` line right after the title line.
pub open spec fn subtitle_of(ls: Seq<Seq<char>>, t: int) -> Option<Seq<char>> {
    if t + 1 < ls.len() && begins(ls[t + 1], "## "@) {
        Some(ls[t + 1].skip(3))
    } else {
        None
    }
}

pub struct Feed {
    pub base_url: String,
    pub title: String,
    pub subtitle: Option<String>,
    pub entries: Vec<Entry>,
}

pub enum TryFromPageError {
    EmptyPage,
    HeaderMissingPrefix,
    MissingTitle,
}

pub open spec fn entry_views(es: Seq<Entry>) -> Seq<EntryView> {
    es.map_values(|e: Entry| e@)
}

pub open spec fn opt_view(o: Option<String>) -> Option<Seq<char>> {
    match o {
        Some(s) => Some(s@),
        None => None,
    }
}

/// `r` is what parsing `page` as a feed gives: no body is an empty page, a
/// body without a `# ` line has no title; otherwise the feed has the first
/// title, the subtitle right after it, and every line that reads as an entry.
pub open spec fn parsed_as(page: Page, r: Result<Feed, TryFromPageError>) -> bool {
    &&& (page.body.is_none() <==> (r matches Err(TryFromPageError::EmptyPage)))
    &&& !(r is Err && r->Err_0 is HeaderMissingPrefix)
    &&& page.body.is_some() ==> {
        let ls = lines(page.body->Some_0@);
        match title_index(ls, ls.len() as int) {
            None => r matches Err(TryFromPageError::MissingTitle),
            Some(t) => (r matches Ok(f) && f.base_url@ == page.url@ && f.title@ == ls[t].skip(2)
                && opt_view(f.subtitle) == subtitle_of(ls, t) && entry_views(f.entries@)
                == entries_in(ls, ls.len() as int)),
        }
    }
}

impl Feed {
    /// The feed that a page's body describes.
    pub fn try_from(page: Page) -> (r: Result<Feed, TryFromPageError>)
        ensures
            parsed_as(page, r),
    {
        let body = match page.body {
            Some(b) => b,
            None => {
                return Err(TryFromPageError::EmptyPage);
            },
        };
        let text = crate::text::chars_of(body.as_str());
        let ls = split_lines(&text);
        let ghost lv = lines(body@);
        let mut title: Option<String> = None;
        let mut title_line: Option<usize> = None;
        let mut subtitle: Option<String> = None;
        let mut entries: Vec<Entry> = Vec::new();
        let mut i: usize = 0;
        while i < ls.len()
            invariant
                views(ls@) == lv,
                i <= ls@.len(),
                title_line.is_some() == title_index(lv, i as int).is_some(),
                title_line.is_some() ==> title_index(lv, i as int) == Some(
                    title_line->Some_0 as int,
                ),
                title_line.is_some() == title.is_some(),
                title_line.is_some() ==> title_line->Some_0 < i && title->Some_0@
                    == lv[title_line->Some_0 as int].skip(2),
                title_line.is_some() ==> opt_view(subtitle) == (if title_line->Some_0 + 1 < i {
                    subtitle_of(lv, title_line->Some_0 as int)
                } else {
                    None
                }),
                title_line.is_none() ==> subtitle.is_none(),
                entry_views(entries@) == entries_in(lv, i as int),
            decreases ls.len() - i,
        {
            let line = &ls[i];
            assert(lv[i as int] == line@);
            proof {
                reveal_strlit("# ");
                reveal_strlit("## ");
                reveal_strlit("=> ");
            }
            if starts_with(line, "# ") {
                if title.is_none() {
                    title = Some(string_of(slice_chars(line, 2, line.len())));
                    title_line = Some(i);
                    assert(line@.skip(2) =~= line@.subrange(2, line@.len() as int));
                }
            } else if starts_with(line, "## ") {
                match title_line {
                    Some(t) => {
                        if subtitle.is_none() && t + 1 == i {
                            subtitle = Some(string_of(slice_chars(line, 3, line.len())));
                            assert(line@.skip(3) =~= line@.subrange(3, line@.len() as int));
                        }
                    },
                    None => {},
                }
            } else if starts_with(line, "=> ") {
                let ghost before = entry_views(entries@);
                match Entry::from_chars(line) {
                    Ok(e) => {
                        entries.push(e);
                        assert(entry_views(entries@) =~= before.push(e@));
                    },
                    Err(_) => {},
                }
            }
            proof {
                if begins(line@, "## "@) {
                    assert(line@.take(2)[1] == '#');
                    assert(!begins(line@, "# "@));
                }
                if begins(line@, "=> "@) {
                    assert(line@.take(2)[0] == '=');
                    assert(!begins(line@, "# "@));
                    assert(!begins(line@, "## "@));
                }
            }
            i += 1;
        }
        let title = match title {
            Some(t) => t,
            None => {
                return Err(TryFromPageError::MissingTitle);
            },
        };
        Ok(Feed { base_url: page.url, title, subtitle, entries })
    }
}

} // verus!
