//! Routing a request path to what answers it, and building the reply.

use vstd::prelude::*;
use vstd::utf8::encode_utf8;
use crate::content::{ContentView, EntryView, RouteEntry, ServeContent, copy_opt_text, entry_views, opt_text};
use vstd::string::*;
use crate::text::{decimal, decimal_of, same_text, strip_slash, stripped_path, texts};

verus! {

/// What a request path is answered with.
#[derive(Debug, PartialEq)]
pub enum RouteMatch {
    /// The configured text.
    RawMatch(String),
    /// The configured HTML markup.
    HtmlMatch(String),
    /// The bytes of the file at this path.
    FileMatch(String),
    /// Literal content of a route entry.
    ExplicitRaw { content: String, content_type: Option<String>, status: Option<u16> },
    /// Nothing answers the path.
    NoMatch,
}

/// Abstract view of a match.
pub ghost enum MatchView {
    Raw(Seq<char>),
    Html(Seq<char>),
    File(Seq<char>),
    Explicit { content: Seq<char>, content_type: Option<Seq<char>>, status: Option<u16> },
    Miss,
}

impl View for RouteMatch {
    type V = MatchView;

    open spec fn view(&self) -> MatchView {
        match self {
            RouteMatch::RawMatch(t) => MatchView::Raw(t@),
            RouteMatch::HtmlMatch(t) => MatchView::Html(t@),
            RouteMatch::FileMatch(p) => MatchView::File(p@),
            RouteMatch::ExplicitRaw { content, content_type, status } => MatchView::Explicit {
                content: content@,
                content_type: opt_text(*content_type),
                status: *status,
            },
            RouteMatch::NoMatch => MatchView::Miss,
        }
    }
}

/// The wildcard route, which matches every path.
pub open spec fn is_wildcard(route: Seq<char>) -> bool {
    route == seq!['.']
}

/// Whether a named file answers the path: its name is the path without the
/// leading `/`, or it is the wildcard.
pub open spec fn page_matches(page: Seq<char>, path: Seq<char>) -> bool {
    page == strip_slash(path) || is_wildcard(page)
}

/// The route of an entry.
pub open spec fn route_of(e: EntryView) -> Seq<char> {
    match e {
        EntryView::File { route, .. } => route,
        EntryView::Raw { route, .. } => route,
    }
}

/// Whether an entry answers the path: its route is the path, or the wildcard.
pub open spec fn entry_matches(e: EntryView, path: Seq<char>) -> bool {
    route_of(e) == path || is_wildcard(route_of(e))
}

/// What a matching entry answers the path with.
pub open spec fn entry_answer(e: EntryView, path: Seq<char>) -> MatchView {
    match e {
        EntryView::File { route, file, .. } => if is_wildcard(route) {
            MatchView::File(strip_slash(path))
        } else {
            MatchView::File(file)
        },
        EntryView::Raw { content, content_type, status, .. } => MatchView::Explicit {
            content,
            content_type,
            status,
        },
    }
}

/// The first of the named files that answers the path, if any.
pub open spec fn match_pages(pages: Seq<Seq<char>>, path: Seq<char>) -> MatchView
    decreases pages.len(),
{
    if pages.len() == 0 {
        MatchView::Miss
    } else if page_matches(pages[0], path) {
        MatchView::File(strip_slash(path))
    } else {
        match_pages(pages.drop_first(), path)
    }
}

/// The answer of the first entry that matches the path, if any.
pub open spec fn match_entries(entries: Seq<EntryView>, path: Seq<char>) -> MatchView
    decreases entries.len(),
{
    if entries.len() == 0 {
        MatchView::Miss
    } else if entry_matches(entries[0], path) {
        entry_answer(entries[0], path)
    } else {
        match_entries(entries.drop_first(), path)
    }
}

/// What the content answers a request path with.
pub open spec fn match_spec(content: ContentView, path: Seq<char>) -> MatchView {
    match content {
        ContentView::Raw(t) => MatchView::Raw(t),
        ContentView::Html(t) => MatchView::Html(t),
        ContentView::Pages(p) => match_pages(p, path),
        ContentView::Routed(e) => match_entries(e, path),
    }
}

fn route_pages(pages: &Vec<String>, path: &str) -> (r: RouteMatch)
    ensures
        r@ == match_pages(texts(pages@), path@),
{
    let wildcard = ".";
    proof { reveal_strlit("."); }
    let requested = stripped_path(path);
    let mut i: usize = 0;
    assert(texts(pages@).skip(0) =~= texts(pages@));
    while i < pages.len()
        invariant
            i <= pages@.len(),
            requested@ == strip_slash(path@),
            wildcard@ == seq!['.'],
            match_pages(texts(pages@), path@) == match_pages(texts(pages@).skip(i as int), path@),
        decreases pages@.len() - i,
    {
        let page = pages[i].as_str();
        let ghost rest = texts(pages@).skip(i as int);
        assert(rest[0] == page@);
        assert(rest.drop_first() =~= texts(pages@).skip(i as int + 1));
        if same_text(page, requested.as_str()) || same_text(page, wildcard) {
            return RouteMatch::FileMatch(requested);
        }
        i = i + 1;
    }
    RouteMatch::NoMatch
}

fn answer_entry(e: &RouteEntry, path: &str, wildcard: bool) -> (r: RouteMatch)
    requires
        entry_matches(e@, path@),
        wildcard == is_wildcard(route_of(e@)),
    ensures
        r@ == entry_answer(e@, path@),
{
    match e {
        RouteEntry::FileRoute { file, .. } => {
            if wildcard {
                RouteMatch::FileMatch(stripped_path(path))
            } else {
                RouteMatch::FileMatch(file.clone())
            }
        },
        RouteEntry::RawRoute { content, content_type, status, .. } => RouteMatch::ExplicitRaw {
            content: content.clone(),
            content_type: copy_opt_text(content_type),
            status: *status,
        },
    }
}

fn entry_route(e: &RouteEntry) -> (r: &str)
    ensures
        r@ == route_of(e@),
{
    match e {
        RouteEntry::FileRoute { route, .. } => route.as_str(),
        RouteEntry::RawRoute { route, .. } => route.as_str(),
    }
}

fn route_entries(entries: &Vec<RouteEntry>, path: &str) -> (r: RouteMatch)
    ensures
        r@ == match_entries(entry_views(entries@), path@),
{
    let wildcard = ".";
    proof { reveal_strlit("."); }
    let mut i: usize = 0;
    assert(entry_views(entries@).skip(0) =~= entry_views(entries@));
    while i < entries.len()
        invariant
            i <= entries@.len(),
            wildcard@ == seq!['.'],
            match_entries(entry_views(entries@), path@) == match_entries(
                entry_views(entries@).skip(i as int),
                path@,
            ),
        decreases entries@.len() - i,
    {
        let e = &entries[i];
        let ghost rest = entry_views(entries@).skip(i as int);
        assert(rest[0] == e@);
        assert(rest.drop_first() =~= entry_views(entries@).skip(i as int + 1));
        let route = entry_route(e);
        let is_wild = same_text(route, wildcard);
        if same_text(route, path) || is_wild {
            return answer_entry(e, path, is_wild);
        }
        i = i + 1;
    }
    RouteMatch::NoMatch
}

/// Decides what answers a request path. The request method plays no part.
pub fn route(content: &ServeContent, path: &str) -> (r: RouteMatch)
    ensures
        r@ == match_spec(content@, path@),
{
    match content {
        ServeContent::RawContent(t) => RouteMatch::RawMatch(t.clone()),
        ServeContent::HtmlContent(t) => RouteMatch::HtmlMatch(t.clone()),
        ServeContent::PageContent(p) => route_pages(p, path),
        ServeContent::RoutedContent(e) => route_entries(e, path),
    }
}

/// The reply to one request.
#[derive(Debug, PartialEq)]
pub struct Reply {
    pub status: u16,
    /// The declared content type; none means plain text.
    pub content_type: Option<String>,
    pub body: Vec<u8>,
}

/// Abstract view of a reply.
pub ghost struct ReplyView {
    pub status: u16,
    pub content_type: Option<Seq<char>>,
    pub body: Seq<u8>,
}

impl View for Reply {
    type V = ReplyView;

    open spec fn view(&self) -> ReplyView {
        ReplyView { status: self.status, content_type: opt_text(self.content_type), body: self.body@ }
    }
}

/// The bytes of an optional buffer.
pub open spec fn bytes_view(o: Option<Vec<u8>>) -> Option<Seq<u8>> {
    match o {
        Some(b) => Some(b@),
        None => None,
    }
}

/// The content type of HTML.
pub open spec fn html_type() -> Seq<char> {
    "text/html"@
}

/// The reply for a path that nothing serves: 404, HTML, empty body.
pub open spec fn not_found() -> ReplyView {
    ReplyView { status: 404, content_type: Some(html_type()), body: Seq::empty() }
}

/// The reply to a match. `file` is what reading the file of a file match gave:
/// its bytes, or none where it could not be read.
pub open spec fn reply_spec(m: MatchView, file: Option<Seq<u8>>) -> ReplyView {
    match m {
        MatchView::Raw(t) => ReplyView { status: 200, content_type: None, body: encode_utf8(t) },
        MatchView::Html(t) => ReplyView {
            status: 200,
            content_type: Some(html_type()),
            body: encode_utf8(t),
        },
        MatchView::File(_) => match file {
            Some(b) => ReplyView { status: 200, content_type: Some(html_type()), body: b },
            None => not_found(),
        },
        MatchView::Explicit { content, content_type, status } => ReplyView {
            status: match status {
                Some(s) => s,
                None => 200,
            },
            content_type,
            body: encode_utf8(content),
        },
        MatchView::Miss => not_found(),
    }
}

fn html() -> (r: Option<String>)
    ensures
        opt_text(r) == Some(html_type()),
{
    Some(String::from_str("text/html"))
}

/// Builds the reply to a match. For a file match, `file` holds the file's
/// bytes, or nothing where it could not be read; otherwise it is not looked at.
pub fn build_reply(m: RouteMatch, file: Option<Vec<u8>>) -> (r: Reply)
    ensures
        r@ == reply_spec(m@, bytes_view(file)),
{
    match m {
        RouteMatch::RawMatch(t) => Reply { status: 200, content_type: None, body: t.as_str().as_bytes_vec() },
        RouteMatch::HtmlMatch(t) => Reply { status: 200, content_type: html(), body: t.as_str().as_bytes_vec() },
        RouteMatch::FileMatch(_) => match file {
            Some(b) => Reply { status: 200, content_type: html(), body: b },
            None => Reply { status: 404, content_type: html(), body: Vec::new() },
        },
        RouteMatch::ExplicitRaw { content, content_type, status } => {
            let code: u16 = match status {
                Some(s) => s,
                None => 200,
            };
            Reply { status: code, content_type, body: content.as_str().as_bytes_vec() }
        },
        RouteMatch::NoMatch => Reply { status: 404, content_type: html(), body: Vec::new() },
    }
}

/// The value of the Content-Type header sent with a reply.
pub open spec fn header_type(r: ReplyView) -> Seq<char> {
    match r.content_type {
        Some(t) => t,
        None => "text/plain; charset=UTF-8"@,
    }
}

impl Reply {
    /// The Content-Type header value: the declared type, or UTF-8 plain text.
    pub fn header_content_type(&self) -> (r: String)
        ensures
            r@ == header_type(self@),
    {
        match &self.content_type {
            Some(t) => t.clone(),
            None => String::from_str("text/plain; charset=UTF-8"),
        }
    }
}

/// The log line of a handled request: `<status>: <method> <path>`.
pub fn log_line(status: u16, method: &str, path: &str) -> (r: String)
    ensures
        r@ == decimal_of(status as nat) + ": "@ + method@ + " "@ + path@,
{
    let mut line = decimal(status);
    line.append(": ");
    line.append(method);
    line.append(" ");
    line.append(path);
    line
}

/// Raw text is served unchanged, with status 200 and no declared type, for
/// every request path.
pub proof fn raw_content_served_everywhere(text: Seq<char>, path: Seq<char>, file: Option<Seq<u8>>)
    ensures
        reply_spec(match_spec(ContentView::Raw(text), path), file) == (ReplyView {
            status: 200,
            content_type: None,
            body: encode_utf8(text),
        }),
{
}

/// HTML markup is served unchanged, with status 200 and type `text/html`,
/// for every request path.
pub proof fn html_content_served_everywhere(markup: Seq<char>, path: Seq<char>, file: Option<Seq<u8>>)
    ensures
        reply_spec(match_spec(ContentView::Html(markup), path), file) == (ReplyView {
            status: 200,
            content_type: Some(html_type()),
            body: encode_utf8(markup),
        }),
{
}

/// Entries are tried in order: an entry that matches the path answers it,
/// whatever later entries (a wildcard among them) would answer.
pub proof fn first_matching_entry_wins(first: EntryView, rest: Seq<EntryView>, path: Seq<char>)
    requires
        entry_matches(first, path),
    ensures
        match_spec(ContentView::Routed(seq![first] + rest), path) == entry_answer(first, path),
{
    assert((seq![first] + rest)[0] == first);
}

proof fn lemma_no_entry_matches(entries: Seq<EntryView>, path: Seq<char>)
    requires
        forall|i: int| 0 <= i < entries.len() ==> !entry_matches(#[trigger] entries[i], path),
    ensures
        match_entries(entries, path) == MatchView::Miss,
    decreases entries.len(),
{
    if entries.len() > 0 {
        assert(!entry_matches(entries[0], path));
        let rest = entries.drop_first();
        assert forall|i: int| 0 <= i < rest.len() implies !entry_matches(#[trigger] rest[i], path) by {
            assert(rest[i] == entries[i + 1]);
        }
        lemma_no_entry_matches(rest, path);
    }
}

/// A path that no entry matches, with no wildcard among the entries, is
/// answered with 404, type `text/html` and an empty body.
pub proof fn unmatched_path_not_found(entries: Seq<EntryView>, path: Seq<char>, file: Option<Seq<u8>>)
    requires
        forall|i: int| 0 <= i < entries.len() ==> route_of(#[trigger] entries[i]) != path,
        forall|i: int| 0 <= i < entries.len() ==> !is_wildcard(route_of(#[trigger] entries[i])),
    ensures
        reply_spec(match_spec(ContentView::Routed(entries), path), file) == not_found(),
{
    lemma_no_entry_matches(entries, path);
}

/// A wildcard file entry answers any path with the requested file,
/// the path without its leading `/`; where that file cannot be read, with 404.
pub proof fn wildcard_serves_requested_file(
    file: Seq<char>,
    content_type: Option<Seq<char>>,
    rest: Seq<EntryView>,
    path: Seq<char>,
)
    ensures
        match_spec(
            ContentView::Routed(seq![EntryView::File { route: seq!['.'], file, content_type }] + rest),
            path,
        ) == MatchView::File(strip_slash(path)),
        reply_spec(
            match_spec(
                ContentView::Routed(seq![EntryView::File { route: seq!['.'], file, content_type }] + rest),
                path,
            ),
            None,
        ) == not_found(),
{
    let first = EntryView::File { route: seq!['.'], file, content_type };
    assert((seq![first] + rest)[0] == first);
}

/// A file match whose file cannot be read is answered with 404.
pub proof fn unreadable_file_not_found(content: ContentView, path: Seq<char>)
    requires
        match_spec(content, path) is File,
    ensures
        reply_spec(match_spec(content, path), None) == not_found(),
{
}

} // verus!
