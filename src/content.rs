//! What the server is configured to serve, and the abstract view of it.

use vstd::prelude::*;
use crate::text::{decimal, decimal_of};

verus! {

/// The port listened on when none is given.
pub const DEFAULT_PORT: u16 = 3000;

/// One rule of a routed configuration.
#[derive(Debug, PartialEq)]
pub enum RouteEntry {
    /// Serves the bytes of `file` for requests to `route`.
    FileRoute { route: String, file: String, content_type: Option<String> },
    /// Serves `content` for requests to `route`.
    RawRoute { route: String, content: String, content_type: Option<String>, status: Option<u16> },
}

/// What is served.
#[derive(Debug, PartialEq)]
pub enum ServeContent {
    /// The same text for every request.
    RawContent(String),
    /// The same HTML markup for every request.
    HtmlContent(String),
    /// Named files, each served under its own name (`.` serves any requested file).
    PageContent(Vec<String>),
    /// Route entries, tried in order.
    RoutedContent(Vec<RouteEntry>),
}

/// The resolved configuration of a run.
#[derive(Debug)]
pub struct ServeConfig {
    pub content: ServeContent,
    pub port: u16,
    pub serve_files: bool,
}

/// Abstract view of a route entry.
pub ghost enum EntryView {
    File { route: Seq<char>, file: Seq<char>, content_type: Option<Seq<char>> },
    Raw { route: Seq<char>, content: Seq<char>, content_type: Option<Seq<char>>, status: Option<u16> },
}

/// Abstract view of the served content.
pub ghost enum ContentView {
    Raw(Seq<char>),
    Html(Seq<char>),
    Pages(Seq<Seq<char>>),
    Routed(Seq<EntryView>),
}

/// Abstract view of a configuration.
pub ghost struct ConfigView {
    pub content: ContentView,
    pub port: u16,
    pub serve_files: bool,
}

/// The text of an optional string.
pub open spec fn opt_text(o: Option<String>) -> Option<Seq<char>> {
    match o {
        Some(s) => Some(s@),
        None => None,
    }
}

/// Copies an optional string.
pub fn copy_opt_text(o: &Option<String>) -> (r: Option<String>)
    ensures
        opt_text(r) == opt_text(*o),
{
    match o {
        Some(s) => Some(s.clone()),
        None => None,
    }
}

impl View for RouteEntry {
    type V = EntryView;

    open spec fn view(&self) -> EntryView {
        match self {
            RouteEntry::FileRoute { route, file, content_type } => EntryView::File {
                route: route@,
                file: file@,
                content_type: opt_text(*content_type),
            },
            RouteEntry::RawRoute { route, content, content_type, status } => EntryView::Raw {
                route: route@,
                content: content@,
                content_type: opt_text(*content_type),
                status: *status,
            },
        }
    }
}

/// The views of a sequence of route entries.
pub open spec fn entry_views(v: Seq<RouteEntry>) -> Seq<EntryView> {
    v.map_values(|e: RouteEntry| e@)
}

impl View for ServeContent {
    type V = ContentView;

    open spec fn view(&self) -> ContentView {
        match self {
            ServeContent::RawContent(t) => ContentView::Raw(t@),
            ServeContent::HtmlContent(t) => ContentView::Html(t@),
            ServeContent::PageContent(p) => ContentView::Pages(crate::text::texts(p@)),
            ServeContent::RoutedContent(e) => ContentView::Routed(entry_views(e@)),
        }
    }
}

impl View for ServeConfig {
    type V = ConfigView;

    open spec fn view(&self) -> ConfigView {
        ConfigView { content: self.content@, port: self.port, serve_files: self.serve_files }
    }
}

impl ServeConfig {
    /// The socket address the server binds: every interface, on the configured port.
    pub fn listening_addr(&self) -> (r: String)
        ensures
            r@ == "0.0.0.0:"@ + decimal_of(self.port as nat),
    {
        let mut addr = String::from_str("0.0.0.0:");
        let digits = decimal(self.port);
        addr.append(digits.as_str());
        addr
    }

    /// Whether the named files are served (the `-f` mode).
    pub fn is_serving_files(&self) -> (r: bool)
        ensures
            r == self.serve_files,
    {
        self.serve_files
    }
}

} // verus!
