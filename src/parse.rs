//! Resolving the configuration of a run from its command-line tokens or from
//! a decoded configuration document.

use vstd::prelude::*;
use crate::content::{
    ConfigView, ContentView, DEFAULT_PORT, EntryView, RouteEntry, ServeConfig, ServeContent,
    copy_opt_text, entry_views, opt_text,
};
use crate::text::{digits_value, is_port_text, join_lines, joined, parse_port, port_digits, same_text, texts};

verus! {

/// Why a configuration could not be resolved.
#[derive(Debug, Clone, Copy, PartialEq, Eq, Structural)]
pub enum ConfigError {
    /// The value after `-p` is not a 16-bit unsigned integer.
    InvalidPort,
    /// `-p` is the last token.
    MissingPortValue,
    /// `-c` is the last token.
    MissingConfigPath,
    /// Nothing to serve was given.
    NoContentProvided,
    /// The configuration file could not be read.
    ConfigFileNotFound,
    /// The configuration file is not a valid configuration document.
    ConfigParseError,
}

impl ConfigError {
    /// A one-line description of the error.
    pub fn message(&self) -> (r: &'static str) {
        match self {
            ConfigError::InvalidPort => "Given port is invalid",
            ConfigError::MissingPortValue => "No port specified with -p.",
            ConfigError::MissingConfigPath => "No config file specified with -c.",
            ConfigError::NoContentProvided => "Usage: tiny-serve [-p <PORT>] [-f] [-c <CONFIG>] <content|filename>...",
            ConfigError::ConfigFileNotFound => "Could not find config file",
            ConfigError::ConfigParseError => "Failed to read config file",
        }
    }
}

/// The outcome of reading the command line.
#[derive(Debug)]
pub enum Resolution {
    /// The configuration is complete.
    Ready(ServeConfig),
    /// The configuration file at this path governs the run.
    ReadConfig(String),
}

/// Abstract view of a resolution.
pub ghost enum ResolutionView {
    Ready(ConfigView),
    ReadConfig(Seq<char>),
}

/// The view of a resolution result.
pub open spec fn resolution_view(r: Result<Resolution, ConfigError>) -> Result<ResolutionView, ConfigError> {
    match r {
        Ok(Resolution::Ready(c)) => Ok(ResolutionView::Ready(c@)),
        Ok(Resolution::ReadConfig(p)) => Ok(ResolutionView::ReadConfig(p@)),
        Err(e) => Err(e),
    }
}

/// The configuration once all tokens are read, from the collected content.
pub open spec fn finish_spec(contents: Seq<Seq<char>>, port: u16, files: bool) -> Result<ResolutionView, ConfigError> {
    if contents.len() == 0 {
        Err(ConfigError::NoContentProvided)
    } else if files {
        Ok(ResolutionView::Ready(ConfigView { content: ContentView::Pages(contents), port, serve_files: true }))
    } else {
        Ok(ResolutionView::Ready(ConfigView { content: ContentView::Raw(joined(contents)), port, serve_files: false }))
    }
}

/// Reads the tokens from index `i` on, left to right, with the content
/// collected, the port and the file mode so far.
pub open spec fn scan(
    toks: Seq<Seq<char>>,
    i: int,
    contents: Seq<Seq<char>>,
    port: u16,
    files: bool,
) -> Result<ResolutionView, ConfigError>
    decreases toks.len() - i,
{
    if i < 0 || i >= toks.len() {
        finish_spec(contents, port, files)
    } else if toks[i] == "-p"@ {
        if i + 1 >= toks.len() {
            Err(ConfigError::MissingPortValue)
        } else if is_port_text(toks[i + 1]) {
            scan(toks, i + 2, contents, digits_value(port_digits(toks[i + 1])) as u16, files)
        } else {
            Err(ConfigError::InvalidPort)
        }
    } else if toks[i] == "-f"@ {
        scan(toks, i + 1, contents, port, true)
    } else if toks[i] == "-c"@ {
        if i + 1 >= toks.len() {
            Err(ConfigError::MissingConfigPath)
        } else {
            Ok(ResolutionView::ReadConfig(toks[i + 1]))
        }
    } else {
        scan(toks, i + 1, contents.push(toks[i]), port, files)
    }
}

/// The resolution of a command line whose first token is the program name.
pub open spec fn resolve_spec(args: Seq<Seq<char>>) -> Result<ResolutionView, ConfigError> {
    scan(args, 1, Seq::empty(), DEFAULT_PORT, false)
}

impl ServeConfig {
    /// Reads a command line, the program name first. `-p <port>` sets the
    /// port, `-f` makes the content tokens file names, `-c <path>` hands the
    /// run to a configuration file and ends the reading; other tokens are content.
    pub fn build(args: &Vec<String>) -> (r: Result<Resolution, ConfigError>)
        ensures
            resolution_view(r) == resolve_spec(texts(args@)),
    {
        let ghost toks = texts(args@);
        let mut contents: Vec<String> = Vec::new();
        let mut port: u16 = DEFAULT_PORT;
        let mut serve_files = false;
        let mut i: usize = 1;
        proof {
            reveal_strlit("-p");
            reveal_strlit("-f");
            reveal_strlit("-c");
        }
        assert(texts(contents@) =~= Seq::<Seq<char>>::empty());
        while i < args.len()
            invariant
                toks == texts(args@),
                1 <= i,
                resolve_spec(toks) == scan(toks, i as int, texts(contents@), port, serve_files),
            decreases args@.len() - i,
        {
            let arg = args[i].as_str();
            assert(toks[i as int] == arg@);
            if same_text(arg, "-p") {
                if i + 1 >= args.len() {
                    return Err(ConfigError::MissingPortValue);
                }
                assert(toks[i + 1] == args@[i + 1]@);
                match parse_port(args[i + 1].as_str()) {
                    Some(n) => port = n,
                    None => return Err(ConfigError::InvalidPort),
                }
                i = i + 2;
            } else if same_text(arg, "-f") {
                serve_files = true;
                i = i + 1;
            } else if same_text(arg, "-c") {
                if i + 1 >= args.len() {
                    return Err(ConfigError::MissingConfigPath);
                }
                assert(toks[i + 1] == args@[i + 1]@);
                return Ok(Resolution::ReadConfig(args[i + 1].clone()));
            } else {
                let ghost before = texts(contents@);
                contents.push(args[i].clone());
                assert(texts(contents@) =~= before.push(toks[i as int]));
                i = i + 1;
            }
        }
        if contents.len() == 0 {
            return Err(ConfigError::NoContentProvided);
        }
        if serve_files {
            Ok(Resolution::Ready(ServeConfig { content: ServeContent::PageContent(contents), port, serve_files: true }))
        } else {
            let text = join_lines(&contents);
            Ok(Resolution::Ready(ServeConfig { content: ServeContent::RawContent(text), port, serve_files: false }))
        }
    }
}

/// A file route of a configuration document.
#[derive(Debug, PartialEq)]
pub struct RoutedFile {
    pub route: String,
    pub file: String,
    pub content_type: Option<String>,
}

/// A literal-content route of a configuration document.
#[derive(Debug, PartialEq)]
pub struct RoutedRawContent {
    pub route: String,
    pub content: String,
    pub content_type: Option<String>,
    pub status: Option<u16>,
}

/// A decoded configuration document.
#[derive(Debug, PartialEq)]
pub struct ExternalConfig {
    pub port: Option<u16>,
    pub files: Option<Vec<RoutedFile>>,
    pub raw: Option<Vec<RoutedRawContent>>,
}

/// The entry of a file route.
pub open spec fn file_entry(f: RoutedFile) -> EntryView {
    EntryView::File { route: f.route@, file: f.file@, content_type: opt_text(f.content_type) }
}

/// The entry of a literal-content route.
pub open spec fn raw_entry(r: RoutedRawContent) -> EntryView {
    EntryView::Raw { route: r.route@, content: r.content@, content_type: opt_text(r.content_type), status: r.status }
}

/// The entries of the file routes, in order; none where the list is absent.
pub open spec fn file_entries(o: Option<Vec<RoutedFile>>) -> Seq<EntryView> {
    match o {
        Some(v) => v@.map_values(|f: RoutedFile| file_entry(f)),
        None => Seq::empty(),
    }
}

/// The entries of the literal-content routes, in order; none where the list is absent.
pub open spec fn raw_entries(o: Option<Vec<RoutedRawContent>>) -> Seq<EntryView> {
    match o {
        Some(v) => v@.map_values(|r: RoutedRawContent| raw_entry(r)),
        None => Seq::empty(),
    }
}

/// The configuration a document describes: its file routes, then its
/// literal-content routes, on its port or the default one.
pub open spec fn document_config(c: ExternalConfig) -> ConfigView {
    ConfigView {
        content: ContentView::Routed(file_entries(c.files) + raw_entries(c.raw)),
        port: match c.port {
            Some(p) => p,
            None => DEFAULT_PORT,
        },
        serve_files: false,
    }
}

impl ExternalConfig {
    /// The configuration this document describes.
    pub fn to_serve_config(&self) -> (r: ServeConfig)
        ensures
            r@ == document_config(*self),
    {
        let mut entries: Vec<RouteEntry> = Vec::new();
        let ghost fe = file_entries(self.files);
        let ghost re = raw_entries(self.raw);
        assert(entry_views(entries@) =~= fe.take(0));
        match &self.files {
            Some(files) => {
                let mut i: usize = 0;
                while i < files.len()
                    invariant
                        i <= files@.len(),
                        fe == files@.map_values(|f: RoutedFile| file_entry(f)),
                        entry_views(entries@) =~= fe.take(i as int),
                    decreases files@.len() - i,
                {
                    let f = &files[i];
                    let ghost before = entry_views(entries@);
                    entries.push(RouteEntry::FileRoute {
                        route: f.route.clone(),
                        file: f.file.clone(),
                        content_type: copy_opt_text(&f.content_type),
                    });
                    assert(entry_views(entries@) =~= before.push(fe[i as int]));
                    assert(fe.take(i as int + 1) =~= fe.take(i as int).push(fe[i as int]));
                    i = i + 1;
                }
                assert(fe.take(files@.len() as int) =~= fe);
            },
            None => {},
        }
        assert(entry_views(entries@) =~= fe);
        assert(entry_views(entries@) =~= fe + re.take(0));
        match &self.raw {
            Some(raw) => {
                let mut i: usize = 0;
                while i < raw.len()
                    invariant
                        i <= raw@.len(),
                        re == raw@.map_values(|r: RoutedRawContent| raw_entry(r)),
                        entry_views(entries@) =~= fe + re.take(i as int),
                    decreases raw@.len() - i,
                {
                    let r = &raw[i];
                    let ghost before = entry_views(entries@);
                    entries.push(RouteEntry::RawRoute {
                        route: r.route.clone(),
                        content: r.content.clone(),
                        content_type: copy_opt_text(&r.content_type),
                        status: r.status,
                    });
                    assert(entry_views(entries@) =~= before.push(re[i as int]));
                    assert(re.take(i as int + 1) =~= re.take(i as int).push(re[i as int]));
                    i = i + 1;
                }
                assert(re.take(raw@.len() as int) =~= re);
            },
            None => {},
        }
        assert(entry_views(entries@) =~= fe + re);
        let port = match self.port {
            Some(p) => p,
            None => DEFAULT_PORT,
        };
        ServeConfig { content: ServeContent::RoutedContent(entries), port, serve_files: false }
    }
}

/// What came of reading and decoding the configuration file.
#[derive(Debug)]
pub enum ConfigLoad {
    /// The file could not be read.
    Missing,
    /// The file was read but is not a configuration document.
    Malformed,
    /// The decoded document.
    Parsed(ExternalConfig),
}

impl ServeConfig {
    /// The configuration of a run governed by a configuration file.
    pub fn from_loaded(load: ConfigLoad) -> (r: Result<ServeConfig, ConfigError>)
        ensures
            load is Missing <==> r == Err::<ServeConfig, ConfigError>(ConfigError::ConfigFileNotFound),
            load is Malformed <==> r == Err::<ServeConfig, ConfigError>(ConfigError::ConfigParseError),
            load matches ConfigLoad::Parsed(c) ==> r matches Ok(s) && s@ == document_config(c),
    {
        match load {
            ConfigLoad::Missing => Err(ConfigError::ConfigFileNotFound),
            ConfigLoad::Malformed => Err(ConfigError::ConfigParseError),
            ConfigLoad::Parsed(c) => Ok(c.to_serve_config()),
        }
    }
}

/// A port value that is not a 16-bit unsigned integer fails the command line
/// with `InvalidPort`, whatever follows it; nothing is served.
pub proof fn malformed_port_rejected(program: Seq<char>, value: Seq<char>, rest: Seq<Seq<char>>)
    requires
        !is_port_text(value),
    ensures
        resolve_spec(seq![program, "-p"@, value] + rest) == Err::<ResolutionView, ConfigError>(ConfigError::InvalidPort),
{
    let toks = seq![program, "-p"@, value] + rest;
    assert(toks[1] == "-p"@);
    assert(toks[2] == value);
}

/// Once `-c <path>` is read, the configuration file governs the run: the
/// content collected before it and every token after it are ignored.
pub proof fn config_file_takes_precedence(
    program: Seq<char>,
    before: Seq<Seq<char>>,
    path: Seq<char>,
    rest: Seq<Seq<char>>,
)
    requires
        forall|k: int| 0 <= k < before.len() ==> !is_flag(#[trigger] before[k]),
    ensures
        resolve_spec(seq![program] + before + seq!["-c"@, path] + rest) == Ok::<ResolutionView, ConfigError>(
            ResolutionView::ReadConfig(path),
        ),
{
    let toks = seq![program] + before + seq!["-c"@, path] + rest;
    reveal_strlit("-p");
    reveal_strlit("-f");
    reveal_strlit("-c");
    assert forall|k: int| 0 <= k < before.len() implies toks[1 + k] == #[trigger] before[k] by {
        assert(toks[1 + k] == (seq![program] + before)[1 + k]);
    }
    lemma_skip_content(toks, before, 1, Seq::empty(), DEFAULT_PORT, false);
    let j = before.len() as int + 1;
    assert(toks[j] == "-c"@);
    assert(toks[j + 1] == path);
    assert("-c"@[1] != "-p"@[1]);
    assert("-c"@[1] != "-f"@[1]);
    assert(scan(toks, j, Seq::empty() + before, DEFAULT_PORT, false) == Ok::<ResolutionView, ConfigError>(
        ResolutionView::ReadConfig(path),
    ));
}

/// The tokens `-p <value>` for each value in turn.
pub open spec fn port_settings(values: Seq<Seq<char>>) -> Seq<Seq<char>>
    decreases values.len(),
{
    if values.len() == 0 {
        Seq::empty()
    } else {
        seq!["-p"@, values[0]] + port_settings(values.drop_first())
    }
}

proof fn lemma_only_ports(prefix: Seq<Seq<char>>, values: Seq<Seq<char>>, port: u16)
    requires
        prefix.len() >= 1,
        forall|k: int| 0 <= k < values.len() ==> is_port_text(#[trigger] values[k]),
    ensures
        scan(prefix + port_settings(values), prefix.len() as int, Seq::empty(), port, false)
            == Err::<ResolutionView, ConfigError>(ConfigError::NoContentProvided),
    decreases values.len(),
{
    reveal_strlit("-p");
    let toks = prefix + port_settings(values);
    if values.len() == 0 {
        assert(toks.len() == prefix.len());
    } else {
        let n = prefix.len() as int;
        let rest = values.drop_first();
        let next = prefix + seq!["-p"@, values[0]];
        assert(toks =~= next + port_settings(rest));
        assert(toks[n] == "-p"@);
        assert(toks[n + 1] == values[0]);
        assert(is_port_text(values[0]));
        assert forall|k: int| 0 <= k < rest.len() implies is_port_text(#[trigger] rest[k]) by {
            assert(rest[k] == values[k + 1]);
        }
        lemma_only_ports(next, rest, digits_value(port_digits(values[0])) as u16);
    }
}

/// A command line with no `-c`, no `-f` and no content, only well-formed
/// port settings, fails with `NoContentProvided`.
pub proof fn no_content_rejected(program: Seq<char>, values: Seq<Seq<char>>)
    requires
        forall|k: int| 0 <= k < values.len() ==> is_port_text(#[trigger] values[k]),
    ensures
        resolve_spec(seq![program] + port_settings(values)) == Err::<ResolutionView, ConfigError>(
            ConfigError::NoContentProvided,
        ),
{
    lemma_only_ports(seq![program], values, DEFAULT_PORT);
}

/// Whether a token is one of the flags `-p`, `-f` or `-c`.
pub open spec fn is_flag(t: Seq<char>) -> bool {
    t == "-p"@ || t == "-f"@ || t == "-c"@
}

proof fn lemma_skip_content(
    toks: Seq<Seq<char>>,
    run: Seq<Seq<char>>,
    i: int,
    contents: Seq<Seq<char>>,
    port: u16,
    files: bool,
)
    requires
        1 <= i,
        i + run.len() < toks.len(),
        forall|k: int| 0 <= k < run.len() ==> toks[i + k] == #[trigger] run[k],
        forall|k: int| 0 <= k < run.len() ==> !is_flag(#[trigger] run[k]),
    ensures
        scan(toks, i, contents, port, files) == scan(toks, i + run.len(), contents + run, port, files),
    decreases run.len(),
{
    if run.len() == 0 {
        assert(contents + run =~= contents);
    } else {
        assert(toks[i] == run[0]);
        assert(!is_flag(run[0]));
        let tail = run.drop_first();
        assert forall|k: int| 0 <= k < tail.len() implies toks[i + 1 + k] == #[trigger] tail[k] by {
            assert(toks[i + (k + 1)] == run[k + 1]);
        }
        assert forall|k: int| 0 <= k < tail.len() implies !is_flag(#[trigger] tail[k]) by {
            assert(tail[k] == run[k + 1]);
        }
        lemma_skip_content(toks, tail, i + 1, contents.push(run[0]), port, files);
        assert(contents.push(run[0]) + tail =~= contents + run);
    }
}

} // verus!
