use tiny_serve::{
    ConfigError, ConfigLoad, ExternalConfig, Resolution, RouteEntry, RoutedFile, RoutedRawContent,
    ServeConfig, ServeContent, DEFAULT_PORT,
};
use tiny_serve::ServeContent::{PageContent, RawContent, RoutedContent};

fn to_args(tokens: &[&str]) -> Vec<String> {
    let mut v = vec![String::from("tiny-serve")];
    for t in tokens {
        v.push(t.to_string());
    }
    v
}

fn ready(tokens: &[&str]) -> ServeConfig {
    match ServeConfig::build(&to_args(tokens)).unwrap() {
        Resolution::Ready(c) => c,
        Resolution::ReadConfig(p) => panic!("unexpected config file {p}"),
    }
}

fn failure(tokens: &[&str]) -> ConfigError {
    match ServeConfig::build(&to_args(tokens)) {
        Err(e) => e,
        Ok(r) => panic!("unexpected success {:?}", r),
    }
}

#[test]
fn parse_basic() {
    let config = ready(&["content"]);

    assert_eq!(RawContent(String::from("content")), config.content);
    assert_eq!(DEFAULT_PORT, config.port);
}

#[test]
fn parse_port_successfully() {
    let config = ready(&["-p", "1200", "more_content"]);

    assert_eq!(1200, config.port);
    assert_eq!(RawContent(String::from("more_content")), config.content);

    let config = ready(&["initial content", "-p", "2700"]);

    assert_eq!(2700, config.port);
    assert_eq!(RawContent(String::from("initial content")), config.content);
}

#[test]
fn parse_files() {
    let config = ready(&["-f", "chapter1.html"]);

    assert!(config.is_serving_files(), "should be serving files when using -f option");
    assert_eq!(PageContent(vec![String::from("chapter1.html")]), config.content);
    assert_eq!(DEFAULT_PORT, config.port);

    let config = ready(&["chapter1.html", "chapter2.html", "-f"]);

    assert!(config.is_serving_files(), "should be serving files when using -f option");
    assert_eq!(PageContent(
        vec![String::from("chapter1.html"), String::from("chapter2.html")]
    ), config.content);
    assert_eq!(DEFAULT_PORT, config.port);
}

fn chapters_document() -> ExternalConfig {
    ExternalConfig {
        port: Some(4500),
        files: Some(vec![
            RoutedFile {
                route: String::from("/chapter1"),
                file: String::from("./chapter1.html"),
                content_type: None,
            },
            RoutedFile {
                route: String::from("/chapter4.html"),
                file: String::from("chapter4.html"),
                content_type: None,
            },
        ]),
        raw: Some(vec![RoutedRawContent {
            route: String::from("/"),
            content: String::from("<h1>content</h1>"),
            content_type: Some(String::from("text/html")),
            status: Some(200),
        }]),
    }
}

#[test]
fn parse_config_yaml() {
    let parsed = chapters_document();
    let config = &parsed.to_serve_config();

    assert_eq!(4500, config.port);
    assert!(!config.is_serving_files());
    assert_eq!(
        RoutedContent(vec![
            RouteEntry::FileRoute {
                route: String::from("/chapter1"),
                file: String::from("./chapter1.html"),
                content_type: None,
            },
            RouteEntry::FileRoute {
                route: String::from("/chapter4.html"),
                file: String::from("chapter4.html"),
                content_type: None,
            },
            RouteEntry::RawRoute {
                route: String::from("/"),
                content: String::from("<h1>content</h1>"),
                content_type: Some(String::from("text/html")),
                status: Some(200),
            },
        ]),
        config.content
    );
}

#[test]
fn document_without_port_uses_default() {
    let doc = ExternalConfig { port: None, files: None, raw: None };
    let config = doc.to_serve_config();
    assert_eq!(DEFAULT_PORT, config.port);
    assert_eq!(RoutedContent(vec![]), config.content);
}

#[test]
fn config_file_discards_other_tokens() {
    let r = ServeConfig::build(&to_args(&["-c", "cfg.yml", "ignored_content"])).unwrap();
    let path = match r {
        Resolution::ReadConfig(p) => p,
        Resolution::Ready(_) => panic!("config file expected"),
    };
    assert_eq!("cfg.yml", path);

    let doc = ExternalConfig {
        port: Some(4500),
        files: None,
        raw: Some(vec![RoutedRawContent {
            route: String::from("/"),
            content: String::from("<h1>x</h1>"),
            content_type: Some(String::from("text/html")),
            status: Some(200),
        }]),
    };
    let config = ServeConfig::from_loaded(ConfigLoad::Parsed(doc)).unwrap();
    assert_eq!(4500, config.port);
    assert_eq!(
        RoutedContent(vec![RouteEntry::RawRoute {
            route: String::from("/"),
            content: String::from("<h1>x</h1>"),
            content_type: Some(String::from("text/html")),
            status: Some(200),
        }]),
        config.content
    );
}

#[test]
fn content_before_config_flag_is_dropped() {
    let r = ServeConfig::build(&to_args(&["early", "-c", "cfg.yml", "-p", "abc"])).unwrap();
    match r {
        Resolution::ReadConfig(p) => assert_eq!("cfg.yml", p),
        Resolution::Ready(_) => panic!("config file expected"),
    }
}

#[test]
fn malformed_port_is_invalid() {
    assert_eq!(ConfigError::InvalidPort, failure(&["-p", "abc"]));
    assert_eq!(ConfigError::InvalidPort, failure(&["-p", "abc", "content"]));
    assert_eq!(ConfigError::InvalidPort, failure(&["-p", "65536", "content"]));
    assert_eq!(ConfigError::InvalidPort, failure(&["-p", "-1", "content"]));
    assert_eq!(ConfigError::InvalidPort, failure(&["-p", "", "content"]));
    assert_eq!(ConfigError::InvalidPort, failure(&["-p", "+", "content"]));
}

#[test]
fn port_edge_values() {
    assert_eq!(65535, ready(&["-p", "65535", "x"]).port);
    assert_eq!(0, ready(&["-p", "0", "x"]).port);
    assert_eq!(80, ready(&["-p", "+80", "x"]).port);
    assert_eq!(8080, ready(&["-p", "0008080", "x"]).port);
    assert_eq!(9, ready(&["-p", "5", "-p", "9", "x"]).port);
}

#[test]
fn missing_port_value() {
    assert_eq!(ConfigError::MissingPortValue, failure(&["content", "-p"]));
}

#[test]
fn missing_config_path() {
    assert_eq!(ConfigError::MissingConfigPath, failure(&["content", "-c"]));
}

#[test]
fn no_content_provided() {
    assert_eq!(ConfigError::NoContentProvided, failure(&[]));
    assert_eq!(ConfigError::NoContentProvided, failure(&["-p", "1200"]));
    assert_eq!(ConfigError::NoContentProvided, failure(&["-f"]));
    let empty: Vec<String> = vec![];
    assert_eq!(ConfigError::NoContentProvided, ServeConfig::build(&empty).unwrap_err());
}

#[test]
fn contents_joined_by_newlines() {
    let config = ready(&["first", "second", "third"]);
    assert_eq!(RawContent(String::from("first\nsecond\nthird")), config.content);
    assert!(!config.is_serving_files());
}

#[test]
fn loading_failures() {
    assert_eq!(ConfigError::ConfigFileNotFound, ServeConfig::from_loaded(ConfigLoad::Missing).unwrap_err());
    assert_eq!(ConfigError::ConfigParseError, ServeConfig::from_loaded(ConfigLoad::Malformed).unwrap_err());
}

#[test]
fn listening_address() {
    assert_eq!("0.0.0.0:3000", ready(&["x"]).listening_addr());
    assert_eq!("0.0.0.0:1200", ready(&["-p", "1200", "x"]).listening_addr());
    assert_eq!("0.0.0.0:0", ready(&["-p", "0", "x"]).listening_addr());
    assert_eq!("0.0.0.0:65535", ready(&["-p", "65535", "x"]).listening_addr());
}

#[test]
fn error_messages() {
    assert_eq!("Given port is invalid", ConfigError::InvalidPort.message());
    assert!(!ConfigError::NoContentProvided.message().is_empty());
}

#[test]
fn html_content_variant() {
    let c = ServeContent::HtmlContent(String::from("<p>x</p>"));
    assert_ne!(c, ServeContent::RawContent(String::from("<p>x</p>")));
}
