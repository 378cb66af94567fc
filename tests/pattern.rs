use tree_format::parse::{Parser, RawChunk};
use tree_format::pattern::{PackageMetadata, Pattern, PatternError};

fn metadata(license: Option<&str>, repository: Option<&str>) -> PackageMetadata {
    PackageMetadata {
        license: license.map(|s| s.to_string()),
        repository: repository.map(|s| s.to_string()),
    }
}

fn render(format: &str, package: &str, meta: &PackageMetadata) -> String {
    let pattern = Pattern::new(format).unwrap();
    let text = pattern.display(package, meta).to_string();
    text
}

fn tokens(format: &str) -> Vec<RawChunk> {
    let mut parser = Parser::new(format);
    let mut out = Vec::new();
    while let Some(t) = parser.next() {
        out.push(t);
    }
    out
}

#[test]
fn plain_text_renders_unchanged() {
    let full = metadata(Some("MIT"), Some("https://example.com"));
    let none = metadata(None, None);
    for s in ["hello world", "a", "  spaces  ", "ünïcödé ✓", "p l r"] {
        assert_eq!(render(s, "demo v1.0.0", &full), s);
        assert_eq!(render(s, "other v2.0.0", &none), s);
    }
}

#[test]
fn escaped_braces_are_literal() {
    let full = metadata(Some("MIT"), Some("https://example.com"));
    let none = metadata(None, None);
    assert_eq!(render("{{p}}", "demo v1.0.0", &full), "{p}");
    assert_eq!(render("{{p}}", "x v0.1.0", &none), "{p}");
}

#[test]
fn escapes_mixed_with_placeholders() {
    let full = metadata(Some("MIT"), None);
    assert_eq!(render("{{{p}}}", "demo v1.0.0", &full), "{demo v1.0.0}");
    assert_eq!(render("a}}b{{c", "demo", &full), "a}b{c");
}

#[test]
fn unknown_placeholder_fails() {
    match Pattern::new("{x}") {
        Err(e) => assert_eq!(e, PatternError::UnsupportedPlaceholder("x".to_string())),
        Ok(_) => panic!("expected an error"),
    }
}

#[test]
fn unknown_placeholder_names_kept_verbatim() {
    for (format, name) in [("{}", ""), ("{pl}", "pl"), ("{ p}", " p"), ("{P}", "P"), ("a{b{c}", "b{c")] {
        match Pattern::new(format) {
            Err(e) => assert_eq!(e, PatternError::UnsupportedPlaceholder(name.to_string())),
            Ok(_) => panic!("expected an error for {}", format),
        }
    }
}

#[test]
fn first_failure_decides() {
    match Pattern::new("{x}{") {
        Err(e) => assert_eq!(e, PatternError::UnsupportedPlaceholder("x".to_string())),
        Ok(_) => panic!("expected an error"),
    }
}

#[test]
fn unterminated_placeholder_fails() {
    match Pattern::new("a{p") {
        Err(PatternError::MalformedPattern(d)) => assert_eq!(d, "expected '}' to close `{p`"),
        _ => panic!("expected a malformed pattern"),
    }
}

#[test]
fn unmatched_close_fails() {
    match Pattern::new("a}b") {
        Err(PatternError::MalformedPattern(d)) => assert_eq!(d, "unexpected '}' at `}b`"),
        _ => panic!("expected a malformed pattern"),
    }
}

#[test]
fn error_messages() {
    let e = PatternError::UnsupportedPlaceholder("x".to_string());
    assert_eq!(e.to_string(), "unsupported pattern `x`");
    let e = PatternError::MalformedPattern("expected '}' to close `{p`".to_string());
    assert_eq!(e.to_string(), "expected '}' to close `{p`");
}

#[test]
fn absent_license_keeps_delimiters() {
    let meta = metadata(None, Some("https://example.com"));
    assert_eq!(render("[{l}]", "demo v1.0.0", &meta), "[]");
}

#[test]
fn absent_repository_is_empty() {
    let meta = metadata(Some("MIT"), None);
    assert_eq!(render("<{r}>", "demo v1.0.0", &meta), "<>");
}

#[test]
fn full_substitution() {
    let meta = metadata(Some("MIT"), Some("https://example.com"));
    assert_eq!(
        render("{p} ({l}) - {r}", "demo v1.0.0", &meta),
        "demo v1.0.0 (MIT) - https://example.com"
    );
}

#[test]
fn repeated_placeholders() {
    let meta = metadata(Some("Apache-2.0"), None);
    assert_eq!(render("{p}{p}|{l}{l}", "x", &meta), "xx|Apache-2.0Apache-2.0");
}

#[test]
fn compile_and_render_are_deterministic() {
    let meta = metadata(Some("MIT"), Some("https://example.com"));
    let a = Pattern::new("{p} ({l}) - {r}").unwrap();
    let b = Pattern::new("{p} ({l}) - {r}").unwrap();
    let first = a.display("demo v1.0.0", &meta).to_string();
    let second = a.display("demo v1.0.0", &meta).to_string();
    let third = b.display("demo v1.0.0", &meta).to_string();
    assert_eq!(first, second);
    assert_eq!(first, third);
    assert_eq!(Pattern::new("{q}").unwrap_err(), Pattern::new("{q}").unwrap_err());
}

#[test]
fn one_pattern_many_packages() {
    let pattern = Pattern::new("{p}: {l}").unwrap();
    let m1 = metadata(Some("MIT"), None);
    let m2 = metadata(None, None);
    assert_eq!(pattern.display("a v1.0.0", &m1).to_string(), "a v1.0.0: MIT");
    assert_eq!(pattern.display("b v2.0.0", &m2).to_string(), "b v2.0.0: ");
}

#[test]
fn empty_format() {
    let pattern = Pattern::new("").unwrap();
    assert_eq!(pattern.display("demo v1.0.0", &metadata(Some("MIT"), Some("r"))).to_string(), "");
    assert_eq!(pattern.display("", &metadata(None, None)).to_string(), "");
}

#[test]
fn lexer_tokens() {
    assert_eq!(tokens(""), vec![]);
    assert_eq!(
        tokens("ab{{c{p}d}}"),
        vec![
            RawChunk::Text("ab{c".to_string()),
            RawChunk::Argument("p".to_string()),
            RawChunk::Text("d}".to_string()),
        ]
    );
    assert_eq!(
        tokens("x{p"),
        vec![
            RawChunk::Text("x".to_string()),
            RawChunk::Error("expected '}' to close `{p`".to_string()),
        ]
    );
    assert_eq!(tokens("}x{p}"), vec![RawChunk::Error("unexpected '}' at `}x{p}`".to_string())]);
    assert_eq!(tokens("{}}"), vec![
        RawChunk::Argument("".to_string()),
        RawChunk::Error("unexpected '}' at `}`".to_string()),
    ]);
}
