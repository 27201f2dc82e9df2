use nu_plugin_herdr_navigate_directory::completion::{CompletionCandidate, DescriptionData, PrefixBound, ScopeLabel, SourceLabel};
use nu_plugin_herdr_navigate_directory::display::{escape_display, is_unsafe_display_char, needs_quoting, quote_nu, render_description, to_suggestion};
use nu_plugin_herdr_navigate_directory::error::Span;
use nu_plugin_herdr_navigate_directory::path::CanonicalPath;
use nu_plugin_herdr_navigate_directory::prefix::parse_typed_prefix;

fn cp(path: &str) -> CanonicalPath {
    CanonicalPath::parse(path).unwrap()
}

fn directory_candidate(path: &str) -> CompletionCandidate {
    CompletionCandidate {
        path: cp(path),
        description: DescriptionData { source: SourceLabel::Directory, scope: ScopeLabel::Unscoped, pane_count: 0 },
    }
}

#[test]
fn quotes_spaces_and_syntax_sensitive_names() {
    assert!(needs_quoting("foo bar/"));
    assert!(needs_quoting("foo$bar/"));
    assert!(!needs_quoting("~/src/"));
    assert_eq!(quote_nu("foo bar/"), "'foo bar/'");
    assert_eq!(quote_nu("it's/"), "'it''s/'");
}

#[test]
fn escapes_control_ansi_and_bidi_in_display_only() {
    let dirty = "repo\u{1b}[31m\u{202e}evil";
    let escaped = escape_display(dirty);
    assert!(escaped.contains("\\u{1b}"));
    assert!(escaped.contains("\\u{202e}"));
    assert!(!escaped.contains('\u{1b}'));
    assert!(!escaped.contains('\u{202e}'));
    assert!(escaped.contains("[31m"));
}

#[test]
fn renders_three_segment_descriptions_without_opaque_ids() {
    assert_eq!(
        render_description(&DescriptionData { source: SourceLabel::AgentIdle, scope: ScopeLabel::CurrentTab, pane_count: 1 }),
        "agent idle · current tab"
    );
    assert_eq!(
        render_description(&DescriptionData { source: SourceLabel::AgentDone, scope: ScopeLabel::CurrentWorkspace, pane_count: 2 }),
        "agent done · current workspace · 2 panes"
    );
    assert_eq!(
        render_description(&DescriptionData {
            source: SourceLabel::Workspace,
            scope: ScopeLabel::Workspace { label: "hc-v2".into(), number: 3 },
            pane_count: 3,
        }),
        "workspace · workspace hc-v2 · 3 panes"
    );
    assert_eq!(
        render_description(&DescriptionData {
            source: SourceLabel::ShellPane,
            scope: ScopeLabel::Workspace { label: "hc-v2".into(), number: 3 },
            pane_count: 1,
        }),
        "shell pane · workspace hc-v2"
    );
    assert_eq!(
        render_description(&DescriptionData {
            source: SourceLabel::AgentWorking,
            scope: ScopeLabel::Workspace { label: String::new(), number: 4 },
            pane_count: 1,
        }),
        "agent working · workspace #4"
    );
    assert_eq!(
        render_description(&DescriptionData { source: SourceLabel::Directory, scope: ScopeLabel::Unscoped, pane_count: 0 }),
        "directory"
    );
    assert_eq!(
        render_description(&DescriptionData {
            source: SourceLabel::Workspace,
            scope: ScopeLabel::MultipleWorkspaces { count: 2 },
            pane_count: 4,
        }),
        "workspace · 2 workspaces · 4 panes"
    );
    assert_eq!(
        render_description(&DescriptionData {
            source: SourceLabel::Workspace,
            scope: ScopeLabel::Workspace { label: "ok\u{1b}id".into(), number: 1 },
            pane_count: 1,
        }),
        "workspace · workspace ok\\u{1b}id"
    );
}

#[test]
fn suggestion_kind_trailing_slash_and_no_whitespace() {
    let span = Span::new(0, 0);
    let suggestion = to_suggestion(directory_candidate("/Users/me/src"), &parse_typed_prefix(""), None, Some(&cp("/Users/me")), Some(span));
    assert!(suggestion.value.ends_with('/'));
    assert_eq!(suggestion.display, "~/src");
    assert_eq!(suggestion.span, Some(span));
    assert_eq!(suggestion.description, "directory");
}

#[test]
fn quoted_replacement_keeps_unquoted_display() {
    let suggestion = to_suggestion(directory_candidate("/Users/me/my dir"), &parse_typed_prefix(""), None, Some(&cp("/Users/me")), None);
    assert_eq!(suggestion.value, "'~/my dir/'");
    assert_eq!(suggestion.display, "~/my dir");
}

#[test]
fn unsafe_display_characters_cover_controls_bidi_and_invisible_formatting() {
    for c in ['\u{0}', '\u{7}', '\u{7f}', '\u{9b}', '\u{ad}', '\u{61c}', '\u{180e}', '\u{200e}', '\u{200f}', '\u{202a}', '\u{202e}', '\u{2060}', '\u{2066}', '\u{2069}', '\u{feff}'] {
        assert!(is_unsafe_display_char(c), "{:?}", c);
    }
    for c in ['a', ' ', '/', 'é', '\u{2029}', '\u{202f}', '\u{2065}', '\u{206a}'] {
        assert!(!is_unsafe_display_char(c), "{:?}", c);
    }
    assert_eq!(escape_display("a\u{7f}b"), "a\\u{7f}b");
    assert_eq!(escape_display("plain"), "plain");
}

#[test]
fn quoting_doubles_every_single_quote_and_covers_shell_syntax() {
    assert_eq!(quote_nu("''"), "''''''");
    assert_eq!(quote_nu(""), "''");
    for text in ["a(b", "a;b", "a|b", "a#b", "a\tb", "a\u{1}b", "a,b", "a*b"] {
        assert!(needs_quoting(text), "{}", text);
    }
    for text in ["abc/", "a-b_c.d/", "~/x/", "/abs/path/"] {
        assert!(!needs_quoting(text), "{}", text);
    }
}

#[test]
fn relative_prefix_suggestion_keeps_relative_style() {
    let bound = PrefixBound { base: cp("/work"), remaining: "s".into() };
    let suggestion = to_suggestion(directory_candidate("/work/src"), &parse_typed_prefix("s"), Some(&bound), None, None);
    assert_eq!(suggestion.value, "src/");
    assert_eq!(suggestion.display, "src");
}

#[test]
fn escaping_escaped_display_text_changes_nothing() {
    for raw in ["plain", "tab\there", "bidi\u{202e}txt", "\u{1b}[31mred", "already \\u{7}"] {
        let once = escape_display(raw);
        assert_eq!(escape_display(&once), once);
    }
}
