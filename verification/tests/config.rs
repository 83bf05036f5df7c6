use neatify::config::{Config, Stages};
use neatify::processor::QuoteStyle;
use neatify::utils::{parse_quote_style, str_to_quote_style};

fn empty() -> Config {
    Config {
        indent_size: None,
        remove_comments: None,
        remove_empty_lines: None,
        remove_trailing_spaces: None,
        quote_style: None,
        bracket_spacing: None,
        ignore_files: None,
        path: None,
    }
}

#[test]
fn an_empty_configuration_switches_every_stage_off() {
    let off = Stages {
        comments: false,
        empty_lines: false,
        trailing_spaces: false,
        bracket_spacing: false,
        quote_style: None,
        indent: None,
    };
    assert_eq!(empty().stages(), Some(off));
    assert_eq!(empty().root_path(), ".");
    assert_eq!(empty().ignored_names(), Vec::<String>::new());
}

#[test]
fn a_switch_is_on_only_where_it_is_true() {
    let mut config = empty();
    config.remove_comments = Some(true);
    config.remove_empty_lines = Some(false);
    config.bracket_spacing = Some(true);
    config.indent_size = Some(4);
    let stages = config.stages().unwrap();
    assert!(stages.comments && stages.bracket_spacing);
    assert!(!stages.empty_lines && !stages.trailing_spaces);
    assert_eq!(stages.indent, Some(4));
    assert_eq!(stages.quote_style, None);
    config.remove_trailing_spaces = Some(true);
    assert!(config.stages().unwrap().trailing_spaces);
}

#[test]
fn the_quote_style_is_read_in_any_case() {
    let mut config = empty();
    config.quote_style = Some("Double".to_string());
    assert_eq!(config.stages().unwrap().quote_style, Some(QuoteStyle::Double));
    config.quote_style = Some("SINGLE".to_string());
    assert_eq!(config.stages().unwrap().quote_style, Some(QuoteStyle::Single));
}

#[test]
fn an_unknown_quote_style_resolves_to_nothing() {
    let mut config = empty();
    config.remove_comments = Some(true);
    for name in ["", "doubles", " double", "triple", "sıngle"] {
        config.quote_style = Some(name.to_string());
        assert_eq!(config.stages(), None, "{:?}", name);
    }
}

#[test]
fn path_and_ignore_are_taken_over() {
    let mut config = empty();
    config.path = Some("./examples".to_string());
    config.ignore_files = Some(vec!["a".to_string(), "b c".to_string()]);
    assert_eq!(config.root_path(), "./examples");
    assert_eq!(config.ignored_names(), vec!["a".to_string(), "b c".to_string()]);
}

#[test]
fn a_style_name_is_matched_exactly() {
    assert_eq!(str_to_quote_style("single".to_string()), Some(QuoteStyle::Single));
    assert_eq!(str_to_quote_style("double".to_string()), Some(QuoteStyle::Double));
    assert_eq!(str_to_quote_style("Single".to_string()), None);
    assert_eq!(str_to_quote_style("double ".to_string()), None);
    assert_eq!(str_to_quote_style("".to_string()), None);
}

#[test]
fn parsing_agrees_with_lowercasing_by_std() {
    let names = [
        "single", "Single", "sInGlE", "DOUBLE", "dOuble", "double", "", "singl", "singlee",
        "s\u{130}ngle", "dou\u{212a}le", "\u{ff33}ingle", "SI\u{3a3}", "doublE", "D", "s i n g l e",
    ];
    for name in names {
        assert_eq!(
            parse_quote_style(name),
            str_to_quote_style(name.to_lowercase()),
            "{:?}",
            name
        );
    }
}
