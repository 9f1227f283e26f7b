use dotman::errors::ConfigError;
use dotman::errors::FieldName;
use dotman::errors::ParseError;
use dotman::parse::parse_config;
use dotman::parse::parse_config_with_home;

fn home() -> Option<String> {
    Some(String::from("/home/timon"))
}

#[test]
fn parse_two_entries() {
    let text = "[tool.vim]\nsource = \"~/dotfiles/vimrc\"\ntarget = \"~/.vimrc\"\n\n[tool.git]\nsource = \"/d/gitconfig\"\ntarget = \"/home/timon/.gitconfig\"\n";
    let config = parse_config_with_home(text, &home()).unwrap();
    assert_eq!(config.tool.len(), 2);
    assert_eq!(config.tool[0].0, "vim");
    assert_eq!(config.tool[0].1.source.as_string(), "/home/timon/dotfiles/vimrc");
    assert_eq!(config.tool[0].1.target.as_string(), "/home/timon/.vimrc");
    assert_eq!(config.tool[1].0, "git");
    assert_eq!(config.tool[1].1.source.as_string(), "/d/gitconfig");
    assert_eq!(config.tool[1].1.target.as_string(), "/home/timon/.gitconfig");
}

#[test]
fn parse_missing_source_fails() {
    let text = "[tool.vim]\ntarget = \"/t\"\n";
    let r = parse_config_with_home(text, &home());
    match r {
        Err(ConfigError::Parse { kind: ParseError::MissingField { tool, field } }) => {
            assert_eq!(tool, "vim");
            assert_eq!(field, FieldName::Source);
        }
        _ => panic!("expected a missing-source parse error"),
    }
}

#[test]
fn parse_missing_target_fails() {
    let text = "[tool.vim]\nsource = \"/s\"\n";
    let r = parse_config_with_home(text, &home());
    match r {
        Err(ConfigError::Parse { kind: ParseError::MissingField { tool, field } }) => {
            assert_eq!(tool, "vim");
            assert_eq!(field, FieldName::Target);
        }
        _ => panic!("expected a missing-target parse error"),
    }
}

#[test]
fn parse_empty_text_has_no_tool_table() {
    let r = parse_config_with_home("", &home());
    assert!(matches!(
        r,
        Err(ConfigError::Parse { kind: ParseError::MissingToolTable })
    ));
}

#[test]
fn parse_tool_table_alone_is_empty_config() {
    let config = parse_config_with_home("[tool]\n", &home()).unwrap();
    assert_eq!(config.tool.len(), 0);
}

#[test]
fn parse_skips_comments_blanks_and_other_tables() {
    let text = "# a comment\n\n[other]\nx = \"1\"\n[tool.a]\nsource = \"/s\"\ntarget = \"/t\"\n";
    let config = parse_config_with_home(text, &home()).unwrap();
    assert_eq!(config.tool.len(), 1);
    assert_eq!(config.tool[0].0, "a");
}

#[test]
fn parse_ignores_unknown_entry_keys() {
    let text = "[tool.a]\nsource = \"/s\"\nmode = \"loose\"\ntarget = \"/t\"\n";
    let config = parse_config_with_home(text, &home()).unwrap();
    assert_eq!(config.tool.len(), 1);
    assert_eq!(config.tool[0].1.source.as_string(), "/s");
}

#[test]
fn parse_non_string_value_fails() {
    let text = "[tool.a]\nsource = 5\ntarget = \"/t\"\n";
    let r = parse_config_with_home(text, &home());
    match r {
        Err(ConfigError::Parse { kind: ParseError::BadLine { text } }) => {
            assert_eq!(text, "source = 5");
        }
        _ => panic!("expected a bad-line parse error"),
    }
}

#[test]
fn parse_duplicate_entry_fails() {
    let text = "[tool.a]\nsource = \"/s\"\ntarget = \"/t\"\n[tool.a]\nsource = \"/s2\"\ntarget = \"/t2\"\n";
    let r = parse_config_with_home(text, &home());
    match r {
        Err(ConfigError::Parse { kind: ParseError::DuplicateTable { name } }) => {
            assert_eq!(name, "a");
        }
        _ => panic!("expected a duplicate-table parse error"),
    }
}

#[test]
fn parse_duplicate_field_fails() {
    let text = "[tool.a]\nsource = \"/s\"\nsource = \"/s2\"\ntarget = \"/t\"\n";
    let r = parse_config_with_home(text, &home());
    match r {
        Err(ConfigError::Parse { kind: ParseError::DuplicateField { tool, field } }) => {
            assert_eq!(tool, "a");
            assert_eq!(field, FieldName::Source);
        }
        _ => panic!("expected a duplicate-field parse error"),
    }
}

#[test]
fn parse_key_directly_under_tool_fails() {
    let text = "[tool]\na = \"/x\"\n";
    let r = parse_config_with_home(text, &home());
    match r {
        Err(ConfigError::Parse { kind: ParseError::NotATable { name } }) => {
            assert_eq!(name, "a");
        }
        _ => panic!("expected a not-a-table parse error"),
    }
}

#[test]
fn parse_tilde_without_home_fails() {
    let text = "[tool.a]\nsource = \"~/s\"\ntarget = \"/t\"\n";
    let r = parse_config_with_home(text, &None);
    assert!(matches!(r, Err(ConfigError::HomeResolution)));
}

#[test]
fn parse_without_tilde_needs_no_home() {
    let text = "[tool.a]\nsource = \"/s\"\ntarget = \"/t\"\n";
    let config = parse_config_with_home(text, &None).unwrap();
    assert_eq!(config.tool.len(), 1);
}

#[test]
fn parse_handles_crlf_lines() {
    let text = "[tool.a]\r\nsource = \"/s\"\r\ntarget = \"/t\"\r\n";
    let config = parse_config_with_home(text, &home()).unwrap();
    assert_eq!(config.tool.len(), 1);
    assert_eq!(config.tool[0].1.target.as_string(), "/t");
}

#[test]
fn parse_config_reads_environment_home() {
    let text = "[tool.a]\nsource = \"/s\"\ntarget = \"/t\"\n";
    let config = parse_config(text).unwrap();
    assert_eq!(config.tool.len(), 1);
    assert_eq!(config.tool[0].1.source.as_string(), "/s");
}
