use dotman::config::Outer;
use dotman::config::Tool;
use dotman::engine::link_plan;
use dotman::engine::link_result_line;
use dotman::engine::purge_plan;
use dotman::engine::purge_result_line;
use dotman::engine::show_report;
use dotman::errors::ConfigError;
use dotman::parse::parse_config_with_home;
use dotman::paths::MyPath;

fn entry(name: &str, source: &str, target: &str) -> (String, Tool) {
    (
        name.to_string(),
        Tool {
            source: MyPath::from_string(source.to_string()),
            target: MyPath::from_string(target.to_string()),
        },
    )
}

#[test]
fn outer_max_is_largest_rendered_source() {
    let config = Outer { tool: vec![entry("a", "/s1", "/t1"), entry("b", "/longer", "/t2")] };
    assert_eq!(config.max(), 9);
}

#[test]
fn validate_needs_both_paths() {
    let (_, tool) = entry("a", "/s", "/t");
    assert!(tool.validate(true, true));
    assert!(!tool.validate(true, false));
    assert!(!tool.validate(false, true));
    assert!(!tool.validate(false, false));
}

#[test]
fn show_one_line_per_entry_with_indicators() {
    let config = Outer { tool: vec![entry("a", "/s1", "/t1"), entry("b", "/s2", "/t2")] };
    let lines = show_report(&config, &vec![true, false], &vec![false, true]);
    assert_eq!(lines.len(), 2);
    assert!(lines[0].contains("\"/s1\""));
    assert!(lines[0].contains("\"/t1\""));
    assert!(lines[0].contains("Ok"));
    assert!(lines[0].contains(":("));
    assert!(lines[1].contains("\"/s2\""));
    assert!(lines[1].contains("\"/t2\""));
}

#[test]
fn show_line_exact_format() {
    let config = Outer { tool: vec![entry("a", "/s", "/t")] };
    let lines = show_report(&config, &vec![true], &vec![false]);
    let expected = format!("\"/s\"  Ok -> \"/t\"{} .:(", ".".repeat(36));
    assert_eq!(lines[0], expected);
}

#[test]
fn link_plan_attempts_every_entry() {
    let config = Outer { tool: vec![entry("a", "/s1", "/t1"), entry("b", "/s2", "/t2")] };
    let plan = link_plan(&config, &vec![true, true], &vec![true, false]);
    assert_eq!(plan.len(), 2);
    assert_eq!(plan[0].name, "a");
    assert_eq!(plan[0].source.as_string(), "/s1");
    assert_eq!(plan[0].target.as_string(), "/t1");
    assert!(plan[0].already_valid);
    assert_eq!(plan[1].name, "b");
    assert!(!plan[1].already_valid);
}

#[test]
fn purge_plan_keeps_only_present_targets() {
    let config = Outer {
        tool: vec![entry("a", "/s1", "/t1"), entry("b", "/s2", "/t2"), entry("c", "/s3", "/t3")],
    };
    let idx = purge_plan(&config, &vec![true, false, true]);
    assert_eq!(idx, vec![0usize, 2usize]);
}

#[test]
fn purge_plan_is_empty_when_nothing_exists() {
    let config = Outer { tool: vec![entry("a", "/s1", "/t1")] };
    let idx = purge_plan(&config, &vec![false]);
    assert!(idx.is_empty());
}

#[test]
fn result_lines_name_the_entry() {
    let name = String::from("vim");
    assert_eq!(link_result_line(&name, false, true), "created link for `vim`");
    assert_eq!(link_result_line(&name, true, false), "link for `vim` already in place");
    assert_eq!(link_result_line(&name, false, false), "could not create link for `vim`");
    assert_eq!(purge_result_line(&name, true), "removed target for `vim`");
    assert_eq!(purge_result_line(&name, false), "could not remove target for `vim`");
}

#[test]
fn end_to_end_model_run() {
    let text = "[tool.a]\nsource = \"/tmp/a.txt\"\ntarget = \"/tmp/b.txt\"\n";
    let config = parse_config_with_home(text, &Some(String::from("/home/timon"))).unwrap();
    assert_eq!(config.tool.len(), 1);

    let plan = link_plan(&config, &vec![true], &vec![false]);
    assert_eq!(plan.len(), 1);
    assert!(!plan[0].already_valid);
    assert_eq!(plan[0].source.as_string(), "/tmp/a.txt");
    assert_eq!(plan[0].target.as_string(), "/tmp/b.txt");

    let lines = show_report(&config, &vec![true], &vec![true]);
    assert_eq!(lines.len(), 1);
    assert!(!lines[0].contains(":("));

    let idx = purge_plan(&config, &vec![true]);
    assert_eq!(idx, vec![0usize]);
    let idx_after = purge_plan(&config, &vec![false]);
    assert!(idx_after.is_empty());
}

#[test]
fn read_error_message_contains_path() {
    let err = ConfigError::Read { path: String::from("test/file/doesnt/exist") };
    let msg = err.message();
    assert!(msg.contains("could not read file"));
    assert!(msg.contains("test/file/doesnt/exist"));
}

#[test]
fn parse_error_messages_name_the_pieces() {
    let err = parse_config_with_home("[tool.vim]\ntarget = \"/t\"\n", &None).unwrap_err();
    let msg = err.message();
    assert!(msg.contains("vim"));
    assert!(msg.contains("source"));
    let home_err = ConfigError::HomeResolution;
    assert!(home_err.message().contains("home directory"));
}
