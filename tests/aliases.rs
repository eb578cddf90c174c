use ga::alias::{read_reply, reply_of, Reply, Upsert};
use ga::cli::Mode;
use ga::launch::{cd_rest, exit_code, launch_from, plan_launch, shell_or_default, Launch};
use ga::store::{config_location, load_aliases, save_aliases, StoreError};
use ga::{Aliases, Cli};

fn s(x: &str) -> String {
    x.to_string()
}

fn sorted_pairs(a: &Aliases) -> Vec<(String, String)> {
    let mut v = a.to_pairs();
    v.sort();
    v
}

fn json(text: &str) -> serde_json::Value {
    serde_json::from_str(text).unwrap()
}

#[test]
fn new_name_is_inserted_and_found() {
    let mut a = Aliases::new();
    assert_eq!(a.upsert(s("ll"), s("ls -la"), Reply::No), Upsert::Inserted);
    assert_eq!(a.lookup(&s("ll")), Some(s("ls -la")));
    assert_eq!(a.len(), 1);
}

#[test]
fn new_name_ignores_reply() {
    let mut a = Aliases::new();
    assert_eq!(a.upsert(s("x"), s("echo x"), Reply::Invalid), Upsert::Inserted);
    assert_eq!(a.lookup(&s("x")), Some(s("echo x")));
}

#[test]
fn reply_no_keeps_existing_command() {
    let mut a = Aliases::new();
    a.upsert(s("gp"), s("git push"), Reply::No);
    assert_eq!(a.upsert(s("gp"), s("git pull"), Reply::No), Upsert::Kept);
    assert_eq!(a.lookup(&s("gp")), Some(s("git push")));
    assert_eq!(a.len(), 1);
}

#[test]
fn invalid_reply_keeps_existing_command() {
    let mut a = Aliases::new();
    a.upsert(s("gp"), s("git push"), Reply::No);
    assert_eq!(a.upsert(s("gp"), s("git pull"), read_reply("maybe")), Upsert::KeptOnInvalid);
    assert_eq!(a.lookup(&s("gp")), Some(s("git push")));
}

#[test]
fn reply_yes_overwrites_command() {
    let mut a = Aliases::new();
    a.upsert(s("gp"), s("git push"), Reply::No);
    a.upsert(s("st"), s("git status"), Reply::No);
    assert_eq!(a.upsert(s("gp"), s("git pull"), Reply::Yes), Upsert::Updated);
    assert_eq!(a.lookup(&s("gp")), Some(s("git pull")));
    assert_eq!(a.lookup(&s("st")), Some(s("git status")));
    assert_eq!(a.len(), 2);
}

#[test]
fn replies_are_trimmed_and_case_folded() {
    assert_eq!(read_reply("  YES \n"), Reply::Yes);
    assert_eq!(read_reply("Y\n"), Reply::Yes);
    assert_eq!(read_reply("No"), Reply::No);
    assert_eq!(read_reply(" n "), Reply::No);
    assert_eq!(read_reply("yep"), Reply::Invalid);
    assert_eq!(read_reply(""), Reply::Invalid);
}

#[test]
fn folded_replies() {
    assert_eq!(reply_of("y"), Reply::Yes);
    assert_eq!(reply_of("yes"), Reply::Yes);
    assert_eq!(reply_of("n"), Reply::No);
    assert_eq!(reply_of("no"), Reply::No);
    assert_eq!(reply_of("YES"), Reply::Invalid);
    assert_eq!(reply_of(" y"), Reply::Invalid);
}

#[test]
fn absent_key_is_not_found_and_runs_literally() {
    let mut a = Aliases::new();
    a.upsert(s("gp"), s("git push"), Reply::No);
    assert_eq!(a.lookup(&s("ls -la")), None);
    assert!(!a.contains(&s("ls -la")));
    assert_eq!(a.resolve(&s("ls -la")), s("ls -la"));
    assert_eq!(a.resolve(&s("gp")), s("git push"));
}

#[test]
fn missing_file_loads_empty_table() {
    let a = load_aliases(None).unwrap();
    assert_eq!(a.len(), 0);
    assert_eq!(a.lookup(&s("gp")), None);
}

#[test]
fn invalid_json_is_a_parse_error() {
    assert_eq!(load_aliases(Some("{\"aliases\": {\"gp\": ")).err(), Some(StoreError::Parse));
    assert_eq!(load_aliases(Some("not json")).err(), Some(StoreError::Parse));
    assert_eq!(load_aliases(Some("")).err(), Some(StoreError::Parse));
}

#[test]
fn document_without_aliases_member_is_a_parse_error() {
    assert_eq!(load_aliases(Some("{}")).err(), Some(StoreError::Parse));
    assert_eq!(load_aliases(Some("{\"other\": {}}")).err(), Some(StoreError::Parse));
}

#[test]
fn loads_stored_aliases() {
    let a = load_aliases(Some("{\"aliases\": {\"gp\": \"git push\", \"ll\": \"ls -la\"}}")).unwrap();
    assert_eq!(a.len(), 2);
    assert_eq!(a.lookup(&s("gp")), Some(s("git push")));
    assert_eq!(a.lookup(&s("ll")), Some(s("ls -la")));
}

#[test]
fn empty_object_loads_empty_table() {
    let a = load_aliases(Some("{\"aliases\": {}}")).unwrap();
    assert_eq!(a.len(), 0);
}

#[test]
fn save_then_load_gives_same_table() {
    let text = "{\"aliases\": {\"gp\": \"git push\", \"ll\": \"ls -la\", \"q\": \"say \\\"hi\\\"\"}}";
    let a = load_aliases(Some(text)).unwrap();
    let saved = save_aliases(&a);
    let b = load_aliases(Some(&saved)).unwrap();
    assert_eq!(sorted_pairs(&a), sorted_pairs(&b));
    assert_eq!(save_aliases(&b), saved);
    assert_eq!(b.lookup(&s("q")), Some(s("say \"hi\"")));
}

#[test]
fn saved_text_is_pretty_printed() {
    let mut a = Aliases::new();
    a.upsert(s("gp"), s("git push"), Reply::No);
    let saved = save_aliases(&a);
    assert_eq!(saved, "{\n  \"aliases\": {\n    \"gp\": \"git push\"\n  }\n}");
}

#[test]
fn add_to_missing_file_writes_document() {
    let mut a = load_aliases(None).unwrap();
    assert!(!a.contains(&s("gp")));
    assert_eq!(a.upsert(s("gp"), s("git push"), Reply::No), Upsert::Inserted);
    let saved = save_aliases(&a);
    assert_eq!(json(&saved), json("{\"aliases\":{\"gp\":\"git push\"}}"));
}

#[test]
fn confirmed_update_replaces_command() {
    let mut a = load_aliases(Some("{\"aliases\":{\"gp\":\"git push\"}}")).unwrap();
    assert!(a.contains(&s("gp")));
    let reply = read_reply("y\n");
    assert_eq!(a.upsert(s("gp"), s("git push --force"), reply), Upsert::Updated);
    assert_eq!(a.lookup(&s("gp")), Some(s("git push --force")));
    let saved = save_aliases(&a);
    assert_eq!(json(&saved), json("{\"aliases\":{\"gp\":\"git push --force\"}}"));
}

#[test]
fn run_resolves_alias_for_launcher() {
    let a = load_aliases(Some("{\"aliases\":{\"gp\":\"git push --force\"}}")).unwrap();
    let cmd = a.resolve(&s("gp"));
    assert_eq!(cmd, s("git push --force"));
    assert_eq!(plan_launch(&cmd), Launch::Spawn { command: s("git push --force") });
}

#[test]
fn run_cd_changes_directory() {
    let a = Aliases::new();
    let cmd = a.resolve(&s("cd /tmp"));
    assert_eq!(plan_launch(&cmd), Launch::ChangeDir { dir: s("/tmp") });
}

#[test]
fn cd_target_is_trimmed() {
    assert_eq!(plan_launch("  cd   /var/log  \n"), Launch::ChangeDir { dir: s("/var/log") });
}

#[test]
fn bare_cd_runs_in_subshell() {
    assert_eq!(plan_launch("cd"), Launch::Spawn { command: s("cd") });
    assert_eq!(plan_launch(" cd "), Launch::Spawn { command: s(" cd ") });
    assert_eq!(plan_launch("cdx /tmp"), Launch::Spawn { command: s("cdx /tmp") });
}

#[test]
fn other_commands_run_untrimmed() {
    assert_eq!(plan_launch(" ls -la | less "), Launch::Spawn { command: s(" ls -la | less ") });
}

#[test]
fn show_lists_every_alias() {
    let a = load_aliases(Some("{\"aliases\":{\"a\":\"cmd1\",\"b\":\"cmd2\"}}")).unwrap();
    let mut lines = a.listing();
    lines.sort();
    assert_eq!(lines, vec![s("a ~> cmd1"), s("b ~> cmd2")]);
}

#[test]
fn empty_table_lists_nothing() {
    assert!(Aliases::new().listing().is_empty());
}

#[test]
fn config_paths_below_home() {
    let loc = config_location(Some(s("/home/u"))).unwrap();
    assert_eq!(loc.dir, s("/home/u/.config/ga"));
    assert_eq!(loc.file, s("/home/u/.config/ga/aliases.json"));
    let loc = config_location(Some(s("/home/u/"))).unwrap();
    assert_eq!(loc.file, s("/home/u/.config/ga/aliases.json"));
}

#[test]
fn missing_home_is_config_error() {
    assert!(matches!(config_location(None), Err(StoreError::Config)));
}

#[test]
fn shell_defaults_to_posix_shell() {
    assert_eq!(shell_or_default(None), s("/bin/sh"));
    assert_eq!(shell_or_default(Some(s("/bin/zsh"))), s("/bin/zsh"));
}

#[test]
fn exit_code_defaults_to_one() {
    assert_eq!(exit_code(Some(0)), 0);
    assert_eq!(exit_code(Some(42)), 42);
    assert_eq!(exit_code(None), 1);
}

fn cli(cmd: Option<&str>, name: Option<&str>, command: Option<&str>, show: bool) -> Cli {
    Cli { cmd: cmd.map(s), name: name.map(s), command: command.map(s), show }
}

#[test]
fn show_flag_wins() {
    assert_eq!(cli(Some("gp"), Some("a"), Some("b"), true).mode(), Mode::Show);
}

#[test]
fn positional_command_runs() {
    assert_eq!(cli(Some("gp"), Some("a"), Some("b"), false).mode(), Mode::Run { target: s("gp") });
}

#[test]
fn name_and_command_add() {
    assert_eq!(
        cli(None, Some("gp"), Some("git push"), false).mode(),
        Mode::Add { name: s("gp"), command: s("git push") }
    );
}

#[test]
fn partial_add_does_nothing() {
    assert_eq!(cli(None, Some("gp"), None, false).mode(), Mode::Idle);
    assert_eq!(cli(None, None, Some("git push"), false).mode(), Mode::Idle);
    assert_eq!(cli(None, None, None, false).mode(), Mode::Idle);
}

#[test]
fn empty_table_is_still_saved() {
    assert_eq!(save_aliases(&Aliases::new()), "{\n  \"aliases\": {}\n}");
}

#[test]
fn cd_rest_needs_prefix() {
    assert_eq!(cd_rest("cd /tmp"), Some("/tmp"));
    assert_eq!(cd_rest("cd   x "), Some("  x "));
    assert_eq!(cd_rest("cd "), Some(""));
    assert_eq!(cd_rest("cd"), None);
    assert_eq!(cd_rest("cdx"), None);
    assert_eq!(cd_rest("ls"), None);
}

#[test]
fn launch_from_parts() {
    assert_eq!(launch_from("cd /tmp", Some("/tmp")), Launch::ChangeDir { dir: s("/tmp") });
    assert_eq!(launch_from(" cd ", Some("")), Launch::Spawn { command: s(" cd ") });
    assert_eq!(launch_from("ls -la", None), Launch::Spawn { command: s("ls -la") });
}
