use minishell::engine::{
    command_not_found_message, dir_not_exist_message, not_a_directory_message, unset_usage_message,
    CdOutcome, PathStatus, Shell, Step,
};
use minishell::env_store::EnvStore;
use minishell::history::History;
use minishell::script::{should_execute_line, split_lines};
use minishell::text::tokenize;

fn fresh_shell() -> Shell {
    Shell::new("->".to_string(), "/home/user".to_string(), EnvStore::new())
}

fn get(shell: &Shell, key: &str) -> Option<String> {
    shell.env.get(key).cloned()
}

#[test]
fn empty_line_is_a_no_op() {
    let mut shell = fresh_shell();
    assert!(matches!(shell.execute_command(""), Step::Done));
}

#[test]
fn whitespace_only_line_is_a_no_op() {
    let mut shell = fresh_shell();
    assert!(matches!(shell.execute_command("   \t  "), Step::Done));
}

#[test]
fn assignment_alone_updates_environment_and_spawns_nothing() {
    let mut shell = fresh_shell();
    let step = shell.execute_command("FOO=bar");
    match step {
        Step::Assigned(pairs) => {
            assert_eq!(pairs, vec![("FOO".to_string(), "bar".to_string())]);
        }
        other => panic!("expected an assignment step, got {:?}", other),
    }
    assert_eq!(get(&shell, "FOO"), Some("bar".to_string()));
}

#[test]
fn assignment_then_expansion_spawns_with_substituted_argument() {
    let mut shell = fresh_shell();
    shell.execute_command("FOO=bar");
    let step = shell.execute_command("echo $FOO");
    match step {
        Step::Spawn { name, args, background } => {
            assert_eq!(name, "echo");
            assert_eq!(args, vec!["bar".to_string()]);
            assert!(!background);
        }
        other => panic!("expected a spawn step, got {:?}", other),
    }
}

#[test]
fn assignment_beside_command_name_suppresses_the_command() {
    let mut shell = fresh_shell();
    let step = shell.execute_command("FOO=bar ls");
    assert!(matches!(step, Step::Assigned(_)));
    assert_eq!(get(&shell, "FOO"), Some("bar".to_string()));
}

#[test]
fn doubled_equals_keeps_value_after_stripping() {
    let mut shell = fresh_shell();
    shell.execute_command("A==b");
    assert_eq!(get(&shell, "A"), Some("b".to_string()));
}

#[test]
fn leading_dollar_is_stripped_from_assignment_key() {
    let mut shell = fresh_shell();
    shell.execute_command("$X=5");
    assert_eq!(get(&shell, "X"), Some("5".to_string()));
}

#[test]
fn unknown_variable_stays_literal() {
    let mut shell = fresh_shell();
    let step = shell.execute_command("echo $NOPE");
    match step {
        Step::Spawn { args, .. } => assert_eq!(args, vec!["$NOPE".to_string()]),
        other => panic!("expected a spawn step, got {:?}", other),
    }
}

#[test]
fn expansion_runs_twice_over_arguments() {
    let mut shell = fresh_shell();
    shell.env.set("B".to_string(), "x".to_string());
    shell.env.set("A".to_string(), "$B".to_string());
    let step = shell.execute_command("echo $A");
    match step {
        Step::Spawn { args, .. } => assert_eq!(args, vec!["x".to_string()]),
        other => panic!("expected a spawn step, got {:?}", other),
    }
}

#[test]
fn cd_to_missing_path_leaves_directory_and_reports() {
    let mut shell = fresh_shell();
    let step = shell.execute_command("cd /nonexistent");
    match step {
        Step::Cd(path) => {
            assert_eq!(path, "/nonexistent");
            let outcome = shell.apply_cd(path, PathStatus::Missing);
            assert_eq!(outcome, CdOutcome::NotFound);
        }
        other => panic!("expected a cd step, got {:?}", other),
    }
    assert_eq!(shell.active_directory, "/home/user");
    assert_eq!(dir_not_exist_message(), "Directory does not exist.");
}

#[test]
fn cd_to_existing_directory_commits_the_path() {
    let mut shell = fresh_shell();
    let step = shell.execute_command("cd /tmp");
    match step {
        Step::Cd(path) => {
            assert_eq!(path, "/tmp");
            let outcome = shell.apply_cd(path, PathStatus::Dir);
            assert_eq!(outcome, CdOutcome::Changed);
        }
        other => panic!("expected a cd step, got {:?}", other),
    }
    assert_eq!(shell.active_directory, "/tmp");
}

#[test]
fn cd_to_regular_file_is_refused() {
    let mut shell = fresh_shell();
    let step = shell.execute_command("cd /etc/hostname");
    match step {
        Step::Cd(path) => {
            let outcome = shell.apply_cd(path, PathStatus::File);
            assert_eq!(outcome, CdOutcome::NotADirectory);
        }
        other => panic!("expected a cd step, got {:?}", other),
    }
    assert_eq!(shell.active_directory, "/home/user");
    assert_eq!(not_a_directory_message(), "Not a directory.");
}

#[test]
fn relative_cd_resolves_against_working_directory() {
    let mut shell = fresh_shell();
    let step = shell.execute_command("cd docs");
    match step {
        Step::Cd(path) => assert_eq!(path, "/home/user/docs"),
        other => panic!("expected a cd step, got {:?}", other),
    }
}

#[test]
fn cd_without_argument_uses_home_variable() {
    let mut shell = fresh_shell();
    shell.env.set("HOME".to_string(), "/home/u".to_string());
    let step = shell.execute_command("cd");
    match step {
        Step::Cd(path) => assert_eq!(path, "/home/u"),
        other => panic!("expected a cd step, got {:?}", other),
    }
}

#[test]
fn cd_without_argument_and_without_home_is_fatal() {
    let mut shell = fresh_shell();
    assert!(matches!(shell.execute_command("cd"), Step::NoHome));
}

#[test]
fn unset_without_argument_prints_usage_and_keeps_store() {
    let mut shell = fresh_shell();
    shell.env.set("KEEP".to_string(), "1".to_string());
    let step = shell.execute_command("unset");
    assert!(matches!(step, Step::UnsetUsage));
    assert_eq!(get(&shell, "KEEP"), Some("1".to_string()));
    assert_eq!(unset_usage_message(), "Usage: unset <variable>");
}

#[test]
fn unset_removes_the_variable() {
    let mut shell = fresh_shell();
    shell.env.set("FOO".to_string(), "bar".to_string());
    let step = shell.execute_command("unset FOO");
    match step {
        Step::Unset(name) => assert_eq!(name, "FOO"),
        other => panic!("expected an unset step, got {:?}", other),
    }
    assert_eq!(get(&shell, "FOO"), None);
}

#[test]
fn unset_of_absent_variable_is_a_quiet_no_op() {
    let mut shell = fresh_shell();
    let step = shell.execute_command("unset NOSUCH");
    assert!(matches!(step, Step::Unset(_)));
}

#[test]
fn exit_and_help_dispatch_as_builtins() {
    let mut shell = fresh_shell();
    assert!(matches!(shell.execute_command("exit"), Step::Exit));
    assert!(matches!(shell.execute_command("help"), Step::Help));
}

#[test]
fn background_marker_is_stripped_and_flagged() {
    let mut shell = fresh_shell();
    let step = shell.execute_command("sleep 10 &");
    match step {
        Step::Spawn { name, args, background } => {
            assert_eq!(name, "sleep");
            assert_eq!(args, vec!["10".to_string()]);
            assert!(background);
        }
        other => panic!("expected a spawn step, got {:?}", other),
    }
    assert_eq!(shell.interrupt_target(), None);
}

#[test]
fn foreground_job_is_tracked_between_spawn_and_wait() {
    let mut shell = fresh_shell();
    assert_eq!(shell.interrupt_target(), None);
    shell.on_spawned(4242);
    assert_eq!(shell.interrupt_target(), Some(4242));
    shell.on_wait_done();
    assert_eq!(shell.interrupt_target(), None);
}

#[test]
fn interrupt_without_foreground_job_is_absorbed() {
    let shell = fresh_shell();
    assert!(shell.ctrlc());
}

#[test]
fn unknown_command_reports_and_engine_continues() {
    let mut shell = fresh_shell();
    let step = shell.execute_command("unknown_binary_xyz");
    match step {
        Step::Spawn { name, args, background } => {
            assert_eq!(name, "unknown_binary_xyz");
            assert!(args.is_empty());
            assert!(!background);
        }
        other => panic!("expected a spawn step, got {:?}", other),
    }
    assert_eq!(
        command_not_found_message("unknown_binary_xyz"),
        "Command not found: unknown_binary_xyz"
    );
    assert!(matches!(shell.execute_command("exit"), Step::Exit));
}

#[test]
fn script_lines_run_until_exit_wins() {
    let mut shell = fresh_shell();
    let text = "echo one\n   \nexit\necho never";
    let lines = split_lines(text);
    assert_eq!(lines, vec!["echo one", "   ", "exit", "echo never"]);
    let mut executed = Vec::new();
    let mut exited_at = None;
    for (index, line) in lines.iter().enumerate() {
        if !should_execute_line(line) {
            continue;
        }
        match shell.execute_command(line) {
            Step::Exit => {
                exited_at = Some(index + 1);
                break;
            }
            step => executed.push(step),
        }
    }
    assert_eq!(exited_at, Some(3));
    assert_eq!(executed.len(), 1);
    assert!(matches!(executed[0], Step::Spawn { .. }));
}

#[test]
fn script_skips_blank_and_comment_lines() {
    assert!(!should_execute_line(""));
    assert!(!should_execute_line("   "));
    assert!(!should_execute_line(" \t \u{a0}"));
    assert!(!should_execute_line("# comment"));
    assert!(should_execute_line("ls -l"));
    assert!(should_execute_line("  ls"));
}

#[test]
fn tokenizer_splits_on_unicode_whitespace() {
    assert_eq!(tokenize("a\u{a0}b\u{2003}c"), vec!["a", "b", "c"]);
    let mut shell = fresh_shell();
    assert!(matches!(shell.execute_command("\u{a0}\u{3000}"), Step::Done));
}

#[test]
fn split_lines_handles_carriage_returns_and_trailing_break() {
    assert_eq!(split_lines("a\r\nb\nc\n"), vec!["a", "b", "c"]);
    assert_eq!(split_lines(""), Vec::<String>::new());
    assert_eq!(split_lines("a\n\nb"), vec!["a", "", "b"]);
}

#[test]
fn tokenizer_splits_on_runs_of_whitespace() {
    assert_eq!(tokenize("  a\t b  c "), vec!["a", "b", "c"]);
    assert_eq!(tokenize(""), Vec::<String>::new());
    assert_eq!(tokenize("one"), vec!["one"]);
}

#[test]
fn env_store_last_write_wins_and_remove_clears() {
    let mut env = EnvStore::new();
    env.set("K".to_string(), "1".to_string());
    env.set("K".to_string(), "2".to_string());
    assert_eq!(env.entries.len(), 1);
    assert_eq!(env.get("K").cloned(), Some("2".to_string()));
    env.remove("K");
    assert_eq!(env.get("K"), None);
    env.remove("K");
    assert_eq!(env.entries.len(), 0);
}

#[test]
fn history_buffers_until_half_the_maximum() {
    let mut history = History::new(4);
    assert!(history.add_history(&"one".to_string()).is_none());
    assert!(history.add_history(&"two".to_string()).is_none());
    let flushed = history.add_history(&"three".to_string());
    assert_eq!(flushed, Some(vec!["one".to_string(), "two".to_string(), "three".to_string()]));
    assert!(history.buffer.is_empty());
}

#[test]
fn history_flush_empties_the_buffer() {
    let mut history = History::new(100);
    history.add_history(&"a".to_string());
    history.add_history(&"b".to_string());
    let out = history.flush_history();
    assert_eq!(out, vec!["a".to_string(), "b".to_string()]);
    assert!(history.buffer.is_empty());
    assert_eq!(History::_get_history_entry(0), String::new());
}

#[test]
fn prompt_shows_directory_then_prompt_string() {
    let shell = fresh_shell();
    assert_eq!(shell.render_prompt("/tmp"), "/tmp -> ");
}
