use packager::{
    check_matches, copy_target, plan_from_words, plan_run, replace_pattern, replaced_content,
    run_outcome, walk_settings, CommandError, Invocation, Pattern, Replace, Run, RunPlan,
};

fn copy(use_gitignore: bool) -> packager::config::Copy {
    packager::config::Copy {
        source: "src".to_string(),
        destination: "out".to_string(),
        gitignore_path: ".packignore".to_string(),
        use_gitignore,
    }
}

fn replace(source: &str, regex: &str, replacement: &str) -> Replace {
    Replace {
        source: source.to_string(),
        regex: regex.to_string(),
        replacement: replacement.to_string(),
    }
}

fn strings(words: &[&str]) -> Vec<String> {
    words.iter().map(|w| w.to_string()).collect()
}

#[test]
fn copy_walks_everything_without_ignore_rules() {
    let s = walk_settings(&copy(false));
    assert!(!s.standard_filters);
    assert_eq!(s.custom_ignore_file, None);
}

#[test]
fn copy_honours_its_ignore_file() {
    let s = walk_settings(&copy(true));
    assert!(s.standard_filters);
    assert_eq!(s.custom_ignore_file, Some(".packignore".to_string()));
}

#[test]
fn copy_target_joins_relative_path() {
    assert_eq!(copy_target("out", "sub/b.txt"), "out/sub/b.txt");
    assert_eq!(copy_target("out", "a.txt"), "out/a.txt");
}

#[test]
fn replace_rewrites_every_match() {
    let r = replace("*.txt", r"\d+", "N");
    let p = replace_pattern(&r).unwrap();
    assert_eq!(replaced_content(&p, &r, "a1b22c"), "aNbNc");
    assert_eq!(replaced_content(&p, &r, "none"), "none");
}

#[test]
fn replace_expands_capture_groups() {
    let r = replace("*.txt", r"(\w+)@(\w+)", "$2 at $1");
    let p = replace_pattern(&r).unwrap();
    assert_eq!(replaced_content(&p, &r, "me@host!"), "host at me!");
}

#[test]
fn replace_rejects_an_invalid_pattern() {
    let r = replace("*.txt", "(unclosed", "x");
    assert_eq!(
        replace_pattern(&r).err(),
        Some(CommandError::InvalidPattern("(unclosed".to_string()))
    );
    assert!(Pattern::new("[").is_err());
}

#[test]
fn replace_with_no_matching_file_fails() {
    let r = replace("nothing/*.none", "a", "b");
    assert_eq!(
        check_matches(&r, 0),
        Err(CommandError::NoFilesMatched("nothing/*.none".to_string()))
    );
    assert_eq!(check_matches(&r, 2), Ok(()));
}

#[test]
fn run_splits_words_and_plans_the_shell_fallback() {
    let plan = plan_run(&Run { command: "echo 'a b' \"c\\\"d\"".to_string() }, false).unwrap();
    assert_eq!(
        plan,
        RunPlan {
            direct: Invocation { program: "echo".to_string(), args: strings(&["a b", "c\"d"]) },
            fallback: Invocation {
                program: "sh".to_string(),
                args: strings(&["-c", "echo 'a b' \"c\\\"d\""]),
            },
        }
    );
}

#[test]
fn run_fallback_carries_a_pipeline() {
    let line = "nonexistent_prog_zq 2>/dev/null | true";
    let plan = plan_run(&Run { command: line.to_string() }, false).unwrap();
    assert_eq!(plan.direct.program, "nonexistent_prog_zq");
    assert_eq!(plan.direct.args, strings(&["2>/dev/null", "|", "true"]));
    assert_eq!(plan.fallback.program, "sh");
    assert_eq!(plan.fallback.args, strings(&["-c", line]));
}

#[test]
fn run_on_windows_uses_cmd() {
    let plan = plan_from_words("dir /b", &strings(&["dir", "/b"]), true).unwrap();
    assert_eq!(plan.fallback.program, "cmd");
    assert_eq!(plan.fallback.args, strings(&["/C", "dir /b"]));
    assert_eq!(plan.direct.args, strings(&["/b"]));
}

#[test]
fn run_rejects_bad_command_lines() {
    assert_eq!(
        plan_run(&Run { command: "echo 'open".to_string() }, false),
        Err(CommandError::InvalidCommandLine("echo 'open".to_string()))
    );
    assert_eq!(
        plan_run(&Run { command: "   ".to_string() }, false),
        Err(CommandError::InvalidCommandLine("   ".to_string()))
    );
    assert_eq!(
        plan_from_words("", &Vec::new(), false),
        Err(CommandError::InvalidCommandLine(String::new()))
    );
}

#[test]
fn run_outcome_follows_exit_status() {
    assert_eq!(run_outcome(true, "warning".to_string()), Ok(()));
    assert_eq!(
        run_outcome(false, "boom".to_string()),
        Err(CommandError::CommandFailed("boom".to_string()))
    );
}
