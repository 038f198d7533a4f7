use judge_core::config::{interactor_args, checker_args, script_limit_config, JudgeConfig, LimitPair, RlimitConfig};
use judge_core::utils::{compare_lines, TemplateCommand};

fn config() -> JudgeConfig {
    JudgeConfig {
        rlimit: RlimitConfig {
            stack_limit: None,
            as_limit: None,
            cpu_limit: Some(LimitPair { soft: 2, hard: 3 }),
            nproc_limit: None,
            fsize_limit: None,
        },
        input_file_path: String::from("data/1.in"),
        output_file_path: String::from("work/1.out"),
        answer_file_path: String::from("data/1.ans"),
        check_file_path: String::from("work/1.chk"),
        has_checker: true,
    }
}

#[test]
fn template_command_substitutes_in_order() {
    let cmd = TemplateCommand::new(
        String::from("python3 {source} {extra}"),
        vec![String::from("{source}"), String::from("{extra}")],
    );
    let built = cmd.get_command(vec![String::from("main.py"), String::from("--fast")]);
    assert_eq!(built, "python3 main.py --fast");
}

#[test]
fn template_command_replaces_every_occurrence() {
    let cmd = TemplateCommand::new(
        String::from("{bin} && {bin}"),
        vec![String::from("{bin}")],
    );
    let built = cmd.get_command(vec![String::from("./a.out")]);
    assert_eq!(built, "./a.out && ./a.out");
}

#[test]
fn template_command_without_placeholders_is_unchanged() {
    let cmd = TemplateCommand::new(String::from("echo hello"), Vec::new());
    let built = cmd.get_command(Vec::new());
    assert_eq!(built, "echo hello");
}

#[test]
fn compare_lines_ignores_trailing_whitespace() {
    let a = vec![String::from("7 "), String::from("ok\t")];
    let b = vec![String::from("7"), String::from("ok")];
    assert!(compare_lines(&a, &b));
}

#[test]
fn compare_lines_detects_difference() {
    let a = vec![String::from("7")];
    let b = vec![String::from("8")];
    assert!(!compare_lines(&a, &b));
}

#[test]
fn compare_lines_keeps_leading_whitespace_significant() {
    let a = vec![String::from(" 7")];
    let b = vec![String::from("7")];
    assert!(!compare_lines(&a, &b));
}

#[test]
fn compare_lines_checks_only_the_overlap() {
    let a = vec![String::from("7")];
    let b = vec![String::from("7"), String::from("extra")];
    assert!(compare_lines(&a, &b));
}

#[test]
fn interactor_args_carry_the_three_paths() {
    let args = interactor_args(&config());
    assert_eq!(
        args,
        vec![
            String::new(),
            String::from("data/1.in"),
            String::from("work/1.out"),
            String::from("data/1.ans"),
        ]
    );
}

#[test]
fn checker_args_add_the_check_file() {
    let args = checker_args(&config());
    assert_eq!(args.len(), 5);
    assert_eq!(args[4], "work/1.chk");
}

#[test]
fn script_limits_are_relaxed() {
    let limits = script_limit_config();
    assert_eq!(limits.cpu_limit, Some(LimitPair { soft: 3600, hard: 3600 }));
    assert_eq!(limits.fsize_limit, None);
    assert_eq!(limits.nproc_limit, None);
}
