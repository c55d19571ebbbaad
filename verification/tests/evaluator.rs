use deploy_rs::evaluator::eval_command;

#[test]
fn flake_command_evaluates_the_deploy_attribute() {
    let out = eval_command(true, "github:org/fleet", &Vec::new());
    assert_eq!(out.program, "nix");
    assert_eq!(out.args, vec!["eval", "--json", "github:org/fleet#deploy"]);
}

#[test]
fn legacy_command_imports_the_repository() {
    let out = eval_command(false, "/etc/fleet", &Vec::new());
    assert_eq!(out.program, "nix-instanciate");
    assert_eq!(
        out.args,
        vec![
            "--strict",
            "--read-write-mode",
            "--json",
            "--eval",
            "--E",
            "let r = import /etc/fleet/.; in if builtins.isFunction r then (r {}).deploy else r.deploy",
        ]
    );
}

#[test]
fn extra_arguments_follow_in_order() {
    let extra = vec!["--impure".to_string(), "--show-trace".to_string()];
    let out = eval_command(true, ".", &extra);
    assert_eq!(out.args, vec!["eval", "--json", ".#deploy", "--impure", "--show-trace"]);
    let legacy = eval_command(false, ".", &extra);
    assert_eq!(legacy.args.len(), 8);
    assert_eq!(legacy.args[6], "--impure");
    assert_eq!(legacy.args[7], "--show-trace");
}

#[test]
fn extra_arguments_are_left_untouched() {
    let extra = vec!["--option".to_string(), "a b".to_string()];
    let _ = eval_command(true, "repo", &extra);
    assert_eq!(extra, vec!["--option", "a b"]);
}
