//! The command that evaluates a repository into its deployment description.

use crate::data::texts;
use vstd::prelude::*;
use vstd::string::StringExecFns;

verus! {

/// A program and the arguments to run it with.
#[derive(Debug)]
pub struct EvalCommand {
    pub program: String,
    pub args: Vec<String>,
}

/// The program that evaluates: `nix` where flakes are supported, the legacy
/// evaluator where they are not.
pub open spec fn program_for(supports_flakes: bool) -> Seq<char> {
    if supports_flakes {
        "nix"@
    } else {
        "nix-instanciate"@
    }
}

/// The expression that the legacy evaluator is given for `repo`.
pub open spec fn legacy_expression(repo: Seq<char>) -> Seq<char> {
    "let r = import "@ + repo
        + "/.; in if builtins.isFunction r then (r {}).deploy else r.deploy"@
}

/// The arguments that come before the caller's own.
pub open spec fn fixed_args(supports_flakes: bool, repo: Seq<char>) -> Seq<Seq<char>> {
    if supports_flakes {
        seq!["eval"@, "--json"@, repo + "#deploy"@]
    } else {
        seq![
            "--strict"@,
            "--read-write-mode"@,
            "--json"@,
            "--eval"@,
            "--E"@,
            legacy_expression(repo),
        ]
    }
}

/// Builds the command that prints the deployment description of `repo` as
/// JSON. The caller's extra arguments follow the fixed ones, in order.
pub fn eval_command(supports_flakes: bool, repo: &str, extra_build_args: &Vec<String>) -> (out:
    EvalCommand)
    ensures
        out.program@ == program_for(supports_flakes),
        texts(out.args@) == fixed_args(supports_flakes, repo@) + texts(extra_build_args@),
{
    let mut args: Vec<String> = Vec::new();
    let program = if supports_flakes {
        args.push(String::from_str("eval"));
        args.push(String::from_str("--json"));
        args.push(String::from_str(repo).concat("#deploy"));
        String::from_str("nix")
    } else {
        args.push(String::from_str("--strict"));
        args.push(String::from_str("--read-write-mode"));
        args.push(String::from_str("--json"));
        args.push(String::from_str("--eval"));
        args.push(String::from_str("--E"));
        args.push(
            String::from_str("let r = import ").concat(repo).concat(
                "/.; in if builtins.isFunction r then (r {}).deploy else r.deploy",
            ),
        );
        String::from_str("nix-instanciate")
    };
    let ghost fixed = fixed_args(supports_flakes, repo@);
    let ghost extra = texts(extra_build_args@);
    assert(texts(args@) =~= fixed);
    assert(texts(args@) =~= fixed + extra.take(0));
    let mut i: usize = 0;
    while i < extra_build_args.len()
        invariant
            i <= extra_build_args@.len(),
            extra == texts(extra_build_args@),
            texts(args@) == fixed + extra.take(i as int),
        decreases extra_build_args@.len() - i,
    {
        let ghost before = args@;
        args.push(extra_build_args[i].clone());
        assert(texts(args@) =~= texts(before).push(extra[i as int]));
        assert(extra.take(i + 1) =~= extra.take(i as int).push(extra[i as int]));
        i += 1;
    }
    assert(extra.take(i as int) =~= extra);
    EvalCommand { program, args }
}

} // verus!
