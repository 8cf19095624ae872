//! Findings about the checkout and the commands around it.
use sable::doctor::{
    clang_check_with_probe, command_version, inspect, join_path, lean_check, lean_check_from_probe,
    required_command, CheckStatus, ClangProbes, ClangStep, CommandOutcome, Probes,
};

fn exited(success: bool, stdout: &str, stderr: &str) -> CommandOutcome {
    CommandOutcome::Exited {
        success,
        status: "exit status: 3".into(),
        stdout: stdout.into(),
        stderr: stderr.into(),
    }
}

fn found_clang() -> ClangProbes {
    ClangProbes {
        configured: None,
        outcomes: vec![
            CommandOutcome::NotRun("No such file or directory".into()),
            exited(true, "clang version 17\n", ""),
        ],
    }
}

fn probes() -> Probes {
    Probes {
        root: "/work/sable".into(),
        cargo: exited(true, "cargo 1.80.0\n", ""),
        lake: exited(true, "Lake version 5\n", ""),
        pin: Ok("leanprover/lean4:v4.32.2\n".into()),
        lean: exited(true, "Lean (version 4.32.2, x86, Release)\n", ""),
        prelude: true,
        runtime: true,
        clang: found_clang(),
    }
}

#[test]
fn missing_checkout_is_a_required_failure() {
    let report = inspect("/path/that/is/not/a/sable/checkout", None);
    assert!(!report.ready());
    assert_eq!(report.checks.len(), 1);
    assert_eq!(report.checks[0].name, "checkout");
    assert_eq!(report.checks[0].status, CheckStatus::Error);
    assert_eq!(
        report.checks[0].detail,
        "no ancestor of /path/that/is/not/a/sable/checkout contains lean/lean-toolchain"
    );
}

#[test]
fn lean_check_requires_the_exact_pinned_version() {
    let pin = "leanprover/lean4:v4.32.2";
    let exact = lean_check_from_probe(
        pin,
        Ok("Lean (version 4.32.2, test-target, test-commit, Release)".into()),
    );
    assert_eq!(exact.status, CheckStatus::Okay);
    assert_eq!(exact.detail, "leanprover/lean4:v4.32.2 (Lean 4.32.2)");

    let mismatch = lean_check_from_probe(
        pin,
        Ok("Lean (version 4.32.1, test-target, test-commit, Release)".into()),
    );
    assert_eq!(mismatch.status, CheckStatus::Error);
    assert_eq!(
        mismatch.detail,
        "pinned `leanprover/lean4:v4.32.2` requires Lean 4.32.2, but `lake env lean --version` reported 4.32.1"
    );
}

#[test]
fn broken_explicit_clang_is_authoritative() {
    let configured = "/configured/clang";
    let mut probed: Vec<String> = Vec::new();
    let mut answers: Vec<Result<String, String>> = Vec::new();
    let check = loop {
        match clang_check_with_probe(Some(configured), &answers) {
            ClangStep::Probe(candidate) => {
                probed.push(candidate);
                answers.push(Err("test probe failed".into()));
            }
            ClangStep::Done(check) => break check,
        }
    };

    assert_eq!(probed, vec![configured.to_string()]);
    assert_eq!(check.status, CheckStatus::Warning);
    assert!(check.detail.contains("configured SABLE_CLANG="));
    assert!(check.detail.contains("no fallback attempted"));
}

#[test]
fn clang_candidates_are_tried_in_order() {
    let mut probed: Vec<String> = Vec::new();
    let mut answers: Vec<Result<String, String>> = Vec::new();
    let check = loop {
        match clang_check_with_probe(None, &answers) {
            ClangStep::Probe(candidate) => {
                answers.push(if candidate == "clang" {
                    Ok("clang version 17".into())
                } else {
                    Err("absent".into())
                });
                probed.push(candidate);
            }
            ClangStep::Done(check) => break check,
        }
    };
    assert_eq!(probed, ["/opt/homebrew/opt/llvm/bin/clang", "clang"]);
    assert_eq!(check.status, CheckStatus::Okay);
    assert_eq!(check.detail, "clang (clang version 17)");

    let nowhere = vec![Err("a".to_string()), Err("b".to_string())];
    let ClangStep::Done(check) = clang_check_with_probe(None, &nowhere) else {
        panic!("the search ends after two answers")
    };
    assert_eq!(check.status, CheckStatus::Warning);
    assert_eq!(
        check.detail,
        "not found; optional for verification, required for native execution"
    );

    let fine = vec![Ok("clang version 18".to_string())];
    let ClangStep::Done(check) = clang_check_with_probe(Some("/my/clang"), &fine) else {
        panic!("a configured candidate is asked once")
    };
    assert_eq!(check.detail, "SABLE_CLANG=/my/clang (clang version 18)");
}

#[test]
fn malformed_pins_and_reports_are_refused() {
    for pin in ["", "lean4", "lean4:v", "lean4:v4.3 2", "v4.32.2"] {
        let check = lean_check_from_probe(pin, Ok("Lean (version 4.32.2)".into()));
        assert_eq!(check.status, CheckStatus::Error);
        assert_eq!(check.detail, format!("unsupported Lean toolchain pin `{pin}`"));
    }
    let twice = lean_check_from_probe("a:v1:v2", Ok("Lean (version 2)".into()));
    assert_eq!(twice.detail, "a:v1:v2 (Lean 2)");
    for report in ["Lean", "Lean (version , x)", "lean (version 4.32.2)"] {
        let check = lean_check_from_probe("lean4:v4.32.2", Ok(report.into()));
        assert_eq!(check.status, CheckStatus::Error);
        assert_eq!(
            check.detail,
            format!("could not parse `lake env lean --version` output: {report}")
        );
    }
    let failed = lean_check_from_probe("lean4:v4.32.2", Err("cannot run".into()));
    assert_eq!(failed.status, CheckStatus::Error);
    assert_eq!(failed.detail, "cannot run");
    let unread = lean_check("/r/lean", Err("denied".into()), Ok(String::new()));
    assert_eq!(unread.detail, "cannot read /r/lean/lean-toolchain: denied");
}

#[test]
fn versions_are_read_off_the_first_telling_line() {
    let version = command_version("tool", &exited(true, "\n  \nwarning: old\n tool 3 \r\n", ""));
    assert_eq!(version, Ok("tool 3".to_string()));
    let version = command_version("tool", &exited(true, "", "tool 4\n"));
    assert_eq!(version, Ok("tool 4".to_string()));
    assert_eq!(
        command_version("tool", &exited(true, "warning: x\n", "")),
        Err("`tool` printed no version".to_string())
    );
    assert_eq!(
        command_version("tool", &exited(false, "tool 3", "\n broken\n")),
        Err("`tool` failed:  broken".to_string())
    );
    assert_eq!(
        command_version("tool", &exited(false, "tool 3", " \n")),
        Err("`tool` exited with exit status: 3".to_string())
    );
    assert_eq!(
        command_version("tool", &CommandOutcome::NotRun("no such file".into())),
        Err("cannot run `tool`: no such file".to_string())
    );
    let check = required_command("Tool", Err("gone".into()));
    assert_eq!(check.status, CheckStatus::Error);
    assert_eq!(check.detail, "gone");
}

#[test]
fn a_complete_checkout_is_ready() {
    let report = inspect("/work/sable/src", Some(probes()));
    assert!(report.ready());
    assert!(report.native_ready());
    assert_eq!(report.repo_root.as_deref(), Some("/work/sable"));
    let names: Vec<&str> = report.checks.iter().map(|c| c.name).collect();
    assert_eq!(
        names,
        ["checkout", "Cargo", "Lake", "Lean", "prelude", "hosted runtime", "Clang"]
    );
    assert_eq!(report.checks[1].detail, "cargo 1.80.0");
    assert_eq!(report.checks[3].detail, "leanprover/lean4:v4.32.2 (Lean 4.32.2)");
    assert_eq!(report.checks[6].detail, "clang (clang version 17)");
}

#[test]
fn clang_is_asked_until_the_search_ends() {
    let mut clang = ClangProbes { configured: None, outcomes: Vec::new() };
    let ClangStep::Probe(first) = clang.step() else {
        panic!("nothing was asked");
    };
    assert_eq!(first, "/opt/homebrew/opt/llvm/bin/clang");
    clang.outcomes.push(CommandOutcome::NotRun("gone".into()));
    let ClangStep::Probe(second) = clang.step() else {
        panic!("the second candidate was not asked");
    };
    assert_eq!(second, "clang");
    clang.outcomes.push(CommandOutcome::NotRun("gone".into()));
    let ClangStep::Done(check) = clang.step() else {
        panic!("the search goes on");
    };
    assert_eq!((check.name, check.status), ("Clang", CheckStatus::Warning));
}

#[test]
fn missing_parts_are_told_apart() {
    let mut p = probes();
    p.prelude = false;
    p.clang = ClangProbes {
        configured: Some("/my/clang".into()),
        outcomes: vec![exited(false, "", "\nno such target\n")],
    };
    let report = inspect("/work/sable", Some(p));
    assert!(report.ready());
    assert!(!report.native_ready());
    assert_eq!(report.checks[4].status, CheckStatus::Warning);
    assert_eq!(report.checks[6].status, CheckStatus::Warning);
    assert_eq!(
        report.checks[6].detail,
        "configured SABLE_CLANG=/my/clang is unusable: `/my/clang` failed: no such target; \
         no fallback attempted"
    );

    let mut p = probes();
    p.runtime = false;
    let report = inspect("/work/sable", Some(p));
    assert!(!report.ready());
    assert!(!report.native_ready());
    assert_eq!(
        report.checks[5].detail,
        "missing /work/sable/runtime/hosted/sable_rt_v1.c"
    );
    assert_eq!(join_path("/", "a"), "/a");
    assert_eq!(join_path("", "a"), "a");
}
