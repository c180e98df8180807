use pickaboo::command::{split_command, CargoChecker, OracleStep, Opts};
use pickaboo::tree::is_manifest_to_prune;

fn strings(v: &[&str]) -> Vec<String> {
    v.iter().map(|s| s.to_string()).collect()
}

#[test]
fn command_is_split_on_spaces() {
    assert_eq!(
        split_command(&"cargo check --tests".to_string()),
        ("cargo".to_string(), strings(&["check", "--tests"]))
    );
    assert_eq!(split_command(&"cargo".to_string()), ("cargo".to_string(), vec![]));
    assert_eq!(split_command(&"cargo ".to_string()), ("cargo".to_string(), strings(&[""])));
    assert_eq!(
        split_command(&"cargo  check".to_string()),
        ("cargo".to_string(), strings(&["", "check"]))
    );
    assert_eq!(split_command(&"".to_string()), ("".to_string(), vec![]));
}

#[test]
fn checker_keeps_command_order() {
    let opts = Opts { cargo_check_command: strings(&["cargo check", "cargo test --no-run"]) };
    let checker = opts.create_cargo_checker();
    assert_eq!(
        checker.cmds,
        vec![
            ("cargo".to_string(), strings(&["check"])),
            ("cargo".to_string(), strings(&["test", "--no-run"])),
        ]
    );
}

fn checker(n: usize) -> CargoChecker {
    CargoChecker { cmds: (0..n).map(|_| ("cargo".to_string(), strings(&["check"]))).collect() }
}

#[test]
fn oracle_is_valid_only_when_every_command_fails() {
    let c = checker(2);
    assert_eq!(c.next_step(&vec![]), OracleStep::Run(0));
    assert_eq!(c.next_step(&vec![false]), OracleStep::Run(1));
    assert_eq!(c.next_step(&vec![false, false]), OracleStep::Done(true));
    assert_eq!(c.next_step(&vec![false, true]), OracleStep::Done(false));
    assert_eq!(c.next_step(&vec![true, false]), OracleStep::Done(false));
    assert_eq!(checker(0).next_step(&vec![]), OracleStep::Done(true));
}

#[test]
fn oracle_runs_every_command_after_a_success() {
    let c = checker(3);
    assert_eq!(c.next_step(&vec![true]), OracleStep::Run(1));
    assert_eq!(c.next_step(&vec![true, false]), OracleStep::Run(2));
    assert_eq!(c.next_step(&vec![true, false, false]), OracleStep::Done(false));
}

#[test]
fn manifests_under_build_output_are_skipped() {
    let name = "Cargo.toml".to_string();
    assert!(is_manifest_to_prune(&name, &strings(&[".", "Cargo.toml"])));
    assert!(is_manifest_to_prune(&name, &strings(&[".", "sub", "Cargo.toml"])));
    assert!(!is_manifest_to_prune(&name, &strings(&[".", "target", "x", "Cargo.toml"])));
    assert!(is_manifest_to_prune(&name, &strings(&[".", "targets", "Cargo.toml"])));
    assert!(!is_manifest_to_prune(&"Cargo.lock".to_string(), &strings(&[".", "Cargo.lock"])));
}
