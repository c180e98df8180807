use pickaboo::engine::{Approval, Engine, EngineError, RunError, Verdict};

fn approval() -> Approval {
    Approval::preflight(true).unwrap()
}

/// Runs the engine on `text`, judging each trial text with `valid`; returns
/// the final text, the verdicts, and every text written.
fn run(text: &str, valid: &dyn Fn(&str) -> bool) -> (String, Vec<(String, Verdict)>, Vec<String>) {
    let mut engine = Engine::open(&approval(), text).unwrap().unwrap();
    let mut verdicts = Vec::new();
    let mut written = Vec::new();
    while let Some(trial) = engine.next_trial() {
        written.push(trial.text.clone());
        let verdict = engine.record(valid(&trial.text));
        verdicts.push((trial.key, verdict));
    }
    let last = engine.final_text();
    written.push(last.clone());
    (last, verdicts, written)
}

const ABC: &str = "[package]\nname = \"demo\"\n\n[dependencies]\na = \"1\"\nb = \"2\"\nc = { version = \"3\", features = [\"x\"] }\n";

fn has_dep(text: &str, key: &str) -> bool {
    let doc: toml_edit::DocumentMut = text.parse().unwrap();
    doc["dependencies"].as_table().unwrap().contains_key(key)
}

#[test]
fn only_useless_key_is_removed() {
    // valid exactly when both a and c are still declared
    let (last, verdicts, _) = run(ABC, &|t: &str| has_dep(t, "a") && has_dep(t, "c"));
    assert_eq!(
        verdicts,
        vec![
            ("a".to_string(), Verdict::Required),
            ("b".to_string(), Verdict::Useless),
            ("c".to_string(), Verdict::Required),
        ]
    );
    assert_eq!(
        last,
        "[package]\nname = \"demo\"\n\n[dependencies]\na = \"1\"\nc = { version = \"3\", features = [\"x\"] }\n"
    );
}

#[test]
fn manifest_without_dependencies_is_untouched() {
    let text = "[package]\nname = \"demo\"\n";
    assert!(matches!(Engine::open(&approval(), text), Ok(None)));
}

#[test]
fn dependencies_that_are_not_a_table_are_refused() {
    let text = "dependencies = \"x\"\n";
    assert!(matches!(Engine::open(&approval(), text), Err(EngineError::NotATable)));
    let inline = "dependencies = { a = \"1\" }\n";
    assert!(matches!(Engine::open(&approval(), inline), Err(EngineError::NotATable)));
}

#[test]
fn malformed_manifest_is_a_parse_error() {
    let text = "[dependencies\na = 1\n";
    assert!(matches!(Engine::open(&approval(), text), Err(EngineError::Parse(_))));
}

#[test]
fn no_useless_keys_keeps_text() {
    let (last, verdicts, _) = run(ABC, &|_| false);
    assert_eq!(last, ABC);
    assert!(verdicts.iter().all(|(_, v)| *v == Verdict::Required));
}

#[test]
fn all_useless_keys_empty_the_table() {
    let (last, verdicts, _) = run(ABC, &|_| true);
    assert!(verdicts.iter().all(|(_, v)| *v == Verdict::Useless));
    let doc: toml_edit::DocumentMut = last.parse().unwrap();
    assert!(doc["dependencies"].as_table().unwrap().is_empty());
    assert_eq!(doc["package"]["name"].as_str(), Some("demo"));
}

#[test]
fn required_definitions_are_kept_whole() {
    let (last, _, _) = run(ABC, &|t: &str| has_dep(t, "c"));
    assert!(last.contains("c = { version = \"3\", features = [\"x\"] }\n"));
    assert!(!last.contains("a = \"1\""));
    assert!(!last.contains("b = \"2\""));
}

#[test]
fn second_pass_removes_nothing() {
    // monotone: valid whenever `a` is still declared
    let oracle = |t: &str| has_dep(t, "a");
    let (first, _, _) = run(ABC, &oracle);
    assert!(has_dep(&first, "a"));
    assert!(!has_dep(&first, "b"));
    let (second, verdicts, _) = run(&first, &oracle);
    assert_eq!(second, first);
    assert!(verdicts.iter().all(|(_, v)| *v == Verdict::Required));
}

#[test]
fn each_trial_writes_the_table_without_its_key() {
    let (_, _, written) = run(ABC, &|_| false);
    assert_eq!(written.len(), 4);
    assert!(!has_dep(&written[0], "a") && has_dep(&written[0], "b"));
    assert!(!has_dep(&written[1], "b") && has_dep(&written[1], "a"));
    assert!(!has_dep(&written[2], "c") && has_dep(&written[2], "b"));
}

#[test]
fn trials_stop_after_every_key() {
    let mut engine = Engine::open(&approval(), "[dependencies]\nx = \"1\"\n").unwrap().unwrap();
    let trial = engine.next_trial().unwrap();
    assert_eq!(trial.key, "x");
    assert_eq!(trial.text, "[dependencies]\n");
    assert_eq!(engine.record(false), Verdict::Required);
    assert!(engine.next_trial().is_none());
    assert_eq!(engine.final_text(), "[dependencies]\nx = \"1\"\n");
}

#[test]
fn invalid_project_is_refused_before_any_work() {
    assert!(matches!(Approval::preflight(false), Err(RunError::InitialInvalidProject)));
    assert!(Approval::preflight(true).is_ok());
}
