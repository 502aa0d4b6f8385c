use project_scan::descriptor::{ProjectJson, Target};
use project_scan::report::{
    exit_code, missing_root_line, report_file, report_scan, report_visit, walk_failure, Decoded,
    Ending, Failure, Report, ScanMode, Visit,
};

fn project(name: &str, targets: &[(&str, &[&str])]) -> ProjectJson {
    ProjectJson {
        name: name.to_string(),
        targets: targets
            .iter()
            .map(|(t, cs)| {
                (t.to_string(), Target { configurations: cs.iter().map(|c| c.to_string()).collect() })
            })
            .collect(),
    }
}

fn file(shown: &str, decoded: Decoded) -> Visit {
    Visit::File { shown: shown.to_string(), decoded }
}

#[test]
fn decoded_project_gives_its_lines_and_no_warning() {
    let decoded = Decoded::Project(project("P", &[("t1", &["debug", "release"]), ("t2", &[])]));
    let report = report_file("/repo/project.json", &decoded);
    assert_eq!(report.output, vec!["P:t1:debug".to_string(), "P:t1:release".to_string()]);
    assert!(report.warnings.is_empty());
}

#[test]
fn malformed_file_gives_one_warning_and_no_output() {
    let decoded = Decoded::Malformed("expected value at line 1 column 1".to_string());
    let report = report_file("/repo/app/project.json", &decoded);
    assert!(report.output.is_empty());
    assert_eq!(
        report.warnings,
        vec!["Warning: Failed to parse JSON in /repo/app/project.json: expected value at line 1 column 1"
            .to_string()]
    );
}

#[test]
fn unreadable_file_gives_one_warning_and_no_output() {
    let decoded = Decoded::Unreadable("Permission denied (os error 13)".to_string());
    let report = report_file("/repo/project.json", &decoded);
    assert!(report.output.is_empty());
    assert_eq!(
        report.warnings,
        vec!["Warning: Failed to read /repo/project.json: Permission denied (os error 13)"
            .to_string()]
    );
}

#[test]
fn failed_walk_step_warns() {
    let report = report_visit(&Visit::Failed { error: "loop detected".to_string() });
    assert!(report.output.is_empty());
    assert_eq!(
        report.warnings,
        vec!["Warning: Error walking directory: loop detected".to_string()]
    );
}

#[test]
fn visit_of_a_file_is_the_report_of_the_file() {
    let decoded = Decoded::Project(project("Q", &[("t", &["c"])]));
    let visit = file("a/project.json", decoded.clone());
    assert_eq!(report_visit(&visit), report_file("a/project.json", &decoded));
    assert_eq!(report_visit(&visit).output, vec!["Q:t:c".to_string()]);
}

#[test]
fn malformed_file_does_not_stop_the_scan() {
    let visits = vec![
        file("a/project.json", Decoded::Project(project("A", &[("t", &["x"])]))),
        file("b/project.json", Decoded::Malformed("EOF while parsing".to_string())),
        file("c/project.json", Decoded::Project(project("C", &[("u", &["y", "z"])]))),
    ];
    let report = report_scan(&visits);
    assert_eq!(
        report.output,
        vec!["A:t:x".to_string(), "C:u:y".to_string(), "C:u:z".to_string()]
    );
    assert_eq!(
        report.warnings,
        vec!["Warning: Failed to parse JSON in b/project.json: EOF while parsing".to_string()]
    );
}

#[test]
fn scan_keeps_the_order_of_the_walk() {
    let visits = vec![
        Visit::Failed { error: "first".to_string() },
        file("z/project.json", Decoded::Project(project("Z", &[("t", &["1"])]))),
        file("m/project.json", Decoded::Unreadable("gone".to_string())),
        file("a/project.json", Decoded::Project(project("A", &[("t", &["2"])]))),
        Visit::Failed { error: "last".to_string() },
    ];
    let report = report_scan(&visits);
    assert_eq!(report.output, vec!["Z:t:1".to_string(), "A:t:2".to_string()]);
    assert_eq!(
        report.warnings,
        vec![
            "Warning: Error walking directory: first".to_string(),
            "Warning: Failed to read m/project.json: gone".to_string(),
            "Warning: Error walking directory: last".to_string(),
        ]
    );
}

#[test]
fn empty_scan_reports_nothing() {
    let report = report_scan(&Vec::new());
    assert_eq!(report, Report { output: Vec::new(), warnings: Vec::new() });
}

#[test]
fn scan_twice_gives_the_same_report() {
    let visits = vec![
        file("a/project.json", Decoded::Project(project("A", &[("t", &["x"]), ("s", &["y"])]))),
        file("b/project.json", Decoded::Malformed("bad".to_string())),
    ];
    assert_eq!(report_scan(&visits), report_scan(&visits));
    assert_eq!(report_scan(&visits), report_scan(&visits.clone()));
}

#[test]
fn scan_is_the_steps_one_after_the_other() {
    let visits = vec![
        file("a/project.json", Decoded::Project(project("A", &[("t", &["x"])]))),
        Visit::Failed { error: "e".to_string() },
    ];
    let mut output = Vec::new();
    let mut warnings = Vec::new();
    for v in &visits {
        let r = report_visit(v);
        output.extend(r.output);
        warnings.extend(r.warnings);
    }
    assert_eq!(report_scan(&visits), Report { output, warnings });
}

#[test]
fn walk_failure_warns_in_the_ignore_aware_scan() {
    assert_eq!(
        walk_failure(ScanMode::IgnoreAware, "denied"),
        Failure::Warned { warning: "Warning: Error walking directory: denied".to_string() }
    );
}

#[test]
fn walk_failure_ends_the_simple_scan() {
    assert_eq!(
        walk_failure(ScanMode::Simple, "denied"),
        Failure::Fatal { error: "Error: denied".to_string() }
    );
}

#[test]
fn missing_root_names_the_start() {
    assert_eq!(
        missing_root_line("/home/me/work"),
        "Error: No .git directory found. Starting from: /home/me/work"
    );
}

#[test]
fn exit_codes() {
    assert_eq!(exit_code(Ending::Completed), 0);
    assert_eq!(exit_code(Ending::NoRoot), 1);
    assert_eq!(exit_code(Ending::Aborted), 1);
}
