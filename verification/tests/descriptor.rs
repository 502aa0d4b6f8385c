use project_scan::descriptor::{triple_line, ProjectJson, Target};

fn target(names: &[&str]) -> Target {
    Target { configurations: names.iter().map(|n| n.to_string()).collect() }
}

#[test]
fn two_configurations_and_an_empty_target() {
    let project = ProjectJson {
        name: "P".to_string(),
        targets: vec![
            ("t1".to_string(), target(&["debug", "release"])),
            ("t2".to_string(), target(&[])),
        ],
    };
    assert_eq!(project.lines(), vec!["P:t1:debug".to_string(), "P:t1:release".to_string()]);
}

#[test]
fn lines_follow_the_order_of_the_document() {
    let project = ProjectJson {
        name: "app".to_string(),
        targets: vec![
            ("zeta".to_string(), target(&["b", "a"])),
            ("empty".to_string(), target(&[])),
            ("alpha".to_string(), target(&["c"])),
        ],
    };
    assert_eq!(
        project.lines(),
        vec!["app:zeta:b".to_string(), "app:zeta:a".to_string(), "app:alpha:c".to_string()]
    );
}

#[test]
fn project_without_targets_has_no_lines() {
    let project = ProjectJson::new("lonely".to_string());
    assert_eq!(project.name, "lonely");
    assert!(project.targets.is_empty());
    assert!(project.lines().is_empty());
}

#[test]
fn only_empty_targets_give_no_lines() {
    let project = ProjectJson {
        name: "P".to_string(),
        targets: vec![("a".to_string(), target(&[])), ("b".to_string(), target(&[]))],
    };
    assert!(project.lines().is_empty());
}

#[test]
fn triple_line_joins_with_colons() {
    assert_eq!(triple_line("P", "t1", "debug"), "P:t1:debug");
    assert_eq!(triple_line("", "", ""), "::");
    assert_eq!(triple_line("a:b", "c", "d e"), "a:b:c:d e");
    assert_eq!(triple_line("prøject", "tärget", "配置"), "prøject:tärget:配置");
}

#[test]
fn every_configuration_has_its_line() {
    let project = ProjectJson {
        name: "n".to_string(),
        targets: vec![
            ("x".to_string(), target(&["1", "2", "3"])),
            ("y".to_string(), target(&["4"])),
        ],
    };
    let lines = project.lines();
    assert_eq!(lines.len(), 4);
    for (t, tg) in &project.targets {
        for c in &tg.configurations {
            assert!(lines.contains(&format!("{}:{}:{}", project.name, t, c)));
        }
    }
}

#[test]
fn new_target_is_empty() {
    assert!(Target::new().configurations.is_empty());
}

#[test]
fn configuration_is_added_once() {
    let mut t = Target::new();
    assert!(t.insert_configuration("debug".to_string()));
    assert!(t.insert_configuration("release".to_string()));
    assert!(!t.insert_configuration("debug".to_string()));
    assert_eq!(t.configurations, vec!["debug".to_string(), "release".to_string()]);
    assert!(t.has_configuration(&"release".to_string()));
    assert!(!t.has_configuration(&"test".to_string()));
}

#[test]
fn target_is_added_behind_the_others() {
    let mut p = ProjectJson::new("P".to_string());
    assert_eq!(p.insert_target("one".to_string(), target(&["a"])), None);
    assert_eq!(p.insert_target("two".to_string(), target(&["b"])), None);
    assert_eq!(
        p.targets,
        vec![("one".to_string(), target(&["a"])), ("two".to_string(), target(&["b"]))]
    );
    assert_eq!(p.name, "P");
}

#[test]
fn target_of_a_known_name_is_replaced_in_place() {
    let mut p = ProjectJson::new("P".to_string());
    p.insert_target("one".to_string(), target(&["a"]));
    p.insert_target("two".to_string(), target(&["b"]));
    p.insert_target("three".to_string(), target(&[]));
    assert_eq!(p.insert_target("two".to_string(), target(&["c", "d"])), Some(1));
    assert_eq!(
        p.targets,
        vec![
            ("one".to_string(), target(&["a"])),
            ("two".to_string(), target(&["c", "d"])),
            ("three".to_string(), target(&[])),
        ]
    );
    assert_eq!(
        p.lines(),
        vec!["P:one:a".to_string(), "P:two:c".to_string(), "P:two:d".to_string()]
    );
}
