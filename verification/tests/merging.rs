use reniced::config::{load_and_prepare_local_config, Config, LocalFile, MatcherConfig, ProcessConfig};

fn rule(name: &str, owner: Option<&str>, bin: &str, nice: i32, pattern: Option<&str>) -> ProcessConfig {
    ProcessConfig {
        name: String::from(name),
        owner: owner.map(String::from),
        bin: String::from(bin),
        nice,
        matcher: MatcherConfig {
            kind: String::from("simple"),
            match_string: pattern.map(String::from),
            strip_path: None,
        },
    }
}

#[test]
fn a_local_rule_of_a_known_name_changes_owner_nice_and_matcher() {
    let global = Config { process: vec![rule("a", None, "/bin/a", 1, None), rule("b", None, "/bin/b", 2, None)] };
    let local = Config { process: vec![rule("b", Some("bob"), "/other/b", -3, Some("bee"))] };
    let merged = Config::merge(global, local);
    assert_eq!(
        merged.process,
        vec![rule("a", None, "/bin/a", 1, None), rule("b", Some("bob"), "/bin/b", -3, Some("bee"))]
    );
}

#[test]
fn a_local_rule_of_a_new_name_comes_last() {
    let global = Config { process: vec![rule("a", None, "/bin/a", 1, None)] };
    let local = Config { process: vec![rule("c", None, "/bin/c", 3, None), rule("b", None, "/bin/b", 2, None)] };
    let merged = Config::merge(global, local);
    let names: Vec<&str> = merged.process.iter().map(|r| r.name.as_str()).collect();
    assert_eq!(names, vec!["a", "c", "b"]);
}

#[test]
fn merging_keeps_names_distinct() {
    let global = Config { process: vec![rule("a", None, "/bin/a", 1, None)] };
    let local = Config {
        process: vec![
            rule("x", None, "/bin/x1", 5, None),
            rule("x", Some("u"), "/bin/x2", 6, None),
            rule("a", None, "/bin/a2", 7, None),
        ],
    };
    let merged = Config::merge(global, local);
    assert_eq!(
        merged.process,
        vec![rule("a", None, "/bin/a", 7, None), rule("x", Some("u"), "/bin/x1", 6, None)]
    );
}

#[test]
fn only_the_first_rule_of_a_name_is_changed() {
    let global = Config { process: vec![rule("a", None, "/1", 1, None), rule("a", None, "/2", 2, None)] };
    let local = Config { process: vec![rule("a", None, "/3", 9, None)] };
    let merged = Config::merge(global, local);
    assert_eq!(merged.process, vec![rule("a", None, "/1", 9, None), rule("a", None, "/2", 2, None)]);
    assert_eq!(merged.position_of("a"), Some(0));
    assert_eq!(merged.position_of("b"), None);
    assert!(merged.process[1].is_named("a"));
    assert!(!merged.process[1].is_named("A"));
}

#[test]
fn merging_with_nothing_changes_nothing() {
    let rules = || vec![rule("a", None, "/bin/a", 1, None)];
    assert_eq!(Config::merge(Config { process: rules() }, Config::default()).process, rules());
    assert_eq!(Config::merge(Config::default(), Config { process: rules() }).process, rules());
    assert_eq!(Config::merge(Config::default(), Config::default()), Config::default());
}

#[test]
fn merge_process_changes_or_appends() {
    let mut config = Config { process: vec![rule("a", None, "/bin/a", 1, None)] };
    config.merge_process(rule("b", None, "/bin/b", 2, None));
    config.merge_process(rule("a", Some("me"), "/zzz", 3, Some("p")));
    assert_eq!(
        config.process,
        vec![rule("a", Some("me"), "/bin/a", 3, Some("p")), rule("b", None, "/bin/b", 2, None)]
    );
}

#[test]
fn paths_of_the_files() {
    assert_eq!(Config::global_path(), "/etc/reniced/config.yaml");
    assert_eq!(Config::local_path("alice"), Some(String::from("/home/alice/.reniced/config.yaml")));
    assert_eq!(Config::local_path(""), Some(String::from("/home//.reniced/config.yaml")));
    assert_eq!(Config::local_path("lost+found"), None);
}

#[test]
fn the_global_file_is_passed_on_or_its_failure_named() {
    let config = Config { process: vec![rule("a", None, "/bin/a", 1, None)] };
    assert_eq!(Config::load_global(Ok(config)).unwrap().process.len(), 1);
    assert_eq!(
        Config::load_global(Err(String::from("No such file or directory"))),
        Err(String::from("Failed to load global configuration: No such file or directory"))
    );
}

#[test]
fn lost_and_found_is_no_user() {
    let config = || Config { process: vec![rule("a", None, "/bin/a", 1, None)] };
    assert_eq!(Config::load_local("lost+found", Ok(config())), Ok(Config::default()));
    assert_eq!(Config::load_local("lost+found", Err(String::from("x"))), Ok(Config::default()));
    assert_eq!(Config::load_local("alice", Ok(config())), Ok(config()));
    assert_eq!(Config::load_local("alice", Err(String::from("x"))), Err(String::from("x")));
}

#[test]
fn a_local_rule_without_owner_is_for_its_user() {
    let local = Config {
        process: vec![rule("a", None, "/bin/a", 1, None), rule("b", Some("root"), "/bin/b", 2, None)],
    };
    let prepared = load_and_prepare_local_config("alice", Ok(local)).unwrap();
    assert_eq!(
        prepared.process,
        vec![rule("a", Some("alice"), "/bin/a", 1, None), rule("b", Some("root"), "/bin/b", 2, None)]
    );
    assert_eq!(load_and_prepare_local_config("alice", Err(String::from("bad yaml"))), Err(String::from("bad yaml")));
    assert_eq!(load_and_prepare_local_config("lost+found", Err(String::from("x"))), Ok(Config::default()));
}

#[test]
fn all_files_are_merged_in_order_and_broken_ones_passed_over() {
    let global = Config { process: vec![rule("a", None, "/bin/a", 1, None)] };
    let homes = vec![
        LocalFile { user: String::from("alice"), file: Ok(Config { process: vec![rule("a", None, "/x", 5, None)] }) },
        LocalFile { user: String::from("bob"), file: Err(String::from("unreadable")) },
        LocalFile { user: String::from("lost+found"), file: Ok(Config { process: vec![rule("z", None, "/z", 9, None)] }) },
        LocalFile { user: String::from("carol"), file: Ok(Config { process: vec![rule("c", Some("dave"), "/c", 3, None), rule("a", None, "/y", 6, None)] }) },
    ];
    let loaded = Config::load_all(Ok(global), Ok(homes)).unwrap();
    assert_eq!(
        loaded.process,
        vec![rule("a", Some("carol"), "/bin/a", 6, None), rule("c", Some("dave"), "/c", 3, None)]
    );
}

#[test]
fn without_the_global_file_the_merge_starts_empty() {
    let homes = vec![LocalFile {
        user: String::from("alice"),
        file: Ok(Config { process: vec![rule("a", None, "/x", 5, None)] }),
    }];
    let loaded = Config::load_all(Err(String::from("missing")), Ok(homes)).unwrap();
    assert_eq!(loaded.process, vec![rule("a", Some("alice"), "/x", 5, None)]);
    assert_eq!(Config::load_all(Err(String::from("missing")), Ok(vec![])), Ok(Config::default()));
}

#[test]
fn without_the_home_directories_there_is_no_configuration() {
    let global = Config { process: vec![rule("a", None, "/bin/a", 1, None)] };
    assert_eq!(
        Config::load_all(Ok(global), Err(String::from("Failed to read home directory: /home"))),
        Err(String::from("Failed to read home directory: /home"))
    );
}

#[test]
fn merging_the_same_rules_again_changes_nothing() {
    let global = || Config { process: vec![rule("a", None, "/bin/a", 1, None), rule("a", None, "/bin/a2", 2, None)] };
    let local = || Config {
        process: vec![
            rule("x", None, "/bin/x1", 5, None),
            rule("a", Some("u"), "/bin/zz", 7, Some("p")),
            rule("x", Some("v"), "/bin/x2", 6, None),
            rule("y", None, "/bin/y", 8, None),
        ],
    };
    let once = Config::merge(global(), local());
    let twice = Config::merge(Config::merge(global(), local()), local());
    assert_eq!(once, twice);
    assert_eq!(once.process.len(), 4);
}
