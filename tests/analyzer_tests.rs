use claude_helper::{complexity_label, AgentCapability, AutonomyMode, Config, TaskPlanner};

fn planner() -> TaskPlanner {
    TaskPlanner::new(Config::default())
}

#[test]
fn complexity_examples() {
    let p = planner();
    assert_eq!(p.analyze("").complexity, 3);
    assert_eq!(p.analyze("refactor the code").complexity, 5);
    assert_eq!(p.analyze("implement authentication and add tests").complexity, 8);
    assert_eq!(
        p.analyze("refactor migrate redesign architecture authentication oauth security encryption performance optimize scale distributed").complexity,
        10
    );
    assert_eq!(p.estimate_complexity("build it with care"), 5);
    assert_eq!(p.estimate_complexity("api and database with tests"), 7);
}

#[test]
fn empty_text_defaults_to_code_writing() {
    assert_eq!(planner().detect_capabilities(""), vec![AgentCapability::CodeWriting]);
}

#[test]
fn capabilities_come_in_table_order() {
    let caps = planner().detect_capabilities("refactor and fix the auth tests");
    assert_eq!(
        caps,
        vec![
            AgentCapability::Testing,
            AgentCapability::Security,
            AgentCapability::Debugging,
            AgentCapability::Architecture,
        ]
    );
}

#[test]
fn estimates_follow_complexity_buckets() {
    let p = planner();
    assert_eq!(p.estimate_files("a task", 3), 1);
    assert_eq!(p.estimate_files("a task", 5), 3);
    assert_eq!(p.estimate_files("a task", 8), 8);
    assert_eq!(p.estimate_files("a task", 9), 12);
    assert_eq!(p.estimate_files("the entire system", 8), 16);
    assert_eq!(p.estimate_files("a single file", 5), 1);
    assert_eq!(p.estimate_files("a single file", 3), 0);
    assert_eq!(p.estimate_tokens(3, 1), 3200);
    assert_eq!(p.estimate_tokens(10, 24), 144000);
    assert_eq!(p.estimate_time(0), (2, 5));
    assert_eq!(p.estimate_time(6), (5, 15));
    assert_eq!(p.estimate_time(7), (15, 30));
    assert_eq!(p.estimate_time(10), (30, 60));
}

#[test]
fn keywords_are_long_words_first_ten() {
    let p = planner();
    assert_eq!(p.extract_keywords("fix the  login\tpage now"), vec!["login", "page"]);
    let many = "word1 word2 word3 word4 word5 word6 word7 word8 word9 word10 word11";
    let kws = p.extract_keywords(many);
    assert_eq!(kws.len(), 10);
    assert_eq!(kws[9], "word10");
    // Length counts characters, not bytes.
    assert!(p.extract_keywords("ééé ab").is_empty());
    assert_eq!(p.extract_keywords("ééé éééé"), vec!["éééé"]);
}

#[test]
fn analysis_fields_agree() {
    let a = planner().analyze("implement the entire payment system with tests");
    assert_eq!(a.task_description, "implement the entire payment system with tests");
    assert_eq!(a.complexity, 6);
    assert_eq!(a.estimated_files, 6);
    assert_eq!(a.estimated_tokens, 6 * 400 * 11);
    assert_eq!((a.estimated_time_min, a.estimated_time_max), (5, 15));
    assert_eq!(a.required_capabilities, vec![AgentCapability::CodeWriting, AgentCapability::Testing]);
    assert_eq!(a.keywords, vec!["implement", "entire", "payment", "system", "with", "tests"]);
}

#[test]
fn analyze_task_folds_case_first() {
    let a = planner().analyze_task("REFACTOR Code");
    assert_eq!(a.task_description, "REFACTOR Code");
    assert_eq!(a.complexity, 5);
    assert_eq!(a.required_capabilities, vec![AgentCapability::Architecture]);
    assert_eq!(a.keywords, vec!["refactor", "code"]);
}

#[test]
fn capability_names_round_trip() {
    assert_eq!(AgentCapability::from_str("Security"), Some(AgentCapability::Security));
    assert_eq!(AgentCapability::from_str("security"), None);
    assert_eq!(AgentCapability::from_str("Review"), Some(AgentCapability::Review));
    assert_eq!(AgentCapability::Migration.description(), "code and data migration");
    assert_eq!(AgentCapability::Testing.emoji(), "🧪");
}

#[test]
fn autonomy_mode_parsing() {
    assert_eq!(AutonomyMode::from_str("Balanced"), Ok(AutonomyMode::Balanced));
    assert_eq!(AutonomyMode::from_str("TRUST"), Ok(AutonomyMode::Trust));
    assert_eq!(AutonomyMode::from_lowercase("interactive"), Some(AutonomyMode::Interactive));
    assert_eq!(AutonomyMode::from_lowercase("Interactive"), None);
    assert_eq!(
        AutonomyMode::from_str("reckless"),
        Err("Invalid autonomy mode: reckless".to_string())
    );
}

#[test]
fn complexity_labels() {
    assert_eq!(complexity_label(0), "Low");
    assert_eq!(complexity_label(3), "Low");
    assert_eq!(complexity_label(4), "Medium");
    assert_eq!(complexity_label(8), "High");
    assert_eq!(complexity_label(9), "Very High");
}

#[test]
fn only_trust_mode_skips_plan_confirmation() {
    assert!(AutonomyMode::Trust.auto_approves_plan());
    assert!(!AutonomyMode::Balanced.auto_approves_plan());
    assert!(!AutonomyMode::Conservative.auto_approves_plan());
    assert!(!AutonomyMode::Interactive.auto_approves_plan());
}
