use spark_collect_plugin::extract::{FinishSummary, Parent, SkillSparkEntry, SparkBreakdown, SparkEntry, Stats};
use spark_collect_plugin::text::i64_to_string;
use spark_collect_plugin::worker::{
    escape_json, opt_i64_json, parent_json, run_payload, spark_entry_json, variant_payload, SubmissionKind,
};

fn entry(name: &str, stars: i64) -> SparkEntry {
    SparkEntry { name: name.to_string(), stars }
}

fn summary() -> FinishSummary {
    FinishSummary {
        card_id: None,
        scenario_id: Some(4),
        rarity: None,
        aptitudes: None,
        stats: Some(Stats { speed: 1, stamina: 2, power: 3, guts: 4, wit: 5 }),
        rank: None,
        rating: Some(-9),
        races: Some(0),
        wins: Some(0),
        stat_spark: Some(entry("Speed", 3)),
        aptitude_spark: Some(entry("Tu\"rf", 2)),
        unique_spark: None,
        skill_sparks: vec![SkillSparkEntry { spark_type: "race", spark_id: 5, stars: 1 }],
        skill_array: vec![],
        support_cards: vec![],
        race_results: vec![],
        win_saddle_ids: vec![1, 2],
        parents: vec![],
    }
}

#[test]
fn escape_json_escapes_quotes_backslashes_newlines() {
    assert_eq!(escape_json("a\"b\\c\nd\te"), "a\\\"b\\\\c\\nd\te");
    assert_eq!(escape_json(""), "");
}

#[test]
fn numbers_and_optional_numbers() {
    assert_eq!(i64_to_string(0), "0");
    assert_eq!(i64_to_string(-120), "-120");
    assert_eq!(i64_to_string(i64::MIN), "-9223372036854775808");
    assert_eq!(opt_i64_json(Some(42)), "42");
    assert_eq!(opt_i64_json(None), "null");
}

#[test]
fn spark_entry_and_parent_json() {
    assert_eq!(spark_entry_json(Some(&entry("Speed", 3))), "{\"name\":\"Speed\",\"stars\":3}");
    assert_eq!(spark_entry_json(None), "null");
    let p = Parent {
        position_id: 10,
        card_id: None,
        rank: Some("UG1".to_string()),
        stat_spark: None,
        aptitude_spark: Some(entry("Turf", 1)),
        unique_spark: Some(entry("Character Factor", 2)),
        skill_sparks: vec![
            SkillSparkEntry { spark_type: "skill", spark_id: 7, stars: 1 },
            SkillSparkEntry { spark_type: "race", spark_id: 8, stars: 2 },
        ],
        win_saddle_ids: vec![3],
    };
    assert_eq!(
        parent_json(&p),
        "{\"position_id\":10,\"card_id\":null,\"rank\":\"UG1\",\"stat_spark\":null,\"aptitude_spark\":{\"name\":\"Turf\",\"stars\":1},\"unique_spark_stars\":2,\"skill_sparks\":[{\"spark_type\":\"skill\",\"spark_id\":7,\"stars\":1},{\"spark_type\":\"race\",\"spark_id\":8,\"stars\":2}],\"win_saddle_ids\":[3]}"
    );
}

#[test]
fn run_payload_exact_document() {
    let s = summary();
    let p = run_payload("tok", &s, 1700000000123).expect("stat and aptitude present");
    assert_eq!(
        p,
        "{\"token\":\"tok\",\"message_id\":\"plugin_1700000000123\",\"kind\":\"finish\",\"character_id\":0,\"rank\":\"G\",\"rating\":-9,\"races\":0,\"wins\":0,\"obtained_at_unix_ms\":1700000000123,\"scenario_id\":4,\"rarity\":null,\"stats\":{\"spd\":1,\"sta\":2,\"pow\":3,\"gut\":4,\"wit\":5},\"aptitudes\":null,\"stat_spark\":{\"name\":\"Speed\",\"stars\":3},\"aptitude_spark\":{\"name\":\"Tu\\\"rf\",\"stars\":2},\"unique_spark_stars\":null,\"skill_sparks\":[{\"spark_type\":\"race\",\"spark_id\":5,\"stars\":1}],\"skill_array\":[],\"support_cards\":[],\"race_results\":[],\"win_saddle_ids\":[1,2],\"parents\":[]}"
    );
}

#[test]
fn run_payload_needs_stat_and_aptitude() {
    let mut s = summary();
    s.aptitude_spark = None;
    assert!(run_payload("tok", &s, 1).is_none());
    let mut s = summary();
    s.stat_spark = None;
    assert!(run_payload("tok", &s, 1).is_none());
}

#[test]
fn variant_payload_exact_document() {
    let s = summary();
    let sparks = SparkBreakdown {
        stat_spark: None,
        aptitude_spark: Some(entry("Dirt", 1)),
        unique_spark: Some(entry("Character Factor", 2)),
        skill_sparks: vec![SkillSparkEntry { spark_type: "skill", spark_id: 9, stars: 3 }],
    };
    let p = variant_payload("tok", &s, &sparks, SubmissionKind::FactorLottery, Some(42), false, "42", 5);
    assert_eq!(
        p,
        "{\"token\":\"tok\",\"message_id\":\"plugin_5_42\",\"kind\":\"factor_lottery\",\"character_id\":0,\"rank\":\"G\",\"rating\":-9,\"races\":0,\"wins\":0,\"obtained_at_unix_ms\":5,\"scenario_id\":4,\"rarity\":null,\"stats\":{\"spd\":1,\"sta\":2,\"pow\":3,\"gut\":4,\"wit\":5},\"aptitudes\":null,\"stat_spark\":null,\"aptitude_spark\":{\"name\":\"Dirt\",\"stars\":1},\"unique_spark_stars\":2,\"skill_sparks\":[{\"spark_type\":\"skill\",\"spark_id\":9,\"stars\":3}],\"skill_array\":[],\"support_cards\":[],\"race_results\":[],\"win_saddle_ids\":[1,2],\"parents\":[],\"lottery_id\":42,\"is_selected\":false,\"variant_tag\":\"42\"}"
    );
    let committed = variant_payload("tok", &s, &sparks, SubmissionKind::Finish, None, true, "committed", 5);
    assert!(committed.contains("\"message_id\":\"plugin_5_committed\",\"kind\":\"finish\""));
    assert!(committed.ends_with(",\"lottery_id\":null,\"is_selected\":true,\"variant_tag\":\"committed\"}"));
}

#[test]
fn submission_kinds_are_named() {
    assert_eq!(SubmissionKind::Finish.as_str(), "finish");
    assert_eq!(SubmissionKind::FactorSelect.as_str(), "factor_select");
    assert_eq!(SubmissionKind::FactorLottery.as_str(), "factor_lottery");
}
