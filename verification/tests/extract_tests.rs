use spark_collect_plugin::extract::{
    categorize_factor, extract_factor_list, extract_finish_summary, extract_parents, find_factor_lottery_common,
    find_finish_common, rank_label, Factor,
};
use spark_collect_plugin::msgpack::{map_get, MsgValue};

fn key(k: &str) -> MsgValue {
    MsgValue::Str(Some(k.to_string()))
}

fn num(v: i64) -> MsgValue {
    MsgValue::Int(Some(v))
}

fn map(pairs: Vec<(&str, MsgValue)>) -> MsgValue {
    MsgValue::Dict(pairs.into_iter().map(|(k, v)| (key(k), v)).collect())
}

fn factor_info(ids: &[i64]) -> MsgValue {
    MsgValue::Array(ids.iter().map(|&id| map(vec![("factor_id", num(id))])).collect())
}

fn select_entry(lottery_id: Option<i64>, ids: &[i64]) -> MsgValue {
    let mut pairs = vec![("factor_info_array", factor_info(ids))];
    if let Some(lid) = lottery_id {
        pairs.push(("lottery_id", num(lid)));
    }
    map(pairs)
}

fn entries(v: MsgValue) -> Vec<(MsgValue, MsgValue)> {
    match v {
        MsgValue::Dict(m) => m,
        _ => unreachable!(),
    }
}

#[test]
fn extract_factor_list_covers_every_categorize_bucket() {
    // stat=203 (Stamina/3), aptitude=1101 (Turf/1), race=1_000_203 (spark_id 2002, 3 stars),
    // skill=2_000_412 (skill), scenario=3_000_203, unique=10_000_103 (3 stars)
    let ids = [203, 1101, 1_000_203, 2_000_412, 3_000_203, 10_000_103];
    let packet_top = map(vec![(
        "factor_select_info_array",
        MsgValue::Array(vec![select_entry(Some(1), &ids), select_entry(Some(2), &[999_999])]),
    )]);
    let entries = entries(packet_top);

    let lists = extract_factor_list(&entries);
    assert_eq!(lists.len(), 2);

    let first = &lists[0];
    assert_eq!(first.lottery_id, Some(1));
    assert_eq!(first.sparks.stat_spark.as_ref().map(|s| (s.name.as_str(), s.stars)), Some(("Stamina", 3)));
    assert_eq!(first.sparks.aptitude_spark.as_ref().map(|s| (s.name.as_str(), s.stars)), Some(("Turf", 1)));
    assert_eq!(first.sparks.unique_spark.as_ref().map(|s| s.stars), Some(3));
    assert_eq!(first.sparks.skill_sparks.len(), 3);
    assert!(first.sparks.skill_sparks.iter().any(|s| s.spark_type == "race"));
    assert!(first.sparks.skill_sparks.iter().any(|s| s.spark_type == "skill"));
    assert!(first.sparks.skill_sparks.iter().any(|s| s.spark_type == "scenario"));

    let second = &lists[1];
    assert_eq!(second.lottery_id, Some(2));
    assert!(second.sparks.stat_spark.is_none());
    assert!(second.sparks.aptitude_spark.is_none());
    assert!(second.sparks.unique_spark.is_none());
    assert!(second.sparks.skill_sparks.is_empty());
}

#[test]
fn find_factor_lottery_common_top_level_and_nested() {
    let top = map(vec![("single_mode_factor_lottery_common", map(vec![("a", num(1))]))]);
    let e = entries(top);
    assert!(find_factor_lottery_common(&e).is_some());

    let nested = map(vec![("data", map(vec![("single_mode_factor_lottery_common", map(vec![("a", num(1))]))]))]);
    let e = entries(nested);
    assert!(find_factor_lottery_common(&e).is_some());
}

#[test]
fn find_factor_lottery_common_returns_none_when_absent() {
    let top = map(vec![("unrelated_key", num(1))]);
    let e = entries(top);
    assert!(find_factor_lottery_common(&e).is_none());
}

#[test]
fn extract_finish_summary_reads_object_shaped_factor_info_array() {
    // The committed spark list is `factor_info_array`, an array of
    // `{factor_id, level}` objects.
    let target = map(vec![
        ("card_id", num(12345)),
        ("factor_info_array", factor_info(&[203, 1101, 2_000_412])),
    ]);
    let e = entries(target);
    let summary = extract_finish_summary(&e);
    assert_eq!(summary.card_id, Some(12345));
    assert_eq!(summary.stat_spark.as_ref().map(|s| s.name.as_str()), Some("Stamina"));
    assert_eq!(summary.aptitude_spark.as_ref().map(|s| s.name.as_str()), Some("Turf"));
    assert_eq!(summary.skill_sparks.len(), 1);
}

#[test]
fn extract_parents_reads_object_shaped_factor_info_array() {
    let target = map(vec![(
        "succession_chara_array",
        MsgValue::Array(vec![map(vec![
            ("position_id", num(10)),
            ("card_id", num(101401)),
            ("factor_info_array", factor_info(&[203, 1101])),
        ])]),
    )]);
    let e = entries(target);
    let parents = extract_parents(&e);
    assert_eq!(parents.len(), 1);
    assert_eq!(parents[0].stat_spark.as_ref().map(|s| s.name.as_str()), Some("Stamina"));
    assert_eq!(parents[0].aptitude_spark.as_ref().map(|s| s.name.as_str()), Some("Turf"));
}

#[test]
fn categorize_factor_exact_values() {
    match categorize_factor(203) {
        Factor::Stat { name, stars } => assert_eq!((name, stars), ("Stamina", 3)),
        _ => panic!("stat expected"),
    }
    match categorize_factor(3402) {
        Factor::Aptitude { name, stars } => assert_eq!((name, stars), ("Long", 2)),
        _ => panic!("aptitude expected"),
    }
    match categorize_factor(1_000_203) {
        Factor::Skill(e) => assert_eq!((e.spark_type, e.spark_id, e.stars), ("race", 2, 3)),
        _ => panic!("race expected"),
    }
    match categorize_factor(1_200_203) {
        Factor::Skill(e) => assert_eq!((e.spark_type, e.spark_id, e.stars), ("race", 2002, 3)),
        _ => panic!("race expected"),
    }
    match categorize_factor(2_000_412) {
        Factor::Skill(e) => assert_eq!((e.spark_type, e.spark_id, e.stars), ("skill", 200_052, 2)),
        _ => panic!("skill expected"),
    }
    match categorize_factor(3_000_203) {
        Factor::Skill(e) => assert_eq!((e.spark_type, e.spark_id, e.stars), ("scenario", 2, 3)),
        _ => panic!("scenario expected"),
    }
    match categorize_factor(10_000_103) {
        Factor::Unique { stars } => assert_eq!(stars, 3),
        _ => panic!("unique expected"),
    }
    assert!(matches!(categorize_factor(603), Factor::Unknown));
    assert!(matches!(categorize_factor(1301), Factor::Unknown));
    assert!(matches!(categorize_factor(999_999), Factor::Unknown));
    assert!(matches!(categorize_factor(-5), Factor::Unknown));
}

#[test]
fn first_stat_spark_wins_and_skills_accumulate() {
    let packet = map(vec![(
        "factor_select_info_array",
        MsgValue::Array(vec![select_entry(None, &[101, 502, 2_000_412, 2_000_413, 10_000_101, 10_000_102])]),
    )]);
    let e = entries(packet);
    let lists = extract_factor_list(&e);
    assert_eq!(lists[0].lottery_id, None);
    assert_eq!(lists[0].sparks.stat_spark.as_ref().map(|s| (s.name.as_str(), s.stars)), Some(("Speed", 1)));
    assert_eq!(lists[0].sparks.unique_spark.as_ref().map(|s| (s.name.as_str(), s.stars)), Some(("Character Factor", 1)));
    assert_eq!(lists[0].sparks.skill_sparks.len(), 2);
}

#[test]
fn rank_labels() {
    assert_eq!(rank_label(0), None);
    assert_eq!(rank_label(1).as_deref(), Some("G"));
    assert_eq!(rank_label(18).as_deref(), Some("SS+"));
    assert_eq!(rank_label(19).as_deref(), Some("UG"));
    assert_eq!(rank_label(20).as_deref(), Some("UG1"));
    assert_eq!(rank_label(29).as_deref(), Some("UF"));
    assert_eq!(rank_label(107).as_deref(), Some("USS8"));
    assert_eq!(rank_label(109), None);
}

#[test]
fn finish_summary_prefers_trained_chara_and_counts_wins() {
    let race = |rank: i64| map(vec![("program_id", num(7)), ("result_rank", num(rank))]);
    let trained = map(vec![
        ("trained_chara_id", num(5)),
        ("rank", num(20)),
        ("rank_score", num(12000)),
        ("race_result_list", MsgValue::Array(vec![race(1), race(2), race(1)])),
        ("win_saddle_id_array", MsgValue::Array(vec![num(3), key("x"), num(4)])),
    ]);
    let other = map(vec![("trained_chara_id", num(6)), ("rank", num(1))]);
    let fc = map(vec![
        ("trained_chara_id", num(5)),
        ("trained_chara", MsgValue::Array(vec![other, trained])),
        ("chara_info", map(vec![("card_id", num(100101)), ("speed", num(1)), ("stamina", num(2)),
            ("power", num(3)), ("guts", num(4)), ("wiz", num(5))])),
    ]);
    let e = entries(fc);
    let s = extract_finish_summary(&e);
    assert_eq!(s.card_id, Some(100101));
    assert_eq!(s.rank.as_deref(), Some("UG1"));
    assert_eq!(s.rating, Some(12000));
    assert_eq!(s.races, Some(3));
    assert_eq!(s.wins, Some(2));
    assert_eq!(s.race_results.len(), 3);
    assert_eq!(s.win_saddle_ids, vec![3, 4]);
    assert_eq!(s.stats.as_ref().map(|st| (st.speed, st.wit)), Some((1, 5)));
}

#[test]
fn map_get_reads_first_matching_key_only_for_maps() {
    let e = entries(map(vec![("a", num(1)), ("b", map(vec![("c", num(2))])), ("b", map(vec![]))]));
    assert!(map_get(&e, "a").is_none());
    assert_eq!(map_get(&e, "b").map(|m| m.len()), Some(1));
    assert!(find_finish_common(&e).is_none());
}
