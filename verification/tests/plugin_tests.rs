use spark_collect_plugin::extract::{
    extract_factor_list, find_factor_lottery_common, find_finish_common, SkillSparkEntry, SparkBreakdown, SparkEntry,
};
use spark_collect_plugin::msgpack::{parse_msgpack, MsgValue};
use spark_collect_plugin::plugin::{
    cooldown, factor_lists_enabled, handle_factor_lottery, load_config, max_factor_cache_age, parse_u64,
    process_response, route_response, sparks_match, take_valid_factor_cache, trim, Config, FactorCache, FinishDecision, PluginState,
    ResponseOutcome,
};
use spark_collect_plugin::worker::SubmissionKind;

const SEC: u128 = 1_000_000_000;

fn key(k: &str) -> MsgValue {
    MsgValue::Str(Some(k.to_string()))
}

fn num(v: i64) -> MsgValue {
    MsgValue::Int(Some(v))
}

fn map(pairs: Vec<(&str, MsgValue)>) -> MsgValue {
    MsgValue::Dict(pairs.into_iter().map(|(k, v)| (key(k), v)).collect())
}

fn breakdown(
    stat: Option<(&str, i64)>,
    apt: Option<(&str, i64)>,
    unique_stars: Option<i64>,
    skills: &[(&'static str, i64, i64)],
) -> SparkBreakdown {
    SparkBreakdown {
        stat_spark: stat.map(|(name, stars)| SparkEntry { name: name.into(), stars }),
        aptitude_spark: apt.map(|(name, stars)| SparkEntry { name: name.into(), stars }),
        unique_spark: unique_stars.map(|stars| SparkEntry { name: "Character Factor".into(), stars }),
        skill_sparks: skills
            .iter()
            .map(|&(spark_type, spark_id, stars)| SkillSparkEntry { spark_type, spark_id, stars })
            .collect(),
    }
}

fn config(pairs: &[(&str, &str)]) -> Config {
    let mut c = Config::new();
    for (k, v) in pairs {
        c.insert(k.to_string(), v.to_string());
    }
    c
}

fn empty_state() -> PluginState {
    PluginState { last_notified: None, factor_cache: None, sent_lottery_ids: Vec::new() }
}

fn rmpv_map(pairs: Vec<(&str, rmpv::Value)>) -> rmpv::Value {
    rmpv::Value::Map(pairs.into_iter().map(|(k, v)| (rmpv::Value::from(k), v)).collect())
}

fn factor_lottery_packet(lottery_id: i64, factor_ids: &[i64]) -> rmpv::Value {
    let factor_info = rmpv::Value::Array(
        factor_ids.iter().map(|&id| rmpv_map(vec![("factor_id", rmpv::Value::from(id))])).collect(),
    );
    rmpv_map(vec![(
        "single_mode_factor_lottery_common",
        rmpv_map(vec![(
            "factor_select_info_array",
            rmpv::Value::Array(vec![rmpv_map(vec![
                ("lottery_id", rmpv::Value::from(lottery_id)),
                ("factor_info_array", factor_info),
            ])]),
        )]),
    )])
}

fn encode(value: &rmpv::Value) -> Vec<u8> {
    let mut buf = Vec::new();
    rmpv::encode::write_value(&mut buf, value).unwrap();
    buf
}

#[test]
fn sparks_match_identical_breakdowns() {
    let a = breakdown(Some(("Speed", 3)), Some(("Turf", 2)), Some(3), &[("skill", 200052, 2), ("race", 5, 1)]);
    let b = breakdown(Some(("Speed", 3)), Some(("Turf", 2)), Some(3), &[("race", 5, 1), ("skill", 200052, 2)]);
    assert!(sparks_match(&a, &b), "identical content in different skill_sparks order must still match");
}

#[test]
fn sparks_match_rejects_differing_stat_or_aptitude_or_unique() {
    let base = breakdown(Some(("Speed", 3)), Some(("Turf", 2)), Some(3), &[]);
    assert!(!sparks_match(&base, &breakdown(Some(("Stamina", 3)), Some(("Turf", 2)), Some(3), &[])));
    assert!(!sparks_match(&base, &breakdown(Some(("Speed", 3)), Some(("Dirt", 2)), Some(3), &[])));
    assert!(!sparks_match(&base, &breakdown(Some(("Speed", 3)), Some(("Turf", 2)), Some(2), &[])));
}

#[test]
fn sparks_match_rejects_differing_skill_sparks() {
    let a = breakdown(None, None, None, &[("skill", 200052, 2)]);
    let b = breakdown(None, None, None, &[("skill", 200052, 3)]);
    let empty = breakdown(None, None, None, &[]);
    assert!(!sparks_match(&a, &b), "same spark_id/type but different stars must not match");
    assert!(!sparks_match(&a, &empty), "non-empty vs empty skill_sparks must not match");
}

#[test]
fn sparks_match_compares_white_sparks_as_sets() {
    let a = breakdown(None, None, None, &[("skill", 1, 2), ("skill", 1, 2), ("race", 3, 1)]);
    let b = breakdown(None, None, None, &[("skill", 1, 2), ("race", 3, 1), ("race", 3, 1)]);
    let one = breakdown(None, None, None, &[("skill", 1, 2)]);
    let twice = breakdown(None, None, None, &[("skill", 1, 2), ("skill", 1, 2)]);
    assert!(sparks_match(&a, &b));
    assert!(sparks_match(&one, &twice));
    assert!(!sparks_match(&a, &one));
    assert!(sparks_match(&a, &a));
}

#[test]
fn sparks_match_ignores_the_unique_spark_name() {
    let a = breakdown(Some(("Speed", 3)), None, Some(2), &[]);
    let mut b = breakdown(Some(("Speed", 3)), None, Some(2), &[]);
    b.unique_spark.as_mut().unwrap().name = "Another Name".into();
    assert!(sparks_match(&a, &b));
}

#[test]
fn factor_cache_staleness_bound() {
    let max_age = std::time::Duration::from_secs(600);
    assert!(std::time::Duration::from_secs(599) <= max_age, "just under the bound stays valid");
    assert!(std::time::Duration::from_secs(601) > max_age, "just over the bound is stale");

    let cfg0 = config(&[]);
    assert_eq!(max_factor_cache_age(&cfg0), 600);
    let fresh = extract_factor_list(&[(key("factor_select_info_array"), MsgValue::Array(vec![map(vec![])]))]);
    let mut cache = Some(FactorCache { entries: fresh, updated_at: 5 * SEC, kind: SubmissionKind::FactorLottery });
    assert_eq!(take_valid_factor_cache(&mut cache, &cfg0, 5 * SEC + 599 * SEC).len(), 1, "just under the bound stays valid");
    assert!(cache.is_none());
    let stale = extract_factor_list(&[(key("factor_select_info_array"), MsgValue::Array(vec![map(vec![])]))]);
    let mut cache = Some(FactorCache { entries: stale, updated_at: 5 * SEC, kind: SubmissionKind::FactorLottery });
    assert_eq!(take_valid_factor_cache(&mut cache, &cfg0, 5 * SEC + 601 * SEC).len(), 0, "just over the bound is stale");
    assert!(cache.is_none());
}

#[test]
fn process_response_routes_both_finish_and_reroll_from_one_packet() {
    // A single packet carrying both a finish-common key and a factor-lottery key
    // must reach both handlers.
    let combined = map(vec![
        ("single_mode_finish_common", map(vec![("card_id", num(1))])),
        (
            "single_mode_factor_lottery_common",
            map(vec![(
                "factor_select_info_array",
                MsgValue::Array(vec![map(vec![
                    ("lottery_id", num(42)),
                    ("factor_info_array", MsgValue::Array(vec![map(vec![("factor_id", num(203))])])),
                ])]),
            )]),
        ),
    ]);
    let MsgValue::Dict(entries) = &combined else { unreachable!() };

    assert!(find_finish_common(entries).is_some());
    assert!(find_factor_lottery_common(entries).is_some());
}

#[test]
fn no_recognized_top_level_key_does_nothing() {
    let unrelated = map(vec![("some_other_response", num(1))]);
    let MsgValue::Dict(entries) = &unrelated else { unreachable!() };
    assert!(find_finish_common(entries).is_none());
    assert!(find_factor_lottery_common(entries).is_none());
}

#[test]
fn parse_msgpack_roundtrips_encoded_packet() {
    let packet = factor_lottery_packet(7, &[203, 1101]);
    let bytes = encode(&packet);
    let parsed = parse_msgpack(&bytes).expect("should parse");
    let MsgValue::Dict(entries) = parsed else { panic!("expected map") };
    let lottery = find_factor_lottery_common(&entries).expect("should find factor_lottery_common");
    let lists = extract_factor_list(lottery);
    assert_eq!(lists.len(), 1);
    assert_eq!(lists[0].lottery_id, Some(7));
}

#[test]
fn parse_msgpack_skips_a_four_byte_prefix() {
    let mut bytes = vec![0xdd, 0xff, 0xff, 0xff];
    bytes.extend(encode(&factor_lottery_packet(9, &[203])));
    let parsed = parse_msgpack(&bytes).expect("should parse past the prefix");
    assert!(matches!(parsed, MsgValue::Dict(_)));
    assert!(parse_msgpack(&[0xdd]).is_none());
}

#[test]
fn config_values_are_trimmed_and_parsed() {
    let c = config(&[("token", "  abc \t"), ("cooldown_seconds", " 45 "), ("debug_raw", "   ")]);
    assert_eq!(spark_collect_plugin::plugin::cfg(&c, "token").as_deref(), Some("abc"));
    assert_eq!(spark_collect_plugin::plugin::cfg(&c, "debug_raw"), None);
    assert_eq!(spark_collect_plugin::plugin::cfg(&c, "missing"), None);
    assert_eq!(cooldown(&c), 45);
    assert_eq!(cooldown(&config(&[("cooldown_seconds", "soon")])), 30);
    assert_eq!(trim("\u{3000} x y \n"), "x y");
}

#[test]
fn config_insert_replaces_a_value() {
    let c = config(&[("token", "a"), ("cooldown_seconds", "5"), ("token", " b ")]);
    assert_eq!(spark_collect_plugin::plugin::cfg(&c, "token").as_deref(), Some("b"));
    assert_eq!(cooldown(&c), 5);
}

#[test]
fn parse_u64_follows_from_str() {
    assert_eq!(parse_u64("0"), Some(0));
    assert_eq!(parse_u64("+17"), Some(17));
    assert_eq!(parse_u64("18446744073709551615"), Some(u64::MAX));
    assert_eq!(parse_u64("18446744073709551616"), None);
    assert_eq!(parse_u64(""), None);
    assert_eq!(parse_u64("+"), None);
    assert_eq!(parse_u64("-1"), None);
    assert_eq!(parse_u64("1 "), None);
}

fn finish_body(ids: &[i64]) -> rmpv::Value {
    let factor_info = rmpv::Value::Array(
        ids.iter().map(|&id| rmpv_map(vec![("factor_id", rmpv::Value::from(id))])).collect(),
    );
    rmpv_map(vec![(
        "single_mode_finish_common",
        rmpv_map(vec![("chara_info", rmpv_map(vec![("card_id", rmpv::Value::from(100101)), ("factor_info_array", factor_info)]))]),
    )])
}

#[test]
fn finish_without_rerolls_is_a_single_run_and_respects_cooldown() {
    let c = config(&[("token", "t0k")]);
    let mut state = empty_state();
    let out = process_response(&mut state, &c, &encode(&finish_body(&[203, 1101])), 100 * SEC);
    match out {
        ResponseOutcome::Routed { finish: Some(FinishDecision::Single { token, summary }), cached_candidates: None } => {
            assert_eq!(token, "t0k");
            assert_eq!(summary.card_id, Some(100101));
        },
        _ => panic!("expected a single run"),
    }
    assert_eq!(state.last_notified, Some(100 * SEC));
    let again = process_response(&mut state, &c, &encode(&finish_body(&[203, 1101])), 110 * SEC);
    assert!(matches!(again, ResponseOutcome::Routed { finish: Some(FinishDecision::CoolingDown), .. }));
    let later = process_response(&mut state, &c, &encode(&finish_body(&[203, 1101])), 130 * SEC);
    assert!(matches!(later, ResponseOutcome::Routed { finish: Some(FinishDecision::Single { .. }), .. }));
}

#[test]
fn finish_without_sparks_or_token_submits_nothing() {
    let mut state = empty_state();
    let out = process_response(&mut state, &config(&[("token", "t")]), &encode(&finish_body(&[])), 0);
    assert!(matches!(out, ResponseOutcome::Routed { finish: Some(FinishDecision::NoSparks), .. }));
    let mut state = empty_state();
    let out = process_response(&mut state, &config(&[]), &encode(&finish_body(&[203])), 0);
    assert!(matches!(out, ResponseOutcome::Routed { finish: Some(FinishDecision::NoToken), .. }));
    let out = process_response(&mut state, &config(&[]), &[0xdd, 0x00], 0);
    assert!(matches!(out, ResponseOutcome::Unparsed));
    let out = process_response(&mut state, &config(&[]), &encode(&rmpv::Value::from(3)), 0);
    assert!(matches!(out, ResponseOutcome::NotAMap));
}

#[test]
fn reroll_then_finish_plans_one_run_per_candidate() {
    let c = config(&[("token", "t")]);
    let mut state = empty_state();
    let lot = process_response(&mut state, &c, &encode(&factor_lottery_packet(42, &[203, 1101])), 10 * SEC);
    assert!(matches!(lot, ResponseOutcome::Routed { finish: None, cached_candidates: Some(1) }));
    let out = process_response(&mut state, &c, &encode(&finish_body(&[203, 1101])), 20 * SEC);
    match out {
        ResponseOutcome::Routed { finish: Some(FinishDecision::Variants { variants, .. }), .. } => {
            assert_eq!(variants.len(), 1);
            assert_eq!(variants[0].lottery_id, Some(42));
            assert_eq!(variants[0].tag, "42");
            assert!(variants[0].is_selected);
        },
        _ => panic!("expected variants"),
    }
    assert!(state.factor_cache.is_none());
}

#[test]
fn unmatched_reroll_adds_the_committed_run() {
    let c = config(&[("token", "t")]);
    let mut state = empty_state();
    let packet = rmpv_map(vec![(
        "single_mode_factor_lottery_common",
        rmpv_map(vec![(
            "factor_select_info_array",
            rmpv::Value::Array(vec![
                rmpv_map(vec![("factor_info_array", rmpv::Value::Array(vec![rmpv_map(vec![("factor_id", rmpv::Value::from(301))])]))]),
                rmpv_map(vec![("lottery_id", rmpv::Value::from(8)), ("factor_info_array", rmpv::Value::Array(vec![]))]),
            ]),
        )]),
    )]);
    process_response(&mut state, &c, &encode(&packet), 0);
    let out = process_response(&mut state, &c, &encode(&finish_body(&[203])), SEC);
    match out {
        ResponseOutcome::Routed { finish: Some(FinishDecision::Variants { variants, .. }), .. } => {
            assert_eq!(variants.len(), 3);
            assert_eq!(variants[0].tag, "i0");
            assert_eq!(variants[1].tag, "8");
            assert!(!variants[0].is_selected && !variants[1].is_selected);
            assert_eq!(variants[2].tag, "committed");
            assert!(variants[2].is_selected);
            assert_eq!(variants[2].lottery_id, None);
            assert_eq!(variants[2].sparks.stat_spark.as_ref().map(|s| s.name.as_str()), Some("Stamina"));
        },
        _ => panic!("expected variants"),
    }
}

#[test]
fn stale_reroll_is_ignored_at_finish() {
    let c = config(&[("token", "t"), ("factor_cache_max_age_seconds", "5")]);
    let mut state = empty_state();
    process_response(&mut state, &c, &encode(&factor_lottery_packet(1, &[203])), 0);
    let out = process_response(&mut state, &c, &encode(&finish_body(&[203])), 6 * SEC);
    assert!(matches!(out, ResponseOutcome::Routed { finish: Some(FinishDecision::Single { .. }), .. }));
    assert!(state.factor_cache.is_none());
}

#[test]
fn decimal_numbers_read_back() {
    for n in [0i64, 7, 30, 600, 1_000_000_007] {
        assert_eq!(parse_u64(&spark_collect_plugin::text::i64_to_string(n)), Some(n as u64));
    }
}

#[test]
fn properties_file_is_read_into_settings() {
    let c = load_config(b"# comment\ntoken = abc \ncooldown_seconds=45\ndebug_raw=\n");
    assert_eq!(spark_collect_plugin::plugin::cfg(&c, "token").as_deref(), Some("abc"));
    assert_eq!(cooldown(&c), 45);
    assert_eq!(spark_collect_plugin::plugin::cfg(&c, "debug_raw"), None);
    let empty = load_config(b"");
    assert_eq!(cooldown(&empty), 30);
    assert_eq!(max_factor_cache_age(&empty), 600);
}

fn select_packet(lottery_id: i64, factor_ids: &[i64]) -> rmpv::Value {
    let factor_info = rmpv::Value::Array(
        factor_ids.iter().map(|&id| rmpv_map(vec![("factor_id", rmpv::Value::from(id))])).collect(),
    );
    rmpv_map(vec![(
        "data",
        rmpv_map(vec![(
            "single_mode_factor_select_common",
            rmpv_map(vec![(
                "factor_select_info_array",
                rmpv::Value::Array(vec![rmpv_map(vec![
                    ("lottery_id", rmpv::Value::from(lottery_id)),
                    ("factor_info_array", factor_info),
                ])]),
            )]),
        )]),
    )])
}

#[test]
fn factor_select_packet_is_cached_like_a_reroll() {
    let c = config(&[("token", "t")]);
    let mut state = empty_state();
    let out = process_response(&mut state, &c, &encode(&select_packet(5, &[203, 1101])), 3 * SEC);
    assert!(matches!(out, ResponseOutcome::Routed { finish: None, cached_candidates: Some(1) }));
    let cache = state.factor_cache.as_ref().expect("cached");
    assert_eq!(cache.kind, SubmissionKind::FactorSelect);
    assert_eq!(cache.updated_at, 3 * SEC);
    assert_eq!(cache.entries[0].lottery_id, Some(5));
    let out = process_response(&mut state, &c, &encode(&finish_body(&[203, 1101])), 4 * SEC);
    match out {
        ResponseOutcome::Routed { finish: Some(FinishDecision::Variants { variants, .. }), .. } => {
            assert_eq!(variants.len(), 1);
            assert_eq!(variants[0].kind, SubmissionKind::FactorSelect);
            assert_eq!(variants[0].lottery_id, Some(5));
        },
        _ => panic!("expected variants"),
    }
}

#[test]
fn lists_disabled_keeps_finishes_single() {
    let c = config(&[("token", "t"), ("submit_factor_lists", " false ")]);
    assert!(!factor_lists_enabled(&c));
    assert!(factor_lists_enabled(&config(&[("submit_factor_lists", "true")])));
    assert!(factor_lists_enabled(&config(&[])));
    let mut state = empty_state();
    let lot = process_response(&mut state, &c, &encode(&factor_lottery_packet(42, &[203, 1101])), 10 * SEC);
    assert!(matches!(lot, ResponseOutcome::Routed { finish: None, cached_candidates: Some(1) }));
    assert_eq!(state.factor_cache.as_ref().map(|c| c.updated_at), Some(10 * SEC));
    assert_eq!(handle_factor_lottery(&mut state, &[], 11 * SEC), 0);
    assert_eq!(state.factor_cache.as_ref().map(|c| (c.updated_at, c.entries.len())), Some((11 * SEC, 0)));
    process_response(&mut state, &c, &encode(&factor_lottery_packet(42, &[203, 1101])), 12 * SEC);
    let out = process_response(&mut state, &c, &encode(&finish_body(&[203, 1101])), 20 * SEC);
    assert!(matches!(out, ResponseOutcome::Routed { finish: Some(FinishDecision::Single { .. }), .. }));
    assert!(state.factor_cache.is_none(), "a finish clears the snapshot whatever the switch");
    assert!(state.sent_lottery_ids.is_empty());
}

#[test]
fn cooldown_still_submits_new_rerolls_once() {
    let c = config(&[("token", "t")]);
    let mut state = empty_state();
    let first = process_response(&mut state, &c, &encode(&finish_body(&[203, 1101])), 100 * SEC);
    assert!(matches!(first, ResponseOutcome::Routed { finish: Some(FinishDecision::Single { .. }), .. }));
    process_response(&mut state, &c, &encode(&factor_lottery_packet(77, &[301])), 101 * SEC);
    let second = process_response(&mut state, &c, &encode(&finish_body(&[203, 1101])), 102 * SEC);
    match second {
        ResponseOutcome::Routed { finish: Some(FinishDecision::Variants { variants, .. }), .. } => {
            assert_eq!(variants.len(), 1, "no committed row within the cooldown");
            assert_eq!(variants[0].lottery_id, Some(77));
            assert_eq!(variants[0].kind, SubmissionKind::FactorLottery);
            assert!(!variants[0].is_selected);
        },
        _ => panic!("expected the reroll candidate"),
    }
    assert_eq!(state.sent_lottery_ids, vec![77]);
    assert_eq!(state.last_notified, Some(100 * SEC));
    process_response(&mut state, &c, &encode(&factor_lottery_packet(77, &[301])), 103 * SEC);
    let third = process_response(&mut state, &c, &encode(&finish_body(&[203, 1101])), 104 * SEC);
    assert!(matches!(third, ResponseOutcome::Routed { finish: Some(FinishDecision::CoolingDown), .. }));
    assert!(state.factor_cache.is_none());
}

#[test]
fn repeated_lottery_ids_are_submitted_once() {
    let c = config(&[("token", "t")]);
    let mut state = empty_state();
    state.sent_lottery_ids.push(3);
    let packet = rmpv_map(vec![(
        "single_mode_factor_lottery_common",
        rmpv_map(vec![(
            "factor_select_info_array",
            rmpv::Value::Array(vec![
                rmpv_map(vec![("lottery_id", rmpv::Value::from(3)), ("factor_info_array", rmpv::Value::Array(vec![]))]),
                rmpv_map(vec![("lottery_id", rmpv::Value::from(4)), ("factor_info_array", rmpv::Value::Array(vec![]))]),
                rmpv_map(vec![("lottery_id", rmpv::Value::from(4)), ("factor_info_array", rmpv::Value::Array(vec![]))]),
                rmpv_map(vec![("factor_info_array", rmpv::Value::Array(vec![]))]),
            ]),
        )]),
    )]);
    process_response(&mut state, &c, &encode(&packet), 0);
    let out = process_response(&mut state, &c, &encode(&finish_body(&[203])), SEC);
    match out {
        ResponseOutcome::Routed { finish: Some(FinishDecision::Variants { variants, .. }), .. } => {
            let ids: Vec<Option<i64>> = variants.iter().map(|v| v.lottery_id).collect();
            assert_eq!(ids, vec![Some(4), None, None]);
            assert_eq!(variants[1].tag, "i1");
            assert_eq!(variants[2].tag, "committed");
            assert_eq!(variants[2].kind, SubmissionKind::Finish);
        },
        _ => panic!("expected variants"),
    }
    assert_eq!(state.sent_lottery_ids, vec![3, 4]);
}

#[test]
fn route_response_takes_a_decoded_value() {
    let c = config(&[("token", "t")]);
    let mut state = empty_state();
    let out = route_response(&mut state, &c, &num(3), 0);
    assert!(matches!(out, ResponseOutcome::NotAMap));
    let packet = map(vec![(
        "single_mode_factor_select_common",
        map(vec![(
            "factor_select_info_array",
            MsgValue::Array(vec![map(vec![("lottery_id", num(6)), ("factor_info_array", MsgValue::Array(vec![]))])]),
        )]),
    )]);
    let out = route_response(&mut state, &c, &packet, 2 * SEC);
    assert!(matches!(out, ResponseOutcome::Routed { finish: None, cached_candidates: Some(1) }));
    assert_eq!(state.factor_cache.as_ref().map(|c| c.kind), Some(SubmissionKind::FactorSelect));
}
