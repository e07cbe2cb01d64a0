//! Properties of the library that span its functions.

use vstd::prelude::*;
use vstd::seq_lib::lemma_concat_associative;
use crate::extract::{BreakdownView, breakdown_step, empty_breakdown, factor_list_view, spec_breakdown, spec_categorize, spec_summary_sparks, FactorView};
use crate::msgpack::MsgValue;
use crate::plugin::{
    Config, FactorCache, FinishDecision, PluginState, all_digits, cache_kind, digits_value, elapsed, finish_decision_ok,
    finish_fresh, finish_has_candidates, finish_next_cache, finish_next_last, finish_next_sent, finish_passes,
    first_match_from, fresh_split, is_digit, is_ws, lists_enabled, plans_view, spec_cfg, spec_parse_u64,
    spec_secs_setting, spec_sparks_match, spec_trim, trim_end, trim_start, valid_cached, variant_plan, within_secs,
    DEFAULT_COOLDOWN_SECS, DEFAULT_FACTOR_CACHE_MAX_AGE_SECS,
};
use crate::worker::{
    SubmissionKind, run_payload_text, variant_payload_text, aptitudes_text, card_or_zero, document_body, opt_i64_text, rank_or_g, unique_stars_text, i64_list_text, parents_text, race_results_text, skill_array_text,
    skill_sparks_text, spark_entry_text, stats_text, support_cards_text, skill_spark_text, parent_text,
};
use crate::extract::{Aptitudes, FinishSummary, entry_view, skills_view, spec_target, Parent, ParentView, RaceResult, SkillEntry, Stats, SupportCard, spec_rank_label, spec_summary_of, text_view};
use crate::msgpack::{lookup, array_or_empty, filter_map, spec_get_array, spec_get_i64, spec_map_get, spec_val_i64};
use crate::text::{dec_digits, digit_char, i64_text};
use crate::worker::{escape_char, spec_escape};

verus! {

/// Spark matching is an equivalence: every breakdown matches itself, and
/// matching is symmetric and transitive.
pub proof fn lemma_sparks_match_equivalence(a: BreakdownView, b: BreakdownView, c: BreakdownView)
    ensures
        spec_sparks_match(a, a),
        spec_sparks_match(a, b) ==> spec_sparks_match(b, a),
        spec_sparks_match(a, b) && spec_sparks_match(b, c) ==> spec_sparks_match(a, c),
{
}

/// Neither the order nor the repetition of the white sparks decides a match:
/// a breakdown matches any breakdown that differs from it only in the list
/// of white sparks, as long as that list holds the same sparks.
pub proof fn lemma_sparks_match_ignores_skill_order(a: BreakdownView, skills: Seq<(Seq<char>, i64, i64)>)
    requires
        skills.to_set() == a.skills.to_set(),
    ensures
        spec_sparks_match(a, BreakdownView { stat: a.stat, aptitude: a.aptitude, unique: a.unique, skills }),
{
}

proof fn lemma_first_match_from(cands: Seq<(Option<i64>, BreakdownView)>, committed: BreakdownView, k: nat)
    ensures
        match first_match_from(cands, committed, k) {
            Some(i) => k <= i < cands.len() && spec_sparks_match(cands[i].1, committed),
            None => forall|j: int| k <= j < cands.len() ==> !spec_sparks_match(#[trigger] cands[j].1, committed),
        },
    decreases cands.len() - k,
{
    if k < cands.len() && !spec_sparks_match(cands[k as int].1, committed) {
        lemma_first_match_from(cands, committed, k + 1);
    }
}

/// A finish that followed rerolls submits every candidate, in order and of
/// the snapshot's kind, and marks at most one submission selected, one whose
/// sparks are the committed ones; when the finish's own row may go, exactly
/// one is selected (the first matching candidate, or the committed sparks
/// themselves), else nothing beyond the candidates is submitted.
pub proof fn lemma_variant_plan_selects_one(cands: Seq<(Option<i64>, BreakdownView)>, committed: BreakdownView, kind: SubmissionKind, with_committed: bool)
    ensures
        ({
            let plans = variant_plan(cands, committed, kind, with_committed);
            &&& plans.len() >= cands.len()
            &&& forall|i: int| 0 <= i < cands.len() ==> (#[trigger] plans[i]).0 == cands[i].0 && plans[i].3 == cands[i].1
                && plans[i].4 == kind
            &&& forall|i: int| 0 <= i < plans.len() && (#[trigger] plans[i]).1 ==> spec_sparks_match(plans[i].3, committed)
            &&& forall|i: int, j: int| 0 <= i < plans.len() && 0 <= j < plans.len() && (#[trigger] plans[i]).1
                && (#[trigger] plans[j]).1 ==> i == j
            &&& with_committed ==> exists|i: int| 0 <= i < plans.len() && (#[trigger] plans[i]).1
            &&& !with_committed ==> plans.len() == cands.len()
        }),
{
    lemma_first_match_from(cands, committed, 0);
    let plans = variant_plan(cands, committed, kind, with_committed);
    match first_match_from(cands, committed, 0) {
        Some(k) => {
            assert(plans[k].1);
        },
        None => {
            if with_committed {
                let n = cands.len() as int;
                assert(plans[n].1);
                assert(plans[n].3 == committed);
            }
        },
    }
}

/// Every lottery id among the submissions of a finish is that of the
/// candidate at the same place.
proof fn lemma_variant_plan_ids(cands: Seq<(Option<i64>, BreakdownView)>, committed: BreakdownView, kind: SubmissionKind, with_committed: bool)
    ensures
        forall|i: int| 0 <= i < variant_plan(cands, committed, kind, with_committed).len()
            && (#[trigger] variant_plan(cands, committed, kind, with_committed)[i]).0 is Some
            ==> i < cands.len() && variant_plan(cands, committed, kind, with_committed)[i].0 == cands[i].0,
{
}

/// `a` if present, else `b`.
pub open spec fn first_present<T>(a: Option<T>, b: Option<T>) -> Option<T> {
    if a is Some { a } else { b }
}

/// Two breakdowns of consecutive lists taken as one: the first stat,
/// aptitude and unique spark of either, and the white sparks of both in
/// order.
pub open spec fn joined_breakdown(a: BreakdownView, b: BreakdownView) -> BreakdownView {
    BreakdownView {
        stat: first_present(a.stat, b.stat),
        aptitude: first_present(a.aptitude, b.aptitude),
        unique: first_present(a.unique, b.unique),
        skills: a.skills + b.skills,
    }
}

/// Decoding two lists of `factor_id`s one after the other gives the
/// breakdown of the joined list: white sparks of both in order, and the
/// first stat, aptitude and unique spark found in either.
pub proof fn lemma_breakdown_of_joined_lists(xs: Seq<i64>, ys: Seq<i64>)
    ensures
        spec_breakdown(xs + ys) == joined_breakdown(spec_breakdown(xs), spec_breakdown(ys)),
    decreases ys.len(),
{
    let a = spec_breakdown(xs);
    if ys.len() == 0 {
        assert(xs + ys =~= xs);
        assert(a.skills + Seq::<(Seq<char>, i64, i64)>::empty() =~= a.skills);
    } else {
        let yp = ys.drop_last();
        lemma_breakdown_of_joined_lists(xs, yp);
        assert((xs + ys).drop_last() =~= xs + yp);
        assert((xs + ys).last() == ys.last());
        let bp = spec_breakdown(yp);
        let f = spec_categorize(ys.last());
        if let FactorView::Skill(e) = f {
            assert((a.skills + bp.skills).push(e) =~= a.skills + bp.skills.push(e));
        }
    }
}

/// Once a finish gets past the cooldown at `now`, every finish after it and
/// less than the cooldown later is held back.
pub proof fn lemma_cooldown_holds_back_repeats(old: PluginState, next: PluginState, config: Config, now: u128, later: u128)
    requires
        finish_passes(old, config, now),
        next.last_notified == finish_next_last(old, config, now),
        now <= later,
        later - now < spec_secs_setting(config, "cooldown_seconds"@, DEFAULT_COOLDOWN_SECS) as int * 1_000_000_000,
    ensures
        !finish_passes(next, config, later),
{
}

/// Within the cooldown a finish's own run is held back, but reroll
/// candidates not submitted before still go, each as its own run: the
/// decision is never a single run, and holds exactly those candidates when
/// there are any.
pub proof fn lemma_cooldown_holds_back_only_the_finish(old: PluginState, config: Config, fc: Seq<(MsgValue, MsgValue)>, now: u128, r: FinishDecision)
    requires
        finish_decision_ok(old, config, fc, now, r),
        !finish_passes(old, config, now),
    ensures
        !(r is Single) && !(r is NoSparks) && !(r is NoToken),
        finish_has_candidates(old, config, fc, now) ==> r is Variants,
        r matches FinishDecision::Variants { variants, .. } ==> {
            let fresh = finish_fresh(old, config, now).0;
            &&& variants@.len() == fresh.len()
            &&& forall|i: int| 0 <= i < fresh.len() ==> (#[trigger] variants@[i]).lottery_id == fresh[i].0
                && variants@[i].kind == cache_kind(old.factor_cache)
        },
{
    if let FinishDecision::Variants { variants, .. } = r {
        let fresh = finish_fresh(old, config, now).0;
        lemma_variant_plan_selects_one(fresh, spec_summary_sparks(fc), cache_kind(old.factor_cache), false);
        assert forall|i: int| 0 <= i < fresh.len() implies (#[trigger] variants@[i]).lottery_id == fresh[i].0
            && variants@[i].kind == cache_kind(old.factor_cache) by {
            assert(plans_view(variants@)[i] == variants@[i]@);
        }
    }
}

/// With `submit_factor_lists` set to `false`, a finish never submits reroll
/// candidates and sends no lottery id; a finish that gets past the cooldown
/// with sparks and a token still clears the snapshot.
pub proof fn lemma_lists_off_submits_no_candidates(old: PluginState, config: Config, fc: Seq<(MsgValue, MsgValue)>, now: u128, r: FinishDecision)
    requires
        finish_decision_ok(old, config, fc, now, r),
        !lists_enabled(config),
    ensures
        !(r is Variants),
        finish_next_sent(old, config, fc, now) == old.sent_lottery_ids@,
        r is Single ==> finish_next_cache(old, config, fc, now) is None,
{
}

proof fn lemma_fresh_split(cands: Seq<(Option<i64>, BreakdownView)>, sent: Seq<i64>)
    ensures
        sent.len() <= fresh_split(cands, sent).1.len(),
        forall|i: int| 0 <= i < sent.len() ==> fresh_split(cands, sent).1[i] == #[trigger] sent[i],
        forall|k: int| 0 <= k < fresh_split(cands, sent).0.len() && (#[trigger] fresh_split(cands, sent).0[k]).0 is Some ==> {
            let id = fresh_split(cands, sent).0[k].0.unwrap();
            fresh_split(cands, sent).1.contains(id) && !sent.contains(id)
        },
        forall|j: int, k: int| 0 <= j < k < fresh_split(cands, sent).0.len()
            && (#[trigger] fresh_split(cands, sent).0[j]).0 is Some
            ==> fresh_split(cands, sent).0[j].0 != (#[trigger] fresh_split(cands, sent).0[k]).0,
    decreases cands.len(),
{
    if cands.len() > 0 {
        lemma_fresh_split(cands.drop_last(), sent);
        let prev = fresh_split(cands.drop_last(), sent);
        let cur = fresh_split(cands, sent);
        let c = cands.last();
        if let Some(id) = c.0 {
            if !prev.1.contains(id) {
                assert(cur.0 == prev.0.push(c));
                assert(cur.1 == prev.1.push(id));
                assert(!sent.contains(id)) by {
                    if sent.contains(id) {
                        let i = choose|i: int| 0 <= i < sent.len() && sent[i] == id;
                        assert(prev.1[i] == sent[i]);
                    }
                }
                assert(cur.1[prev.1.len() as int] == id);
                assert forall|k: int| 0 <= k < cur.0.len() && (#[trigger] cur.0[k]).0 is Some implies
                    cur.1.contains(cur.0[k].0.unwrap()) && !sent.contains(cur.0[k].0.unwrap()) by {
                    if k < prev.0.len() {
                        assert(cur.0[k] == prev.0[k]);
                        let x = prev.0[k].0.unwrap();
                        let i = choose|i: int| 0 <= i < prev.1.len() && prev.1[i] == x;
                        assert(cur.1[i] == x);
                    }
                }
                assert forall|j: int, k: int| 0 <= j < k < cur.0.len() && (#[trigger] cur.0[j]).0 is Some implies
                    cur.0[j].0 != (#[trigger] cur.0[k]).0 by {
                    assert(cur.0[j] == prev.0[j]);
                    if k == prev.0.len() {
                        assert(prev.1.contains(prev.0[j].0.unwrap()));
                    } else {
                        assert(cur.0[k] == prev.0[k]);
                    }
                }
            }
        } else {
            assert(cur.0 == prev.0.push(c));
            assert forall|k: int| 0 <= k < cur.0.len() && (#[trigger] cur.0[k]).0 is Some implies
                cur.1.contains(cur.0[k].0.unwrap()) && !sent.contains(cur.0[k].0.unwrap()) by {
                assert(cur.0[k] == prev.0[k]);
            }
            assert forall|j: int, k: int| 0 <= j < k < cur.0.len() && (#[trigger] cur.0[j]).0 is Some implies
                cur.0[j].0 != (#[trigger] cur.0[k]).0 by {
                assert(cur.0[j] == prev.0[j]);
                if k < prev.0.len() {
                    assert(cur.0[k] == prev.0[k]);
                }
            }
        }
    }
}

/// Whether the decision submits a reroll candidate with lottery id `id`.
pub open spec fn submits_lottery_id(r: FinishDecision, id: i64) -> bool {
    match r {
        FinishDecision::Variants { variants, .. } => exists|i: int| 0 <= i < variants@.len()
            && (#[trigger] variants@[i]).lottery_id == Some(id),
        _ => false,
    }
}

/// Reroll submissions are deduplicated by lottery id: no finish submits a
/// lottery id twice, and no later finish, from a state that remembers the
/// ids sent by an earlier one, submits any of them again.
pub proof fn lemma_reroll_ids_submitted_once(s0: PluginState, s1: PluginState, config: Config, fc1: Seq<(MsgValue, MsgValue)>, now1: u128, r1: FinishDecision, fc2: Seq<(MsgValue, MsgValue)>, now2: u128, r2: FinishDecision, id: i64)
    requires
        finish_decision_ok(s0, config, fc1, now1, r1),
        forall|x: i64| finish_next_sent(s0, config, fc1, now1).contains(x) ==> s1.sent_lottery_ids@.contains(x),
        finish_decision_ok(s1, config, fc2, now2, r2),
    ensures
        submits_lottery_id(r1, id) ==> !submits_lottery_id(r2, id),
        r1 matches FinishDecision::Variants { variants, .. } ==> forall|i: int, j: int|
            0 <= i < j < variants@.len() && (#[trigger] variants@[i]).lottery_id is Some
            ==> variants@[i].lottery_id != (#[trigger] variants@[j]).lottery_id,
{
    if let FinishDecision::Variants { variants, .. } = r1 {
        let fresh = finish_fresh(s0, config, now1);
        lemma_fresh_split(valid_cached(s0.factor_cache, now1,
            spec_secs_setting(config, "factor_cache_max_age_seconds"@, DEFAULT_FACTOR_CACHE_MAX_AGE_SECS)),
            s0.sent_lottery_ids@);
        let plans = variant_plan(fresh.0, spec_summary_sparks(fc1), cache_kind(s0.factor_cache), finish_passes(s0, config, now1));
        lemma_variant_plan_ids(fresh.0, spec_summary_sparks(fc1), cache_kind(s0.factor_cache), finish_passes(s0, config, now1));
        assert forall|i: int| 0 <= i < variants@.len() implies (#[trigger] variants@[i]).lottery_id == plans[i].0 by {
            assert(plans_view(variants@)[i] == variants@[i]@);
        }
        assert forall|i: int, j: int| 0 <= i < j < variants@.len() && (#[trigger] variants@[i]).lottery_id is Some
            implies variants@[i].lottery_id != (#[trigger] variants@[j]).lottery_id by {
            assert(plans[i].0 is Some);
            if plans[j].0 is Some {
                assert(plans[i].0 == fresh.0[i].0);
                assert(plans[j].0 == fresh.0[j].0);
            }
        }
        if submits_lottery_id(r1, id) {
            let i = choose|i: int| 0 <= i < variants@.len() && (#[trigger] variants@[i]).lottery_id == Some(id);
            assert(plans[i].0 == Some(id));
            assert(fresh.0[i].0 == Some(id));
            assert(fresh.1.contains(id));
            assert(s1.sent_lottery_ids@.contains(id));
            if let FinishDecision::Variants { variants: v2, .. } = r2 {
                let fresh2 = finish_fresh(s1, config, now2);
                lemma_fresh_split(valid_cached(s1.factor_cache, now2,
                    spec_secs_setting(config, "factor_cache_max_age_seconds"@, DEFAULT_FACTOR_CACHE_MAX_AGE_SECS)),
                    s1.sent_lottery_ids@);
                let plans2 = variant_plan(fresh2.0, spec_summary_sparks(fc2), cache_kind(s1.factor_cache), finish_passes(s1, config, now2));
                lemma_variant_plan_ids(fresh2.0, spec_summary_sparks(fc2), cache_kind(s1.factor_cache), finish_passes(s1, config, now2));
                assert forall|k: int| 0 <= k < v2@.len() implies (#[trigger] v2@[k]).lottery_id != Some(id) by {
                    assert(plans_view(v2@)[k] == v2@[k]@);
                    if plans2[k].0 is Some {
                        assert(plans2[k].0 == fresh2.0[k].0);
                    }
                }
            }
        }
    }
}

/// A cached reroll snapshot is what a finish gets back while it is no older
/// than the maximum age, and nothing once it is older.
pub proof fn lemma_snapshot_read_back(c: FactorCache, now: u128, max_age: u64)
    ensures
        within_secs(elapsed(c.updated_at, now), max_age) ==> valid_cached(Some(c), now, max_age) == factor_list_view(c.entries@),
        !within_secs(elapsed(c.updated_at, now), max_age) ==> valid_cached(Some(c), now, max_age).len() == 0,
{
}

/// Text with no quote, backslash or newline goes into a JSON string as it is.
pub proof fn lemma_escape_plain_text(s: Seq<char>)
    requires
        forall|i: int| 0 <= i < s.len() ==> s[i] != '"' && s[i] != '\\' && s[i] != '\n',
    ensures
        spec_escape(s) == s,
    decreases s.len(),
{
    if s.len() > 0 {
        lemma_escape_plain_text(s.drop_last());
        assert(escape_char(s.last()) == seq![s.last()]);
        assert(s.drop_last() + seq![s.last()] =~= s);
    }
}

proof fn lemma_dec_digits(n: nat)
    ensures
        dec_digits(n).len() > 0,
        all_digits(dec_digits(n)),
        digits_value(dec_digits(n)) == n,
    decreases n,
{
    if n >= 10 {
        lemma_dec_digits(n / 10);
        let d = dec_digits(n / 10);
        let e = d.push(digit_char((n % 10) as int));
        assert(e.drop_last() =~= d);
        let c = digit_char((n % 10) as int);
        assert((c as u32) == (n % 10) + 48);
        assert(e.last() == c);
        assert(digits_value(e) == digits_value(d) * 10 + ((c as u32) - 48) as nat);
        assert((n / 10) * 10 + n % 10 == n) by (nonlinear_arith);
        assert forall|i: int| 0 <= i < e.len() implies is_digit(#[trigger] e[i]) by {
            if i < d.len() {
                assert(e[i] == d[i]);
            }
        }
    } else {
        assert(dec_digits(n).drop_last() =~= Seq::<char>::empty());
        let c = digit_char(n as int);
        assert((c as u32) == n + 48);
        assert(dec_digits(n).last() == c);
        assert(digits_value(dec_digits(n)) == digits_value(Seq::<char>::empty()) * 10 + ((c as u32) - 48) as nat);
    }
}

/// A number written in decimal reads back as itself.
pub proof fn lemma_parse_reads_back_decimal(n: u64)
    ensures
        spec_parse_u64(dec_digits(n as nat)) == Some(n),
{
    lemma_dec_digits(n as nat);
    let d = dec_digits(n as nat);
    assert(is_digit(d[0]));
}

proof fn lemma_trim_start_edge(s: Seq<char>)
    ensures
        trim_start(s).len() > 0 ==> !is_ws(trim_start(s)[0]),
        trim_start(s).len() <= s.len(),
        trim_start(s) == s.subrange(s.len() - trim_start(s).len(), s.len() as int),
    decreases s.len(),
{
    if s.len() > 0 && is_ws(s[0]) {
        lemma_trim_start_edge(s.drop_first());
        assert(s.drop_first().subrange(s.drop_first().len() - trim_start(s).len(), s.drop_first().len() as int)
            =~= s.subrange(s.len() - trim_start(s).len(), s.len() as int));
    } else {
        assert(s.subrange(0, s.len() as int) =~= s);
    }
}

proof fn lemma_trim_end_edge(s: Seq<char>)
    ensures
        trim_end(s).len() > 0 ==> !is_ws(trim_end(s).last()),
        trim_end(s).len() <= s.len(),
        trim_end(s) == s.subrange(0, trim_end(s).len() as int),
    decreases s.len(),
{
    if s.len() > 0 && is_ws(s.last()) {
        lemma_trim_end_edge(s.drop_last());
        assert(s.drop_last().subrange(0, trim_end(s).len() as int) =~= s.subrange(0, trim_end(s).len() as int));
    } else {
        assert(s.subrange(0, s.len() as int) =~= s);
    }
}

/// A setting is never empty and never starts or ends with whitespace.
pub proof fn lemma_setting_is_trimmed(config: Config, key: Seq<char>)
    ensures
        spec_cfg(config, key) matches Some(v) ==> v.len() > 0 && !is_ws(v[0]) && !is_ws(v.last()),
{
    if let Some(v) = spec_cfg(config, key) {
        let raw = config.lookup(key).unwrap();
        let t = trim_start(raw);
        lemma_trim_start_edge(raw);
        lemma_trim_end_edge(t);
        assert(v == spec_trim(raw));
        assert(v == trim_end(t));
        assert(v[0] == t[0]);
    }
}


/// An optional number as a JSON value.
pub open spec fn number_field(v: Option<i64>) -> Seq<char> {
    match v {
        Some(n) => i64_text(n),
        None => "null"@,
    }
}

/// The star count of a unique spark as a JSON value, `null` without one.
pub open spec fn unique_stars_field(u: Option<(Seq<char>, i64)>) -> Seq<char> {
    match u {
        Some(e) => i64_text(e.1),
        None => "null"@,
    }
}

/// The five stats as the JSON object the worker reads, zero when absent.
pub open spec fn stats_field(o: Option<Stats>) -> Seq<char> {
    match o {
        Some(x) => "{\"spd\":"@ + i64_text(x.speed) + ",\"sta\":"@ + i64_text(x.stamina) + ",\"pow\":"@
            + i64_text(x.power) + ",\"gut\":"@ + i64_text(x.guts) + ",\"wit\":"@ + i64_text(x.wit) + "}"@,
        None => "{\"spd\":0,\"sta\":0,\"pow\":0,\"gut\":0,\"wit\":0}"@,
    }
}

/// The ten aptitude grades as the JSON object the worker reads, or `null`.
pub open spec fn aptitudes_field(o: Option<Aptitudes>) -> Seq<char> {
    match o {
        Some(x) => "{\"short\":"@ + number_field(x.short) + ",\"mile\":"@ + number_field(x.mile)
            + ",\"middle\":"@ + number_field(x.middle) + ",\"long\":"@ + number_field(x.long)
            + ",\"front\":"@ + number_field(x.front) + ",\"pace\":"@ + number_field(x.pace)
            + ",\"late\":"@ + number_field(x.late) + ",\"end\":"@ + number_field(x.end)
            + ",\"turf\":"@ + number_field(x.turf) + ",\"dirt\":"@ + number_field(x.dirt) + "}"@,
        None => "null"@,
    }
}

/// A run document opens with the token, the message id and the kind, then
/// the character (0 when unknown), the rank label ("G" when unknown), and
/// the rating, races, wins, timestamp, scenario and rarity, each under the
/// key of its own name.
pub proof fn lemma_document_opens_with_its_fields(token: Seq<char>, message_id: Seq<char>, kind: Seq<char>, summary: FinishSummary, sparks: BreakdownView, ts_ms: u128)
    ensures
        ("{\"token\":\""@ + token + "\",\"message_id\":\""@ + message_id + "\",\"kind\":\""@ + kind + "\",\"character_id\":"@ + i64_text(match summary.card_id { Some(c) => c, None => 0i64 }) + ",\"rank\":\""@ + spec_escape(match summary.rank { Some(r) => r@, None => "G"@ }) + "\",\"rating\":"@ + number_field(summary.rating) + ",\"races\":"@ + number_field(summary.races) + ",\"wins\":"@ + number_field(summary.wins) + ",\"obtained_at_unix_ms\":"@ + dec_digits(ts_ms as nat) + ",\"scenario_id\":"@ + number_field(summary.scenario_id) + ",\"rarity\":"@ + number_field(summary.rarity) + ",\"stats\":"@).is_prefix_of(document_body(token, message_id, kind, summary, sparks, ts_ms)),
{
    let la = "{\"token\":\""@ + token + "\",\"message_id\":\""@ + message_id + "\",\"kind\":\""@ + kind + "\",\"character_id\":"@ + i64_text(card_or_zero(summary.card_id)) + ",\"rank\":\""@ + spec_escape(rank_or_g(text_view(summary.rank))) + "\",\"rating\":"@ + opt_i64_text(summary.rating) + ",\"races\":"@ + opt_i64_text(summary.races) + ",\"wins\":"@ + opt_i64_text(summary.wins) + ",\"obtained_at_unix_ms\":"@ + dec_digits(ts_ms as nat) + ",\"scenario_id\":"@ + opt_i64_text(summary.scenario_id) + ",\"rarity\":"@ + opt_i64_text(summary.rarity);
    let m = ",\"stats\":"@;
    let lb = la + m;
    let r = stats_text(summary.stats);
    lemma_concat_associative(lb, r, ",\"aptitudes\":"@);
    let r = r + ",\"aptitudes\":"@;
    lemma_concat_associative(lb, r, aptitudes_text(summary.aptitudes));
    let r = r + aptitudes_text(summary.aptitudes);
    lemma_concat_associative(lb, r, ",\"stat_spark\":"@);
    let r = r + ",\"stat_spark\":"@;
    lemma_concat_associative(lb, r, spark_entry_text(sparks.stat));
    let r = r + spark_entry_text(sparks.stat);
    lemma_concat_associative(lb, r, ",\"aptitude_spark\":"@);
    let r = r + ",\"aptitude_spark\":"@;
    lemma_concat_associative(lb, r, spark_entry_text(sparks.aptitude));
    let r = r + spark_entry_text(sparks.aptitude);
    lemma_concat_associative(lb, r, ",\"unique_spark_stars\":"@);
    let r = r + ",\"unique_spark_stars\":"@;
    lemma_concat_associative(lb, r, unique_stars_text(sparks.unique));
    let r = r + unique_stars_text(sparks.unique);
    lemma_concat_associative(lb, r, ",\"skill_sparks\":["@);
    let r = r + ",\"skill_sparks\":["@;
    lemma_concat_associative(lb, r, skill_sparks_text(sparks.skills));
    let r = r + skill_sparks_text(sparks.skills);
    lemma_concat_associative(lb, r, "],\"skill_array\":["@);
    let r = r + "],\"skill_array\":["@;
    lemma_concat_associative(lb, r, skill_array_text(summary.skill_array@));
    let r = r + skill_array_text(summary.skill_array@);
    lemma_concat_associative(lb, r, "],\"support_cards\":["@);
    let r = r + "],\"support_cards\":["@;
    lemma_concat_associative(lb, r, support_cards_text(summary.support_cards@));
    let r = r + support_cards_text(summary.support_cards@);
    lemma_concat_associative(lb, r, "],\"race_results\":["@);
    let r = r + "],\"race_results\":["@;
    lemma_concat_associative(lb, r, race_results_text(summary.race_results@));
    let r = r + race_results_text(summary.race_results@);
    lemma_concat_associative(lb, r, "],\"win_saddle_ids\":["@);
    let r = r + "],\"win_saddle_ids\":["@;
    lemma_concat_associative(lb, r, i64_list_text(summary.win_saddle_ids@));
    let r = r + i64_list_text(summary.win_saddle_ids@);
    lemma_concat_associative(lb, r, "],\"parents\":["@);
    let r = r + "],\"parents\":["@;
    lemma_concat_associative(lb, r, parents_text(summary.parents@));
    let r = r + parents_text(summary.parents@);
    lemma_concat_associative(lb, r, "]"@);
    let r = r + "]"@;
    let head = "{\"token\":\""@ + token + "\",\"message_id\":\""@ + message_id + "\",\"kind\":\""@ + kind + "\",\"character_id\":"@ + i64_text(match summary.card_id { Some(c) => c, None => 0i64 }) + ",\"rank\":\""@ + spec_escape(match summary.rank { Some(r) => r@, None => "G"@ }) + "\",\"rating\":"@ + number_field(summary.rating) + ",\"races\":"@ + number_field(summary.races) + ",\"wins\":"@ + number_field(summary.wins) + ",\"obtained_at_unix_ms\":"@ + dec_digits(ts_ms as nat) + ",\"scenario_id\":"@ + number_field(summary.scenario_id) + ",\"rarity\":"@ + number_field(summary.rarity) + ",\"stats\":"@;
    assert(la + m == head);
    assert(document_body(token, message_id, kind, summary, sparks, ts_ms) == head + r);
    assert((head + r).subrange(0, head.len() as int) =~= head);
}

/// The stats and the aptitudes of a run document follow the rarity, each
/// value under the key of its own name.
pub proof fn lemma_document_stats_fields(token: Seq<char>, message_id: Seq<char>, kind: Seq<char>, summary: FinishSummary, sparks: BreakdownView, ts_ms: u128)
    ensures
        exists|before: Seq<char>, after: Seq<char>| #![trigger before + (",\"stats\":"@ + stats_field(summary.stats) + ",\"aptitudes\":"@ + aptitudes_field(summary.aptitudes) + ",\"stat_spark\":"@) + after] document_body(token, message_id, kind, summary, sparks, ts_ms) == before + (",\"stats\":"@ + stats_field(summary.stats) + ",\"aptitudes\":"@ + aptitudes_field(summary.aptitudes) + ",\"stat_spark\":"@) + after,
{
    let la = "{\"token\":\""@ + token + "\",\"message_id\":\""@ + message_id + "\",\"kind\":\""@ + kind + "\",\"character_id\":"@ + i64_text(card_or_zero(summary.card_id)) + ",\"rank\":\""@ + spec_escape(rank_or_g(text_view(summary.rank))) + "\",\"rating\":"@ + opt_i64_text(summary.rating) + ",\"races\":"@ + opt_i64_text(summary.races) + ",\"wins\":"@ + opt_i64_text(summary.wins) + ",\"obtained_at_unix_ms\":"@ + dec_digits(ts_ms as nat) + ",\"scenario_id\":"@ + opt_i64_text(summary.scenario_id) + ",\"rarity\":"@ + opt_i64_text(summary.rarity);
    let m = ",\"stats\":"@;
    lemma_concat_associative(la, m, stats_text(summary.stats));
    let m = m + stats_text(summary.stats);
    lemma_concat_associative(la, m, ",\"aptitudes\":"@);
    let m = m + ",\"aptitudes\":"@;
    lemma_concat_associative(la, m, aptitudes_text(summary.aptitudes));
    let m = m + aptitudes_text(summary.aptitudes);
    lemma_concat_associative(la, m, ",\"stat_spark\":"@);
    let m = m + ",\"stat_spark\":"@;
    let lb = la + m;
    let r = spark_entry_text(sparks.stat);
    lemma_concat_associative(lb, r, ",\"aptitude_spark\":"@);
    let r = r + ",\"aptitude_spark\":"@;
    lemma_concat_associative(lb, r, spark_entry_text(sparks.aptitude));
    let r = r + spark_entry_text(sparks.aptitude);
    lemma_concat_associative(lb, r, ",\"unique_spark_stars\":"@);
    let r = r + ",\"unique_spark_stars\":"@;
    lemma_concat_associative(lb, r, unique_stars_text(sparks.unique));
    let r = r + unique_stars_text(sparks.unique);
    lemma_concat_associative(lb, r, ",\"skill_sparks\":["@);
    let r = r + ",\"skill_sparks\":["@;
    lemma_concat_associative(lb, r, skill_sparks_text(sparks.skills));
    let r = r + skill_sparks_text(sparks.skills);
    lemma_concat_associative(lb, r, "],\"skill_array\":["@);
    let r = r + "],\"skill_array\":["@;
    lemma_concat_associative(lb, r, skill_array_text(summary.skill_array@));
    let r = r + skill_array_text(summary.skill_array@);
    lemma_concat_associative(lb, r, "],\"support_cards\":["@);
    let r = r + "],\"support_cards\":["@;
    lemma_concat_associative(lb, r, support_cards_text(summary.support_cards@));
    let r = r + support_cards_text(summary.support_cards@);
    lemma_concat_associative(lb, r, "],\"race_results\":["@);
    let r = r + "],\"race_results\":["@;
    lemma_concat_associative(lb, r, race_results_text(summary.race_results@));
    let r = r + race_results_text(summary.race_results@);
    lemma_concat_associative(lb, r, "],\"win_saddle_ids\":["@);
    let r = r + "],\"win_saddle_ids\":["@;
    lemma_concat_associative(lb, r, i64_list_text(summary.win_saddle_ids@));
    let r = r + i64_list_text(summary.win_saddle_ids@);
    lemma_concat_associative(lb, r, "],\"parents\":["@);
    let r = r + "],\"parents\":["@;
    lemma_concat_associative(lb, r, parents_text(summary.parents@));
    let r = r + parents_text(summary.parents@);
    lemma_concat_associative(lb, r, "]"@);
    let r = r + "]"@;
    assert(stats_field(summary.stats) == stats_text(summary.stats));
    assert(aptitudes_field(summary.aptitudes) == aptitudes_text(summary.aptitudes));
    assert(m == ",\"stats\":"@ + stats_field(summary.stats) + ",\"aptitudes\":"@ + aptitudes_field(summary.aptitudes) + ",\"stat_spark\":"@);
    assert(document_body(token, message_id, kind, summary, sparks, ts_ms) == la + (",\"stats\":"@ + stats_field(summary.stats) + ",\"aptitudes\":"@ + aptitudes_field(summary.aptitudes) + ",\"stat_spark\":"@) + r);
}

/// The sparks of a run document: the stat and aptitude spark as given, the
/// unique spark's stars, then the white sparks.
pub proof fn lemma_document_spark_fields(token: Seq<char>, message_id: Seq<char>, kind: Seq<char>, summary: FinishSummary, sparks: BreakdownView, ts_ms: u128)
    ensures
        exists|before: Seq<char>, after: Seq<char>| #![trigger before + (",\"stat_spark\":"@ + spark_entry_text(sparks.stat) + ",\"aptitude_spark\":"@ + spark_entry_text(sparks.aptitude) + ",\"unique_spark_stars\":"@ + unique_stars_field(sparks.unique) + ",\"skill_sparks\":["@) + after] document_body(token, message_id, kind, summary, sparks, ts_ms) == before + (",\"stat_spark\":"@ + spark_entry_text(sparks.stat) + ",\"aptitude_spark\":"@ + spark_entry_text(sparks.aptitude) + ",\"unique_spark_stars\":"@ + unique_stars_field(sparks.unique) + ",\"skill_sparks\":["@) + after,
{
    let la = "{\"token\":\""@ + token + "\",\"message_id\":\""@ + message_id + "\",\"kind\":\""@ + kind + "\",\"character_id\":"@ + i64_text(card_or_zero(summary.card_id)) + ",\"rank\":\""@ + spec_escape(rank_or_g(text_view(summary.rank))) + "\",\"rating\":"@ + opt_i64_text(summary.rating) + ",\"races\":"@ + opt_i64_text(summary.races) + ",\"wins\":"@ + opt_i64_text(summary.wins) + ",\"obtained_at_unix_ms\":"@ + dec_digits(ts_ms as nat) + ",\"scenario_id\":"@ + opt_i64_text(summary.scenario_id) + ",\"rarity\":"@ + opt_i64_text(summary.rarity) + ",\"stats\":"@ + stats_text(summary.stats) + ",\"aptitudes\":"@ + aptitudes_text(summary.aptitudes);
    let m = ",\"stat_spark\":"@;
    lemma_concat_associative(la, m, spark_entry_text(sparks.stat));
    let m = m + spark_entry_text(sparks.stat);
    lemma_concat_associative(la, m, ",\"aptitude_spark\":"@);
    let m = m + ",\"aptitude_spark\":"@;
    lemma_concat_associative(la, m, spark_entry_text(sparks.aptitude));
    let m = m + spark_entry_text(sparks.aptitude);
    lemma_concat_associative(la, m, ",\"unique_spark_stars\":"@);
    let m = m + ",\"unique_spark_stars\":"@;
    lemma_concat_associative(la, m, unique_stars_text(sparks.unique));
    let m = m + unique_stars_text(sparks.unique);
    lemma_concat_associative(la, m, ",\"skill_sparks\":["@);
    let m = m + ",\"skill_sparks\":["@;
    let lb = la + m;
    let r = skill_sparks_text(sparks.skills);
    lemma_concat_associative(lb, r, "],\"skill_array\":["@);
    let r = r + "],\"skill_array\":["@;
    lemma_concat_associative(lb, r, skill_array_text(summary.skill_array@));
    let r = r + skill_array_text(summary.skill_array@);
    lemma_concat_associative(lb, r, "],\"support_cards\":["@);
    let r = r + "],\"support_cards\":["@;
    lemma_concat_associative(lb, r, support_cards_text(summary.support_cards@));
    let r = r + support_cards_text(summary.support_cards@);
    lemma_concat_associative(lb, r, "],\"race_results\":["@);
    let r = r + "],\"race_results\":["@;
    lemma_concat_associative(lb, r, race_results_text(summary.race_results@));
    let r = r + race_results_text(summary.race_results@);
    lemma_concat_associative(lb, r, "],\"win_saddle_ids\":["@);
    let r = r + "],\"win_saddle_ids\":["@;
    lemma_concat_associative(lb, r, i64_list_text(summary.win_saddle_ids@));
    let r = r + i64_list_text(summary.win_saddle_ids@);
    lemma_concat_associative(lb, r, "],\"parents\":["@);
    let r = r + "],\"parents\":["@;
    lemma_concat_associative(lb, r, parents_text(summary.parents@));
    let r = r + parents_text(summary.parents@);
    lemma_concat_associative(lb, r, "]"@);
    let r = r + "]"@;
    assert(m == ",\"stat_spark\":"@ + spark_entry_text(sparks.stat) + ",\"aptitude_spark\":"@ + spark_entry_text(sparks.aptitude) + ",\"unique_spark_stars\":"@ + unique_stars_field(sparks.unique) + ",\"skill_sparks\":["@);
    assert(document_body(token, message_id, kind, summary, sparks, ts_ms) == la + (",\"stat_spark\":"@ + spark_entry_text(sparks.stat) + ",\"aptitude_spark\":"@ + spark_entry_text(sparks.aptitude) + ",\"unique_spark_stars\":"@ + unique_stars_field(sparks.unique) + ",\"skill_sparks\":["@) + r);
}


/// What it takes for two breakdowns to be the same committed spark set: the
/// same stat spark and the same aptitude spark (name and stars each), a
/// unique spark in both or in neither and then with the same stars, and the
/// same white sparks (type, id, stars) in each.
pub proof fn lemma_sparks_match_means(a: BreakdownView, b: BreakdownView)
    ensures
        spec_sparks_match(a, b) <==> {
            &&& a.stat == b.stat
            &&& a.aptitude == b.aptitude
            &&& (a.unique is Some <==> b.unique is Some)
            &&& (a.unique is Some && b.unique is Some ==> a.unique.unwrap().1 == b.unique.unwrap().1)
            &&& forall|x: (Seq<char>, i64, i64)| a.skills.contains(x) <==> b.skills.contains(x)
        },
{
    if forall|x: (Seq<char>, i64, i64)| a.skills.contains(x) <==> b.skills.contains(x) {
        assert(a.skills.to_set() =~= b.skills.to_set());
    }
    if a.skills.to_set() == b.skills.to_set() {
        assert forall|x: (Seq<char>, i64, i64)| a.skills.contains(x) <==> b.skills.contains(x) by {
            assert(a.skills.to_set().contains(x) == b.skills.to_set().contains(x));
        }
    }
}

/// The five stats in the order of their digit in a stat spark's id.
pub open spec fn stat_spark_names() -> Seq<Seq<char>> {
    seq!["Speed"@, "Stamina"@, "Power"@, "Guts"@, "Wit"@]
}

/// The aptitude codes of aptitude sparks (`id / 100`) with their names.
pub open spec fn aptitude_spark_names() -> Seq<(int, Seq<char>)> {
    seq![
        (11, "Turf"@), (12, "Dirt"@), (21, "Front Runner"@), (22, "Pace Chaser"@), (23, "Late Surger"@),
        (24, "End Closer"@), (31, "Sprint"@), (32, "Mile"@), (33, "Medium"@), (34, "Long"@),
    ]
}

/// How a packed `factor_id` decodes, range by range: 100..599 is a stat
/// spark named by its hundreds digit (1 Speed .. 5 Wit); 1000..3999 an
/// aptitude spark named by `id / 100`, unknown for any other code; then race,
/// skill and scenario white sparks, and unique sparks from 10,000,000; every
/// spark but a unique one has its last digit as stars, a unique spark its
/// last two; ids outside these ranges are unknown.
pub proof fn lemma_factor_ids_decode(v: i64)
    ensures
        100 <= v < 600 ==> spec_categorize(v) == FactorView::Stat(stat_spark_names()[v / 100 - 1], (v % 10) as i64),
        1_000 <= v < 4_000 ==> forall|k: int| 0 <= k < 10 && #[trigger] aptitude_spark_names()[k].0 == v / 100
            ==> spec_categorize(v) == FactorView::Aptitude(aptitude_spark_names()[k].1, (v % 10) as i64),
        1_000 <= v < 4_000 && (forall|k: int| 0 <= k < 10 ==> #[trigger] aptitude_spark_names()[k].0 != v / 100)
            ==> spec_categorize(v) == FactorView::Unknown,
        1_000_000 <= v < 2_000_000 ==> spec_categorize(v) == FactorView::Skill(("race"@, ((v - 1_000_000) / 100) as i64, (v % 10) as i64)),
        2_000_000 <= v < 3_000_000 ==> spec_categorize(v) == FactorView::Skill(("skill"@, ((v / 100) * 10 + v % 100) as i64, (v % 10) as i64)),
        3_000_000 <= v < 4_000_000 ==> spec_categorize(v) == FactorView::Skill(("scenario"@, ((v - 3_000_000) / 100) as i64, (v % 10) as i64)),
        v >= 10_000_000 ==> spec_categorize(v) == FactorView::Unique((v % 100) as i64),
        v < 100 || (600 <= v < 1_000) || (4_000 <= v < 1_000_000) || (4_000_000 <= v < 10_000_000)
            ==> spec_categorize(v) == FactorView::Unknown,
{
    if 1_000 <= v < 4_000 {
        let d = v / 100;
        assert(aptitude_spark_names()[0].0 == 11 && aptitude_spark_names()[1].0 == 12);
        assert(aptitude_spark_names()[2].0 == 21 && aptitude_spark_names()[3].0 == 22);
        assert(aptitude_spark_names()[4].0 == 23 && aptitude_spark_names()[5].0 == 24);
        assert(aptitude_spark_names()[6].0 == 31 && aptitude_spark_names()[7].0 == 32);
        assert(aptitude_spark_names()[8].0 == 33 && aptitude_spark_names()[9].0 == 34);
    }
}

/// The labels of ranks 1 to 18, in order.
pub open spec fn base_rank_labels() -> Seq<Seq<char>> {
    seq![
        "G"@, "G+"@, "F"@, "F+"@, "E"@, "E+"@, "D"@, "D+"@, "C"@, "C+"@, "B"@, "B+"@, "A"@, "A+"@, "S"@,
        "S+"@, "SS"@, "SS+"@,
    ]
}

/// The letters of the U-rank tiers, in order.
pub open spec fn u_rank_letters() -> Seq<Seq<char>> {
    seq!["G"@, "F"@, "E"@, "D"@, "C"@, "B"@, "A"@, "S"@, "SS"@]
}

/// Rank labels: none below 1; ranks 1 to 18 are "G" up to "SS+"; from 19 on,
/// each run of ten ranks is one U tier: "U", the tier's letter, and the
/// rank's place in the tier as a digit when it is not the first; none past
/// the last tier (108).
pub proof fn lemma_rank_labels(rank: i64)
    ensures
        rank < 1 ==> spec_rank_label(rank) is None,
        1 <= rank <= 18 ==> spec_rank_label(rank) == Some(base_rank_labels()[rank - 1]),
        19 <= rank <= 108 ==> spec_rank_label(rank) == Some(seq!['U'] + u_rank_letters()[(rank - 19) / 10]
            + if (rank - 19) % 10 == 0 { Seq::<char>::empty() } else { seq![((rank - 19) % 10 + 48) as char] }),
        rank > 108 ==> spec_rank_label(rank) is None,
{
    if 19 <= rank <= 108 {
        let t = (rank - 19) / 10;
        assert(0 <= t <= 8);
    }
}

/// The card, scenario, rarity, stats and aptitudes of a finish summary are
/// read from the packet's `chara_info`, each from the key of its own name:
/// the stats only when all five are present (wit from `wiz`).
pub proof fn lemma_summary_reads_chara_info(fc: Seq<(MsgValue, MsgValue)>, ci: Seq<(MsgValue, MsgValue)>, r: FinishSummary)
    requires
        spec_summary_of(fc, r),
        spec_map_get(fc, "chara_info"@) == Some(ci),
    ensures
        r.card_id == spec_get_i64(ci, "card_id"@),
        r.scenario_id == spec_get_i64(ci, "scenario_id"@),
        r.rarity == spec_get_i64(ci, "rarity"@),
        r.stats == if spec_get_i64(ci, "speed"@) is Some && spec_get_i64(ci, "stamina"@) is Some
            && spec_get_i64(ci, "power"@) is Some && spec_get_i64(ci, "guts"@) is Some && spec_get_i64(ci, "wiz"@) is Some {
            Some(Stats {
                speed: spec_get_i64(ci, "speed"@).unwrap(),
                stamina: spec_get_i64(ci, "stamina"@).unwrap(),
                power: spec_get_i64(ci, "power"@).unwrap(),
                guts: spec_get_i64(ci, "guts"@).unwrap(),
                wit: spec_get_i64(ci, "wiz"@).unwrap(),
            })
        } else {
            None
        },
        r.aptitudes == Some(Aptitudes {
            short: spec_get_i64(ci, "proper_distance_short"@),
            mile: spec_get_i64(ci, "proper_distance_mile"@),
            middle: spec_get_i64(ci, "proper_distance_middle"@),
            long: spec_get_i64(ci, "proper_distance_long"@),
            front: spec_get_i64(ci, "proper_running_style_nige"@),
            pace: spec_get_i64(ci, "proper_running_style_senko"@),
            late: spec_get_i64(ci, "proper_running_style_sashi"@),
            end: spec_get_i64(ci, "proper_running_style_oikomi"@),
            turf: spec_get_i64(ci, "proper_ground_turf"@),
            dirt: spec_get_i64(ci, "proper_ground_dirt"@),
        }),
{
}


/// A run document closes with the skills, the support cards, the race
/// results, the saddles and the parents of the summary, in that order.
pub proof fn lemma_document_closes_with_its_lists(token: Seq<char>, message_id: Seq<char>, kind: Seq<char>, summary: FinishSummary, sparks: BreakdownView, ts_ms: u128)
    ensures
        exists|before: Seq<char>| #![trigger before + ("],\"skill_array\":["@ + skill_array_text(summary.skill_array@) + "],\"support_cards\":["@ + support_cards_text(summary.support_cards@) + "],\"race_results\":["@ + race_results_text(summary.race_results@) + "],\"win_saddle_ids\":["@ + i64_list_text(summary.win_saddle_ids@) + "],\"parents\":["@ + parents_text(summary.parents@) + "]"@)] document_body(token, message_id, kind, summary, sparks, ts_ms) == before + ("],\"skill_array\":["@ + skill_array_text(summary.skill_array@) + "],\"support_cards\":["@ + support_cards_text(summary.support_cards@) + "],\"race_results\":["@ + race_results_text(summary.race_results@) + "],\"win_saddle_ids\":["@ + i64_list_text(summary.win_saddle_ids@) + "],\"parents\":["@ + parents_text(summary.parents@) + "]"@),
{
    let la = "{\"token\":\""@ + token + "\",\"message_id\":\""@ + message_id + "\",\"kind\":\""@ + kind + "\",\"character_id\":"@ + i64_text(card_or_zero(summary.card_id)) + ",\"rank\":\""@ + spec_escape(rank_or_g(text_view(summary.rank))) + "\",\"rating\":"@ + opt_i64_text(summary.rating) + ",\"races\":"@ + opt_i64_text(summary.races) + ",\"wins\":"@ + opt_i64_text(summary.wins) + ",\"obtained_at_unix_ms\":"@ + dec_digits(ts_ms as nat) + ",\"scenario_id\":"@ + opt_i64_text(summary.scenario_id) + ",\"rarity\":"@ + opt_i64_text(summary.rarity) + ",\"stats\":"@ + stats_text(summary.stats) + ",\"aptitudes\":"@ + aptitudes_text(summary.aptitudes) + ",\"stat_spark\":"@ + spark_entry_text(sparks.stat) + ",\"aptitude_spark\":"@ + spark_entry_text(sparks.aptitude) + ",\"unique_spark_stars\":"@ + unique_stars_text(sparks.unique) + ",\"skill_sparks\":["@ + skill_sparks_text(sparks.skills);
    let m = "],\"skill_array\":["@;
    lemma_concat_associative(la, m, skill_array_text(summary.skill_array@));
    let m = m + skill_array_text(summary.skill_array@);
    lemma_concat_associative(la, m, "],\"support_cards\":["@);
    let m = m + "],\"support_cards\":["@;
    lemma_concat_associative(la, m, support_cards_text(summary.support_cards@));
    let m = m + support_cards_text(summary.support_cards@);
    lemma_concat_associative(la, m, "],\"race_results\":["@);
    let m = m + "],\"race_results\":["@;
    lemma_concat_associative(la, m, race_results_text(summary.race_results@));
    let m = m + race_results_text(summary.race_results@);
    lemma_concat_associative(la, m, "],\"win_saddle_ids\":["@);
    let m = m + "],\"win_saddle_ids\":["@;
    lemma_concat_associative(la, m, i64_list_text(summary.win_saddle_ids@));
    let m = m + i64_list_text(summary.win_saddle_ids@);
    lemma_concat_associative(la, m, "],\"parents\":["@);
    let m = m + "],\"parents\":["@;
    lemma_concat_associative(la, m, parents_text(summary.parents@));
    let m = m + parents_text(summary.parents@);
    lemma_concat_associative(la, m, "]"@);
    let m = m + "]"@;
    let lb = la + m;
    assert(m == "],\"skill_array\":["@ + skill_array_text(summary.skill_array@) + "],\"support_cards\":["@ + support_cards_text(summary.support_cards@) + "],\"race_results\":["@ + race_results_text(summary.race_results@) + "],\"win_saddle_ids\":["@ + i64_list_text(summary.win_saddle_ids@) + "],\"parents\":["@ + parents_text(summary.parents@) + "]"@);
    assert(document_body(token, message_id, kind, summary, sparks, ts_ms) == la + ("],\"skill_array\":["@ + skill_array_text(summary.skill_array@) + "],\"support_cards\":["@ + support_cards_text(summary.support_cards@) + "],\"race_results\":["@ + race_results_text(summary.race_results@) + "],\"win_saddle_ids\":["@ + i64_list_text(summary.win_saddle_ids@) + "],\"parents\":["@ + parents_text(summary.parents@) + "]"@));
}

/// A skill list in JSON: each skill as its id and level, comma-separated, in order.
pub proof fn lemma_skill_array_text_push(s: Seq<SkillEntry>, x: SkillEntry)
    ensures
        skill_array_text(Seq::<SkillEntry>::empty()) == Seq::<char>::empty(),
        skill_array_text(s.push(x)) == (if s.len() == 0 { Seq::<char>::empty() } else { skill_array_text(s) + seq![','] })
            + ("{\"skill_id\":"@ + i64_text(x.skill_id) + ",\"level\":"@ + number_field(x.level) + "}"@),
{
    let ps = s.push(x).map_values(|y: SkillEntry| "{\"skill_id\":"@ + i64_text(y.skill_id) + ",\"level\":"@ + opt_i64_text(y.level) + "}"@);
    assert(ps.drop_last() =~= s.map_values(|y: SkillEntry| "{\"skill_id\":"@ + i64_text(y.skill_id) + ",\"level\":"@ + opt_i64_text(y.level) + "}"@));
    assert(Seq::<SkillEntry>::empty().map_values(|y: SkillEntry| "{\"skill_id\":"@ + i64_text(y.skill_id) + ",\"level\":"@ + opt_i64_text(y.level) + "}"@) =~= Seq::<Seq<char>>::empty());
}

/// A support card list in JSON: each card with its position, id, experience and limit breaks, comma-separated, in order.
pub proof fn lemma_support_cards_text_push(s: Seq<SupportCard>, x: SupportCard)
    ensures
        support_cards_text(Seq::<SupportCard>::empty()) == Seq::<char>::empty(),
        support_cards_text(s.push(x)) == (if s.len() == 0 { Seq::<char>::empty() } else { support_cards_text(s) + seq![','] })
            + ("{\"position\":"@ + i64_text(x.position) + ",\"support_card_id\":"@ + i64_text(x.support_card_id) + ",\"exp\":"@ + number_field(x.exp) + ",\"limit_break_count\":"@ + number_field(x.limit_break_count) + "}"@),
{
    let ps = s.push(x).map_values(|y: SupportCard| "{\"position\":"@ + i64_text(y.position) + ",\"support_card_id\":"@ + i64_text(y.support_card_id) + ",\"exp\":"@ + opt_i64_text(y.exp) + ",\"limit_break_count\":"@ + opt_i64_text(y.limit_break_count) + "}"@);
    assert(ps.drop_last() =~= s.map_values(|y: SupportCard| "{\"position\":"@ + i64_text(y.position) + ",\"support_card_id\":"@ + i64_text(y.support_card_id) + ",\"exp\":"@ + opt_i64_text(y.exp) + ",\"limit_break_count\":"@ + opt_i64_text(y.limit_break_count) + "}"@));
    assert(Seq::<SupportCard>::empty().map_values(|y: SupportCard| "{\"position\":"@ + i64_text(y.position) + ",\"support_card_id\":"@ + i64_text(y.support_card_id) + ",\"exp\":"@ + opt_i64_text(y.exp) + ",\"limit_break_count\":"@ + opt_i64_text(y.limit_break_count) + "}"@) =~= Seq::<Seq<char>>::empty());
}

/// A race result list in JSON: each result with its turn, program and placing, comma-separated, in order.
pub proof fn lemma_race_results_text_push(s: Seq<RaceResult>, x: RaceResult)
    ensures
        race_results_text(Seq::<RaceResult>::empty()) == Seq::<char>::empty(),
        race_results_text(s.push(x)) == (if s.len() == 0 { Seq::<char>::empty() } else { race_results_text(s) + seq![','] })
            + ("{\"turn\":"@ + number_field(x.turn) + ",\"program_id\":"@ + i64_text(x.program_id) + ",\"result_rank\":"@ + number_field(x.result_rank) + "}"@),
{
    let ps = s.push(x).map_values(|y: RaceResult| "{\"turn\":"@ + opt_i64_text(y.turn) + ",\"program_id\":"@ + i64_text(y.program_id) + ",\"result_rank\":"@ + opt_i64_text(y.result_rank) + "}"@);
    assert(ps.drop_last() =~= s.map_values(|y: RaceResult| "{\"turn\":"@ + opt_i64_text(y.turn) + ",\"program_id\":"@ + i64_text(y.program_id) + ",\"result_rank\":"@ + opt_i64_text(y.result_rank) + "}"@));
    assert(Seq::<RaceResult>::empty().map_values(|y: RaceResult| "{\"turn\":"@ + opt_i64_text(y.turn) + ",\"program_id\":"@ + i64_text(y.program_id) + ",\"result_rank\":"@ + opt_i64_text(y.result_rank) + "}"@) =~= Seq::<Seq<char>>::empty());
}

/// A list of integers in JSON: the numbers, comma-separated, in order.
pub proof fn lemma_i64_list_text_push(s: Seq<i64>, x: i64)
    ensures
        i64_list_text(Seq::<i64>::empty()) == Seq::<char>::empty(),
        i64_list_text(s.push(x)) == (if s.len() == 0 { Seq::<char>::empty() } else { i64_list_text(s) + seq![','] })
            + (i64_text(x)),
{
    let ps = s.push(x).map_values(|y: i64| i64_text(y));
    assert(ps.drop_last() =~= s.map_values(|y: i64| i64_text(y)));
    assert(Seq::<i64>::empty().map_values(|y: i64| i64_text(y)) =~= Seq::<Seq<char>>::empty());
}

/// A white spark list in JSON: each spark as its own object, comma-separated, in order.
pub proof fn lemma_skill_sparks_text_push(s: Seq<(Seq<char>, i64, i64)>, x: (Seq<char>, i64, i64))
    ensures
        skill_sparks_text(Seq::<(Seq<char>, i64, i64)>::empty()) == Seq::<char>::empty(),
        skill_sparks_text(s.push(x)) == (if s.len() == 0 { Seq::<char>::empty() } else { skill_sparks_text(s) + seq![','] })
            + (skill_spark_text(x)),
{
    let ps = s.push(x).map_values(|y: (Seq<char>, i64, i64)| skill_spark_text(y));
    assert(ps.drop_last() =~= s.map_values(|y: (Seq<char>, i64, i64)| skill_spark_text(y)));
    assert(Seq::<(Seq<char>, i64, i64)>::empty().map_values(|y: (Seq<char>, i64, i64)| skill_spark_text(y)) =~= Seq::<Seq<char>>::empty());
}

/// A parent list in JSON: each parent as its own object, comma-separated, in order.
pub proof fn lemma_parents_text_push(s: Seq<Parent>, x: Parent)
    ensures
        parents_text(Seq::<Parent>::empty()) == Seq::<char>::empty(),
        parents_text(s.push(x)) == (if s.len() == 0 { Seq::<char>::empty() } else { parents_text(s) + seq![','] })
            + (parent_text(x@)),
{
    let ps = s.push(x).map_values(|y: Parent| parent_text(y@));
    assert(ps.drop_last() =~= s.map_values(|y: Parent| parent_text(y@)));
    assert(Seq::<Parent>::empty().map_values(|y: Parent| parent_text(y@)) =~= Seq::<Seq<char>>::empty());
}

/// A white spark in JSON: its type, id and stars.
pub proof fn lemma_skill_spark_text(e: (Seq<char>, i64, i64))
    ensures
        skill_spark_text(e) == "{\"spark_type\":\""@ + e.0 + "\",\"spark_id\":"@ + i64_text(e.1) + ",\"stars\":"@ + i64_text(e.2) + "}"@,
{
}

/// A parent in JSON: its position, card, rank label (quoted, or `null`),
/// its stat, aptitude and unique sparks, its white sparks and its saddles.
pub proof fn lemma_parent_text(p: ParentView)
    ensures
        parent_text(p) == "{\"position_id\":"@ + i64_text(p.position_id)
            + ",\"card_id\":"@ + number_field(p.card_id)
            + ",\"rank\":"@ + (match p.rank { Some(x) => "\""@ + spec_escape(x) + "\""@, None => "null"@ })
            + ",\"stat_spark\":"@ + spark_entry_text(p.sparks.stat)
            + ",\"aptitude_spark\":"@ + spark_entry_text(p.sparks.aptitude)
            + ",\"unique_spark_stars\":"@ + unique_stars_field(p.sparks.unique)
            + ",\"skill_sparks\":["@ + skill_sparks_text(p.sparks.skills)
            + "],\"win_saddle_ids\":["@ + i64_list_text(p.win_saddle_ids)
            + "]}"@,
{
}

/// A spark entry in JSON: its escaped name and its stars, or `null`.
pub proof fn lemma_spark_entry_text(e: Option<(Seq<char>, i64)>)
    ensures
        spark_entry_text(e) == match e {
            Some(x) => "{\"name\":\""@ + spec_escape(x.0) + "\",\"stars\":"@ + i64_text(x.1) + "}"@,
            None => "null"@,
        },
{
}


/// The `"kind"` value of each submission kind.
pub open spec fn kind_name(k: SubmissionKind) -> Seq<char> {
    match k {
        SubmissionKind::Finish => "finish"@,
        SubmissionKind::FactorSelect => "factor_select"@,
        SubmissionKind::FactorLottery => "factor_lottery"@,
    }
}

/// A career-finish run document is the document of the summary with its own
/// sparks, `plugin_` and the timestamp as message id and kind "finish",
/// closed with a brace.
pub proof fn lemma_run_document_shape(token: &str, summary: FinishSummary, ts_ms: u128)
    ensures
        run_payload_text(token, summary, ts_ms) == document_body(token@, "plugin_"@ + dec_digits(ts_ms as nat), "finish"@,
            summary, BreakdownView {
                stat: entry_view(summary.stat_spark),
                aptitude: entry_view(summary.aptitude_spark),
                unique: entry_view(summary.unique_spark),
                skills: skills_view(summary.skill_sparks@),
            }, ts_ms) + "}"@,
{
}

/// A variant document is the document of the summary with the variant's own
/// sparks and kind, `plugin_`, the timestamp, `_` and the escaped tag as
/// message id, then its lottery id, whether it is selected, and its tag.
pub proof fn lemma_variant_document_shape(token: &str, summary: FinishSummary, sparks: BreakdownView, kind: SubmissionKind, lottery_id: Option<i64>, is_selected: bool, tag: Seq<char>, ts_ms: u128)
    ensures
        variant_payload_text(token, summary, sparks, kind, lottery_id, is_selected, tag, ts_ms)
            == document_body(token@, "plugin_"@ + dec_digits(ts_ms as nat) + "_"@ + spec_escape(tag), kind_name(kind),
                summary, sparks, ts_ms)
            + (",\"lottery_id\":"@ + number_field(lottery_id) + ",\"is_selected\":"@
                + (if is_selected { "true"@ } else { "false"@ }) + ",\"variant_tag\":\""@ + spec_escape(tag) + "\""@)
            + "}"@,
{
}

/// The rating, rank label, race count, wins and saddles of a finish summary
/// are read from the target character: the rating from `rank_score`, the
/// label of `rank`, the number of entries of `race_result_list`, `wins` when
/// present (else a count of the won races), and `win_saddle_id_array`.
pub proof fn lemma_summary_reads_target(fc: Seq<(MsgValue, MsgValue)>, r: FinishSummary)
    requires
        spec_summary_of(fc, r),
    ensures
        r.rating == spec_get_i64(spec_target(fc), "rank_score"@),
        text_view(r.rank) == match spec_get_i64(spec_target(fc), "rank"@) {
            Some(k) => spec_rank_label(k),
            None => None,
        },
        r.races == Some(array_or_empty(spec_get_array(spec_target(fc), "race_result_list"@)).len() as i64),
        r.wins is Some,
        spec_get_i64(spec_target(fc), "wins"@) is Some ==> r.wins == spec_get_i64(spec_target(fc), "wins"@),
        r.win_saddle_ids@ == filter_map(array_or_empty(spec_get_array(spec_target(fc), "win_saddle_id_array"@)),
            |v: MsgValue| spec_val_i64(v)),
{
}


/// Escaping works character by character: the escape of joined text is the
/// joined escapes; a quote, a backslash and a newline each become a
/// backslash and a character (`"`, `\`, `n`), and every other character
/// stays as it is.
pub proof fn lemma_escape_by_character(s: Seq<char>, t: Seq<char>, c: char)
    ensures
        spec_escape(s + t) == spec_escape(s) + spec_escape(t),
        spec_escape(seq![c]) == if c == '"' {
            seq!['\\', '"']
        } else if c == '\\' {
            seq!['\\', '\\']
        } else if c == '\n' {
            seq!['\\', 'n']
        } else {
            seq![c]
        },
    decreases t.len(),
{
    assert(seq![c].drop_last() =~= Seq::<char>::empty());
    assert(seq![c].last() == c);
    assert(spec_escape(Seq::<char>::empty()) == Seq::<char>::empty());
    assert(spec_escape(seq![c]) == spec_escape(seq![c].drop_last()) + escape_char(seq![c].last()));
    assert(Seq::<char>::empty() + escape_char(c) =~= escape_char(c));
    if t.len() == 0 {
        assert(s + t =~= s);
        assert(spec_escape(s) + Seq::<char>::empty() =~= spec_escape(s));
    } else {
        lemma_escape_by_character(s, t.drop_last(), c);
        assert((s + t).drop_last() =~= s + t.drop_last());
        assert((s + t).last() == t.last());
        assert(spec_escape(s) + spec_escape(t.drop_last()) + escape_char(t.last())
            =~= spec_escape(s) + (spec_escape(t.drop_last()) + escape_char(t.last())));
    }
}

/// A single `factor_id` decodes to a breakdown holding just its spark: a
/// stat, aptitude or unique spark in its own place (a unique spark named
/// "Character Factor"), a white spark as the only white spark, and nothing
/// for an unknown id.
pub proof fn lemma_breakdown_of_one(v: i64)
    ensures
        ({
            let b = spec_breakdown(seq![v]);
            match spec_categorize(v) {
                FactorView::Stat(n, s) => b == BreakdownView { stat: Some((n, s)), aptitude: None, unique: None, skills: Seq::empty() },
                FactorView::Aptitude(n, s) => b == BreakdownView { stat: None, aptitude: Some((n, s)), unique: None, skills: Seq::empty() },
                FactorView::Unique(s) => b == BreakdownView { stat: None, aptitude: None, unique: Some(("Character Factor"@, s)), skills: Seq::empty() },
                FactorView::Skill(e) => b == BreakdownView { stat: None, aptitude: None, unique: None, skills: seq![e] },
                FactorView::Unknown => b == BreakdownView { stat: None, aptitude: None, unique: None, skills: Seq::empty() },
            }
        }),
{
    assert(seq![v].drop_last() =~= Seq::<i64>::empty());
    assert(seq![v].last() == v);
    assert(spec_breakdown(Seq::<i64>::empty()) == empty_breakdown());
    assert(spec_breakdown(seq![v]) == breakdown_step(spec_breakdown(seq![v].drop_last()), spec_categorize(seq![v].last())));
    if let FactorView::Skill(e) = spec_categorize(v) {
        assert(Seq::<(Seq<char>, i64, i64)>::empty().push(e) =~= seq![e]);
    }
}


/// Whether a map key is the text `key`.
pub open spec fn key_matches(k: MsgValue, key: Seq<char>) -> bool {
    k matches MsgValue::Str(Some(t)) && t@ == key
}

/// A key lookup finds the value of the first entry whose key is the text
/// looked for, and nothing when no key is.
pub proof fn lemma_lookup_finds_first_key(entries: Seq<(MsgValue, MsgValue)>, key: Seq<char>, k: int)
    ensures
        0 <= k < entries.len() && key_matches(entries[k].0, key)
            && (forall|j: int| 0 <= j < k ==> !key_matches(#[trigger] entries[j].0, key))
            ==> lookup(entries, key) == Some(entries[k].1),
        (forall|j: int| 0 <= j < entries.len() ==> !key_matches(#[trigger] entries[j].0, key))
            ==> lookup(entries, key) is None,
    decreases entries.len(),
{
    if entries.len() > 0 {
        let rest = entries.drop_first();
        lemma_lookup_finds_first_key(rest, key, k - 1);
        assert forall|j: int| 0 <= j < rest.len() implies rest[j] == entries[j + 1] by {}
        if 0 < k < entries.len() && (forall|j: int| 0 <= j < k ==> !key_matches(#[trigger] entries[j].0, key)) {
            assert(!key_matches(entries[0].0, key));
            assert forall|j: int| 0 <= j < k - 1 implies !key_matches(#[trigger] rest[j].0, key) by {
                assert(!key_matches(entries[j + 1].0, key));
            }
        }
        if forall|j: int| 0 <= j < entries.len() ==> !key_matches(#[trigger] entries[j].0, key) {
            assert(!key_matches(entries[0].0, key));
            assert forall|j: int| 0 <= j < rest.len() implies !key_matches(#[trigger] rest[j].0, key) by {
                assert(!key_matches(entries[j + 1].0, key));
            }
        }
    }
}

/// The tags of a finish's submissions: each candidate's decimal lottery id,
/// or `i` and its index when it has none; the committed row's tag is
/// "committed".
pub proof fn lemma_variant_plan_tags(cands: Seq<(Option<i64>, BreakdownView)>, committed: BreakdownView, kind: SubmissionKind, with_committed: bool)
    ensures
        forall|i: int| 0 <= i < cands.len() ==> (#[trigger] variant_plan(cands, committed, kind, with_committed)[i]).2
            == match cands[i].0 {
                Some(id) => i64_text(id),
                None => seq!['i'] + dec_digits(i as nat),
            },
        variant_plan(cands, committed, kind, with_committed).len() > cands.len()
            ==> variant_plan(cands, committed, kind, with_committed)[cands.len() as int].2 == "committed"@
                && variant_plan(cands, committed, kind, with_committed)[cands.len() as int].4 == SubmissionKind::Finish
                && variant_plan(cands, committed, kind, with_committed)[cands.len() as int].3 == committed,
{
}

} // verus!
