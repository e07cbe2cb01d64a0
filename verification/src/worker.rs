//! The JSON documents sent to the worker API: a career-finish run, the
//! variants of a finish that followed rerolls, and the pieces they are made of.

use vstd::prelude::*;
use vstd::seq_lib::lemma_concat_associative;
use crate::text::{dec_digits, i64_text, push_char, push_i64, push_str, push_u128};
use crate::extract::{Aptitudes, BreakdownView, FinishSummary, SparkBreakdown, summary_sparks_view, RaceResult, SkillEntry, Stats, SupportCard, Parent, ParentView, SparkEntry, SkillSparkEntry, entry_view, parents_view, skills_view, text_view};

verus! {

/// How one character is written inside a JSON string: a quote, a backslash
/// and a newline are escaped with a backslash; anything else stays.
pub open spec fn escape_char(c: char) -> Seq<char> {
    if c == '"' {
        seq!['\\', '"']
    } else if c == '\\' {
        seq!['\\', '\\']
    } else if c == '\n' {
        seq!['\\', 'n']
    } else {
        seq![c]
    }
}

/// `s` with each character escaped.
pub open spec fn spec_escape(s: Seq<char>) -> Seq<char>
    decreases s.len(),
{
    if s.len() == 0 {
        Seq::empty()
    } else {
        spec_escape(s.drop_last()) + escape_char(s.last())
    }
}

/// Escapes quotes, backslashes and newlines for use inside a JSON string.
pub fn escape_json(s: &str) -> (r: String)
    ensures
        r@ == spec_escape(s@),
{
    let n = s.unicode_len();
    let mut out = String::new();
    let mut i: usize = 0;
    assert(s@.take(0) =~= Seq::<char>::empty());
    while i < n
        invariant
            0 <= i <= n,
            n == s@.len(),
            out@ == spec_escape(s@.take(i as int)),
        decreases n - i,
    {
        let c = s.get_char(i);
        let ghost before = out@;
        if c == '"' {
            push_char(&mut out, '\\');
            push_char(&mut out, '"');
        } else if c == '\\' {
            push_char(&mut out, '\\');
            push_char(&mut out, '\\');
        } else if c == '\n' {
            push_char(&mut out, '\\');
            push_char(&mut out, 'n');
        } else {
            push_char(&mut out, c);
        }
        assert(s@.take(i + 1).drop_last() =~= s@.take(i as int));
        assert(s@.take(i + 1).last() == c);
        assert(out@ =~= before + escape_char(c));
        i = i + 1;
    }
    assert(s@.take(n as int) =~= s@);
    out
}

/// An optional integer as JSON: its digits, or `null`.
pub open spec fn opt_i64_text(v: Option<i64>) -> Seq<char> {
    match v {
        Some(n) => i64_text(n),
        None => "null"@,
    }
}

/// Appends an optional integer as JSON.
pub fn push_opt_i64(s: &mut String, v: Option<i64>)
    ensures
        final(s)@ == old(s)@ + opt_i64_text(v),
{
    match v {
        Some(n) => push_i64(s, n),
        None => push_str(s, "null"),
    }
}

/// An optional integer as JSON: its digits, or `null`.
pub fn opt_i64_json(v: Option<i64>) -> (r: String)
    ensures
        r@ == opt_i64_text(v),
{
    let mut s = String::new();
    push_opt_i64(&mut s, v);
    assert(s@ =~= opt_i64_text(v));
    s
}

/// A spark entry as JSON: `{"name":"…","stars":…}`, or `null`.
pub open spec fn spark_entry_text(e: Option<(Seq<char>, i64)>) -> Seq<char> {
    match e {
        Some((name, stars)) => "{\"name\":\""@ + spec_escape(name) + "\",\"stars\":"@ + i64_text(stars) + "}"@,
        None => "null"@,
    }
}

/// Appends a spark entry as JSON.
pub fn push_spark_entry(s: &mut String, entry: Option<&SparkEntry>)
    ensures
        final(s)@ == old(s)@ + spark_entry_text(match entry { Some(e) => Some(e@), None => None }),
{
    match entry {
        Some(e) => {
            push_str(s, "{\"name\":\"");
            let esc = escape_json(e.name.as_str());
            push_str(s, esc.as_str());
            push_str(s, "\",\"stars\":");
            push_i64(s, e.stars);
            push_str(s, "}");
            assert(final(s)@ =~= old(s)@ + spark_entry_text(Some(e@)));
        },
        None => push_str(s, "null"),
    }
}

/// A spark entry as JSON: `{"name":"…","stars":…}`, or `null`.
pub fn spark_entry_json(entry: Option<&SparkEntry>) -> (r: String)
    ensures
        r@ == spark_entry_text(match entry { Some(e) => Some(e@), None => None }),
{
    let mut s = String::new();
    push_spark_entry(&mut s, entry);
    assert(s@ =~= spark_entry_text(match entry { Some(e) => Some(e@), None => None }));
    s
}


/// Comma-separated concatenation of `parts`.
pub open spec fn join(parts: Seq<Seq<char>>) -> Seq<char>
    decreases parts.len(),
{
    if parts.len() == 0 {
        Seq::empty()
    } else if parts.len() == 1 {
        parts[0]
    } else {
        join(parts.drop_last()) + seq![','] + parts.last()
    }
}

pub proof fn lemma_join_take(parts: Seq<Seq<char>>, i: int)
    requires
        0 <= i < parts.len(),
    ensures
        join(parts.take(i + 1)) == if i == 0 { parts[0] } else { join(parts.take(i)) + seq![','] + parts[i] },
{
    assert(parts.take(i + 1).drop_last() =~= parts.take(i));
    assert(parts.take(i + 1).last() == parts[i]);
    if i == 0 {
        assert(parts.take(1).len() == 1);
    }
}

/// A white spark as JSON.
pub open spec fn skill_spark_text(e: (Seq<char>, i64, i64)) -> Seq<char> {
    "{\"spark_type\":\""@ + e.0 + "\",\"spark_id\":"@ + i64_text(e.1) + ",\"stars\":"@ + i64_text(e.2) + "}"@
}

pub open spec fn skill_sparks_text(s: Seq<(Seq<char>, i64, i64)>) -> Seq<char> {
    join(s.map_values(|e: (Seq<char>, i64, i64)| skill_spark_text(e)))
}

/// Appends the white sparks as comma-separated JSON objects.
pub fn push_skill_sparks(s: &mut String, items: &[SkillSparkEntry])
    ensures
        final(s)@ == old(s)@ + skills_text_of(items@),
{
    let ghost parts = skills_view(items@).map_values(|e: (Seq<char>, i64, i64)| skill_spark_text(e));
    let n = items.len();
    let mut i: usize = 0;
    assert(parts.take(0) =~= Seq::<Seq<char>>::empty());
    assert(s@ =~= old(s)@ + join(parts.take(0)));
    while i < n
        invariant
            0 <= i <= n,
            n == items@.len(),
            parts == skills_view(items@).map_values(|e: (Seq<char>, i64, i64)| skill_spark_text(e)),
            s@ == old(s)@ + join(parts.take(i as int)),
        decreases n - i,
    {
        proof { lemma_join_take(parts, i as int); }
        let ghost before = s@;
        let e = items[i];
        if i > 0 {
            push_char(s, ',');
        }
        push_str(s, "{\"spark_type\":\"");
        push_str(s, e.spark_type);
        push_str(s, "\",\"spark_id\":");
        push_i64(s, e.spark_id);
        push_str(s, ",\"stars\":");
        push_i64(s, e.stars);
        push_str(s, "}");
        assert(parts[i as int] == skill_spark_text(e@));
        if i > 0 {
            assert(s@ =~= before + seq![','] + parts[i as int]);
        } else {
            assert(s@ =~= before + parts[i as int]);
        }
        i = i + 1;
    }
    assert(parts.take(n as int) =~= parts);
}

pub open spec fn skills_text_of(items: Seq<SkillSparkEntry>) -> Seq<char> {
    skill_sparks_text(skills_view(items))
}

/// Integers as comma-separated JSON.
pub open spec fn i64_list_text(v: Seq<i64>) -> Seq<char> {
    join(v.map_values(|n: i64| i64_text(n)))
}

/// Appends integers as comma-separated JSON.
pub fn push_i64_list(s: &mut String, items: &[i64])
    ensures
        final(s)@ == old(s)@ + i64_list_text(items@),
{
    let ghost parts = items@.map_values(|n: i64| i64_text(n));
    let n = items.len();
    let mut i: usize = 0;
    assert(parts.take(0) =~= Seq::<Seq<char>>::empty());
    assert(s@ =~= old(s)@ + join(parts.take(0)));
    while i < n
        invariant
            0 <= i <= n,
            n == items@.len(),
            parts == items@.map_values(|n: i64| i64_text(n)),
            s@ == old(s)@ + join(parts.take(i as int)),
        decreases n - i,
    {
        proof { lemma_join_take(parts, i as int); }
        let ghost before = s@;
        if i > 0 {
            push_char(s, ',');
        }
        push_i64(s, items[i]);
        if i > 0 {
            assert(s@ =~= before + seq![','] + parts[i as int]);
        } else {
            assert(s@ =~= before + parts[i as int]);
        }
        i = i + 1;
    }
    assert(parts.take(n as int) =~= parts);
}

/// An optional rank label as JSON: a quoted, escaped string, or `null`.
pub open spec fn rank_text(r: Option<Seq<char>>) -> Seq<char> {
    match r {
        Some(x) => "\""@ + spec_escape(x) + "\""@,
        None => "null"@,
    }
}

/// The star count of an optional unique spark as JSON.
pub open spec fn unique_stars_text(e: Option<(Seq<char>, i64)>) -> Seq<char> {
    match e {
        Some((_, stars)) => i64_text(stars),
        None => "null"@,
    }
}

/// A parent as JSON.
pub open spec fn parent_text(p: ParentView) -> Seq<char> {
    "{\"position_id\":"@ + i64_text(p.position_id)
        + ",\"card_id\":"@ + opt_i64_text(p.card_id)
        + ",\"rank\":"@ + rank_text(p.rank)
        + ",\"stat_spark\":"@ + spark_entry_text(p.sparks.stat)
        + ",\"aptitude_spark\":"@ + spark_entry_text(p.sparks.aptitude)
        + ",\"unique_spark_stars\":"@ + unique_stars_text(p.sparks.unique)
        + ",\"skill_sparks\":["@ + skill_sparks_text(p.sparks.skills)
        + "],\"win_saddle_ids\":["@ + i64_list_text(p.win_saddle_ids)
        + "]}"@
}

fn push_rank(s: &mut String, r: &Option<String>)
    ensures
        final(s)@ == old(s)@ + rank_text(text_view(*r)),
{
    match r {
        Some(x) => {
            push_str(s, "\"");
            let esc = escape_json(x.as_str());
            push_str(s, esc.as_str());
            push_str(s, "\"");
            assert(final(s)@ =~= old(s)@ + rank_text(text_view(*r)));
        },
        None => push_str(s, "null"),
    }
}

fn push_unique_stars(s: &mut String, e: &Option<SparkEntry>)
    ensures
        final(s)@ == old(s)@ + unique_stars_text(entry_view(*e)),
{
    match e {
        Some(u) => push_i64(s, u.stars),
        None => push_str(s, "null"),
    }
}

fn push_parent(s: &mut String, p: &Parent)
    ensures
        final(s)@ == old(s)@ + parent_text(p@),
{
    let ghost s0 = s@;
    push_str(s, "{\"position_id\":");
    let ghost mut acc = "{\"position_id\":"@;
    assert(s@ == s0 + acc);
    let ghost before = s@;
    push_i64(s, p.position_id);
    proof { lemma_concat_associative(s0, acc, i64_text(p.position_id)); acc = acc + i64_text(p.position_id); }
    let ghost before = s@;
    push_str(s, ",\"card_id\":");
    proof { lemma_concat_associative(s0, acc, ",\"card_id\":"@); acc = acc + ",\"card_id\":"@; }
    let ghost before = s@;
    push_opt_i64(s, p.card_id);
    proof { lemma_concat_associative(s0, acc, opt_i64_text(p.card_id)); acc = acc + opt_i64_text(p.card_id); }
    let ghost before = s@;
    push_str(s, ",\"rank\":");
    proof { lemma_concat_associative(s0, acc, ",\"rank\":"@); acc = acc + ",\"rank\":"@; }
    let ghost before = s@;
    push_rank(s, &p.rank);
    proof { lemma_concat_associative(s0, acc, rank_text(text_view(p.rank))); acc = acc + rank_text(text_view(p.rank)); }
    let ghost before = s@;
    push_str(s, ",\"stat_spark\":");
    proof { lemma_concat_associative(s0, acc, ",\"stat_spark\":"@); acc = acc + ",\"stat_spark\":"@; }
    let ghost before = s@;
    push_spark_entry(s, p.stat_spark.as_ref());
    proof { lemma_concat_associative(s0, acc, spark_entry_text(entry_view(p.stat_spark))); acc = acc + spark_entry_text(entry_view(p.stat_spark)); }
    let ghost before = s@;
    push_str(s, ",\"aptitude_spark\":");
    proof { lemma_concat_associative(s0, acc, ",\"aptitude_spark\":"@); acc = acc + ",\"aptitude_spark\":"@; }
    let ghost before = s@;
    push_spark_entry(s, p.aptitude_spark.as_ref());
    proof { lemma_concat_associative(s0, acc, spark_entry_text(entry_view(p.aptitude_spark))); acc = acc + spark_entry_text(entry_view(p.aptitude_spark)); }
    let ghost before = s@;
    push_str(s, ",\"unique_spark_stars\":");
    proof { lemma_concat_associative(s0, acc, ",\"unique_spark_stars\":"@); acc = acc + ",\"unique_spark_stars\":"@; }
    let ghost before = s@;
    push_unique_stars(s, &p.unique_spark);
    proof { lemma_concat_associative(s0, acc, unique_stars_text(entry_view(p.unique_spark))); acc = acc + unique_stars_text(entry_view(p.unique_spark)); }
    let ghost before = s@;
    push_str(s, ",\"skill_sparks\":[");
    proof { lemma_concat_associative(s0, acc, ",\"skill_sparks\":["@); acc = acc + ",\"skill_sparks\":["@; }
    let ghost before = s@;
    push_skill_sparks(s, p.skill_sparks.as_slice());
    proof { lemma_concat_associative(s0, acc, skills_text_of(p.skill_sparks@)); acc = acc + skills_text_of(p.skill_sparks@); }
    let ghost before = s@;
    push_str(s, "],\"win_saddle_ids\":[");
    proof { lemma_concat_associative(s0, acc, "],\"win_saddle_ids\":["@); acc = acc + "],\"win_saddle_ids\":["@; }
    let ghost before = s@;
    push_i64_list(s, p.win_saddle_ids.as_slice());
    proof { lemma_concat_associative(s0, acc, i64_list_text(p.win_saddle_ids@)); acc = acc + i64_list_text(p.win_saddle_ids@); }
    let ghost before = s@;
    push_str(s, "]}");
    proof { lemma_concat_associative(s0, acc, "]}"@); acc = acc + "]}"@; }
    assert(acc == parent_text(p@));
}

/// A parent as JSON.
pub fn parent_json(p: &Parent) -> (r: String)
    ensures
        r@ == parent_text(p@),
{
    let mut s = String::new();
    push_parent(&mut s, p);
    assert(s@ =~= parent_text(p@));
    s
}


pub open spec fn skill_array_text(items: Seq<SkillEntry>) -> Seq<char> {
    join(items.map_values(|x: SkillEntry| "{\"skill_id\":"@ + i64_text(x.skill_id) + ",\"level\":"@ + opt_i64_text(x.level) + "}"@))
}

fn push_skill_array(s: &mut String, items: &[SkillEntry])
    ensures
        final(s)@ == old(s)@ + skill_array_text(items@),
{
    let ghost parts = items@.map_values(|x: SkillEntry| "{\"skill_id\":"@ + i64_text(x.skill_id) + ",\"level\":"@ + opt_i64_text(x.level) + "}"@);
    let n = items.len();
    let mut i: usize = 0;
    assert(parts.take(0) =~= Seq::<Seq<char>>::empty());
    assert(s@ =~= old(s)@ + join(parts.take(0)));
    while i < n
        invariant
            0 <= i <= n,
            n == items@.len(),
            parts == items@.map_values(|x: SkillEntry| "{\"skill_id\":"@ + i64_text(x.skill_id) + ",\"level\":"@ + opt_i64_text(x.level) + "}"@),
            s@ == old(s)@ + join(parts.take(i as int)),
        decreases n - i,
    {
        proof { lemma_join_take(parts, i as int); }
        let ghost before = s@;
        let e = &items[i];
        if i > 0 {
            push_char(s, ',');
        }
        let ghost mid = s@;
        let ghost s0 = s@;
        push_str(s, "{\"skill_id\":");
        let ghost mut acc = "{\"skill_id\":"@;
        push_i64(s, e.skill_id);
        proof { lemma_concat_associative(s0, acc, i64_text(e.skill_id)); acc = acc + i64_text(e.skill_id); }
        push_str(s, ",\"level\":");
        proof { lemma_concat_associative(s0, acc, ",\"level\":"@); acc = acc + ",\"level\":"@; }
        push_opt_i64(s, e.level);
        proof { lemma_concat_associative(s0, acc, opt_i64_text(e.level)); acc = acc + opt_i64_text(e.level); }
        push_str(s, "}");
        proof { lemma_concat_associative(s0, acc, "}"@); acc = acc + "}"@; }
        assert(s@ == mid + acc);
        assert(acc == parts[i as int]);
        if i > 0 {
            assert(s@ =~= before + seq![','] + parts[i as int]);
        } else {
            assert(s@ =~= before + parts[i as int]);
        }
        i = i + 1;
    }
    assert(parts.take(n as int) =~= parts);
}

pub open spec fn support_cards_text(items: Seq<SupportCard>) -> Seq<char> {
    join(items.map_values(|x: SupportCard| "{\"position\":"@ + i64_text(x.position) + ",\"support_card_id\":"@ + i64_text(x.support_card_id) + ",\"exp\":"@ + opt_i64_text(x.exp) + ",\"limit_break_count\":"@ + opt_i64_text(x.limit_break_count) + "}"@))
}

fn push_support_cards(s: &mut String, items: &[SupportCard])
    ensures
        final(s)@ == old(s)@ + support_cards_text(items@),
{
    let ghost parts = items@.map_values(|x: SupportCard| "{\"position\":"@ + i64_text(x.position) + ",\"support_card_id\":"@ + i64_text(x.support_card_id) + ",\"exp\":"@ + opt_i64_text(x.exp) + ",\"limit_break_count\":"@ + opt_i64_text(x.limit_break_count) + "}"@);
    let n = items.len();
    let mut i: usize = 0;
    assert(parts.take(0) =~= Seq::<Seq<char>>::empty());
    assert(s@ =~= old(s)@ + join(parts.take(0)));
    while i < n
        invariant
            0 <= i <= n,
            n == items@.len(),
            parts == items@.map_values(|x: SupportCard| "{\"position\":"@ + i64_text(x.position) + ",\"support_card_id\":"@ + i64_text(x.support_card_id) + ",\"exp\":"@ + opt_i64_text(x.exp) + ",\"limit_break_count\":"@ + opt_i64_text(x.limit_break_count) + "}"@),
            s@ == old(s)@ + join(parts.take(i as int)),
        decreases n - i,
    {
        proof { lemma_join_take(parts, i as int); }
        let ghost before = s@;
        let e = &items[i];
        if i > 0 {
            push_char(s, ',');
        }
        let ghost mid = s@;
        let ghost s0 = s@;
        push_str(s, "{\"position\":");
        let ghost mut acc = "{\"position\":"@;
        push_i64(s, e.position);
        proof { lemma_concat_associative(s0, acc, i64_text(e.position)); acc = acc + i64_text(e.position); }
        push_str(s, ",\"support_card_id\":");
        proof { lemma_concat_associative(s0, acc, ",\"support_card_id\":"@); acc = acc + ",\"support_card_id\":"@; }
        push_i64(s, e.support_card_id);
        proof { lemma_concat_associative(s0, acc, i64_text(e.support_card_id)); acc = acc + i64_text(e.support_card_id); }
        push_str(s, ",\"exp\":");
        proof { lemma_concat_associative(s0, acc, ",\"exp\":"@); acc = acc + ",\"exp\":"@; }
        push_opt_i64(s, e.exp);
        proof { lemma_concat_associative(s0, acc, opt_i64_text(e.exp)); acc = acc + opt_i64_text(e.exp); }
        push_str(s, ",\"limit_break_count\":");
        proof { lemma_concat_associative(s0, acc, ",\"limit_break_count\":"@); acc = acc + ",\"limit_break_count\":"@; }
        push_opt_i64(s, e.limit_break_count);
        proof { lemma_concat_associative(s0, acc, opt_i64_text(e.limit_break_count)); acc = acc + opt_i64_text(e.limit_break_count); }
        push_str(s, "}");
        proof { lemma_concat_associative(s0, acc, "}"@); acc = acc + "}"@; }
        assert(s@ == mid + acc);
        assert(acc == parts[i as int]);
        if i > 0 {
            assert(s@ =~= before + seq![','] + parts[i as int]);
        } else {
            assert(s@ =~= before + parts[i as int]);
        }
        i = i + 1;
    }
    assert(parts.take(n as int) =~= parts);
}

pub open spec fn race_results_text(items: Seq<RaceResult>) -> Seq<char> {
    join(items.map_values(|x: RaceResult| "{\"turn\":"@ + opt_i64_text(x.turn) + ",\"program_id\":"@ + i64_text(x.program_id) + ",\"result_rank\":"@ + opt_i64_text(x.result_rank) + "}"@))
}

fn push_race_results(s: &mut String, items: &[RaceResult])
    ensures
        final(s)@ == old(s)@ + race_results_text(items@),
{
    let ghost parts = items@.map_values(|x: RaceResult| "{\"turn\":"@ + opt_i64_text(x.turn) + ",\"program_id\":"@ + i64_text(x.program_id) + ",\"result_rank\":"@ + opt_i64_text(x.result_rank) + "}"@);
    let n = items.len();
    let mut i: usize = 0;
    assert(parts.take(0) =~= Seq::<Seq<char>>::empty());
    assert(s@ =~= old(s)@ + join(parts.take(0)));
    while i < n
        invariant
            0 <= i <= n,
            n == items@.len(),
            parts == items@.map_values(|x: RaceResult| "{\"turn\":"@ + opt_i64_text(x.turn) + ",\"program_id\":"@ + i64_text(x.program_id) + ",\"result_rank\":"@ + opt_i64_text(x.result_rank) + "}"@),
            s@ == old(s)@ + join(parts.take(i as int)),
        decreases n - i,
    {
        proof { lemma_join_take(parts, i as int); }
        let ghost before = s@;
        let e = &items[i];
        if i > 0 {
            push_char(s, ',');
        }
        let ghost mid = s@;
        let ghost s0 = s@;
        push_str(s, "{\"turn\":");
        let ghost mut acc = "{\"turn\":"@;
        push_opt_i64(s, e.turn);
        proof { lemma_concat_associative(s0, acc, opt_i64_text(e.turn)); acc = acc + opt_i64_text(e.turn); }
        push_str(s, ",\"program_id\":");
        proof { lemma_concat_associative(s0, acc, ",\"program_id\":"@); acc = acc + ",\"program_id\":"@; }
        push_i64(s, e.program_id);
        proof { lemma_concat_associative(s0, acc, i64_text(e.program_id)); acc = acc + i64_text(e.program_id); }
        push_str(s, ",\"result_rank\":");
        proof { lemma_concat_associative(s0, acc, ",\"result_rank\":"@); acc = acc + ",\"result_rank\":"@; }
        push_opt_i64(s, e.result_rank);
        proof { lemma_concat_associative(s0, acc, opt_i64_text(e.result_rank)); acc = acc + opt_i64_text(e.result_rank); }
        push_str(s, "}");
        proof { lemma_concat_associative(s0, acc, "}"@); acc = acc + "}"@; }
        assert(s@ == mid + acc);
        assert(acc == parts[i as int]);
        if i > 0 {
            assert(s@ =~= before + seq![','] + parts[i as int]);
        } else {
            assert(s@ =~= before + parts[i as int]);
        }
        i = i + 1;
    }
    assert(parts.take(n as int) =~= parts);
}

pub open spec fn parents_text(items: Seq<Parent>) -> Seq<char> {
    join(items.map_values(|x: Parent| parent_text(x@)))
}

fn push_parents(s: &mut String, items: &[Parent])
    ensures
        final(s)@ == old(s)@ + parents_text(items@),
{
    let ghost parts = items@.map_values(|x: Parent| parent_text(x@));
    let n = items.len();
    let mut i: usize = 0;
    assert(parts.take(0) =~= Seq::<Seq<char>>::empty());
    assert(s@ =~= old(s)@ + join(parts.take(0)));
    while i < n
        invariant
            0 <= i <= n,
            n == items@.len(),
            parts == items@.map_values(|x: Parent| parent_text(x@)),
            s@ == old(s)@ + join(parts.take(i as int)),
        decreases n - i,
    {
        proof { lemma_join_take(parts, i as int); }
        let ghost before = s@;
        let e = &items[i];
        if i > 0 {
            push_char(s, ',');
        }
        let ghost mid = s@;
        let ghost s0 = s@;
        push_parent(s, e);
        let ghost mut acc = parent_text(e@);
        assert(s@ == mid + acc);
        assert(acc == parts[i as int]);
        if i > 0 {
            assert(s@ =~= before + seq![','] + parts[i as int]);
        } else {
            assert(s@ =~= before + parts[i as int]);
        }
        i = i + 1;
    }
    assert(parts.take(n as int) =~= parts);
}

/// The five stats as JSON; all zero when absent.
pub open spec fn stats_text(o: Option<Stats>) -> Seq<char> {
    match o {
        Some(x) => "{\"spd\":"@
        + i64_text(x.speed)
        + ",\"sta\":"@
        + i64_text(x.stamina)
        + ",\"pow\":"@
        + i64_text(x.power)
        + ",\"gut\":"@
        + i64_text(x.guts)
        + ",\"wit\":"@
        + i64_text(x.wit)
        + "}"@,
        None => "{\"spd\":0,\"sta\":0,\"pow\":0,\"gut\":0,\"wit\":0}"@,
    }
}

fn push_stats(s: &mut String, o: &Option<Stats>)
    ensures
        final(s)@ == old(s)@ + stats_text(*o),
{
    match o {
        Some(st) => {
            let ghost s0 = s@;
            push_str(s, "{\"spd\":");
            let ghost mut acc = "{\"spd\":"@;
            push_i64(s, st.speed);
            proof { lemma_concat_associative(s0, acc, i64_text(st.speed)); acc = acc + i64_text(st.speed); }
            push_str(s, ",\"sta\":");
            proof { lemma_concat_associative(s0, acc, ",\"sta\":"@); acc = acc + ",\"sta\":"@; }
            push_i64(s, st.stamina);
            proof { lemma_concat_associative(s0, acc, i64_text(st.stamina)); acc = acc + i64_text(st.stamina); }
            push_str(s, ",\"pow\":");
            proof { lemma_concat_associative(s0, acc, ",\"pow\":"@); acc = acc + ",\"pow\":"@; }
            push_i64(s, st.power);
            proof { lemma_concat_associative(s0, acc, i64_text(st.power)); acc = acc + i64_text(st.power); }
            push_str(s, ",\"gut\":");
            proof { lemma_concat_associative(s0, acc, ",\"gut\":"@); acc = acc + ",\"gut\":"@; }
            push_i64(s, st.guts);
            proof { lemma_concat_associative(s0, acc, i64_text(st.guts)); acc = acc + i64_text(st.guts); }
            push_str(s, ",\"wit\":");
            proof { lemma_concat_associative(s0, acc, ",\"wit\":"@); acc = acc + ",\"wit\":"@; }
            push_i64(s, st.wit);
            proof { lemma_concat_associative(s0, acc, i64_text(st.wit)); acc = acc + i64_text(st.wit); }
            push_str(s, "}");
            proof { lemma_concat_associative(s0, acc, "}"@); acc = acc + "}"@; }
            assert(acc == stats_text(*o));
        },
        None => push_str(s, "{\"spd\":0,\"sta\":0,\"pow\":0,\"gut\":0,\"wit\":0}"),
    }
}

/// The ten aptitude grades as JSON, or `null`.
pub open spec fn aptitudes_text(o: Option<Aptitudes>) -> Seq<char> {
    match o {
        Some(x) => "{\"short\":"@
        + opt_i64_text(x.short)
        + ",\"mile\":"@
        + opt_i64_text(x.mile)
        + ",\"middle\":"@
        + opt_i64_text(x.middle)
        + ",\"long\":"@
        + opt_i64_text(x.long)
        + ",\"front\":"@
        + opt_i64_text(x.front)
        + ",\"pace\":"@
        + opt_i64_text(x.pace)
        + ",\"late\":"@
        + opt_i64_text(x.late)
        + ",\"end\":"@
        + opt_i64_text(x.end)
        + ",\"turf\":"@
        + opt_i64_text(x.turf)
        + ",\"dirt\":"@
        + opt_i64_text(x.dirt)
        + "}"@,
        None => "null"@,
    }
}

fn push_aptitudes(s: &mut String, o: &Option<Aptitudes>)
    ensures
        final(s)@ == old(s)@ + aptitudes_text(*o),
{
    match o {
        Some(a) => {
            let ghost s0 = s@;
            push_str(s, "{\"short\":");
            let ghost mut acc = "{\"short\":"@;
            push_opt_i64(s, a.short);
            proof { lemma_concat_associative(s0, acc, opt_i64_text(a.short)); acc = acc + opt_i64_text(a.short); }
            push_str(s, ",\"mile\":");
            proof { lemma_concat_associative(s0, acc, ",\"mile\":"@); acc = acc + ",\"mile\":"@; }
            push_opt_i64(s, a.mile);
            proof { lemma_concat_associative(s0, acc, opt_i64_text(a.mile)); acc = acc + opt_i64_text(a.mile); }
            push_str(s, ",\"middle\":");
            proof { lemma_concat_associative(s0, acc, ",\"middle\":"@); acc = acc + ",\"middle\":"@; }
            push_opt_i64(s, a.middle);
            proof { lemma_concat_associative(s0, acc, opt_i64_text(a.middle)); acc = acc + opt_i64_text(a.middle); }
            push_str(s, ",\"long\":");
            proof { lemma_concat_associative(s0, acc, ",\"long\":"@); acc = acc + ",\"long\":"@; }
            push_opt_i64(s, a.long);
            proof { lemma_concat_associative(s0, acc, opt_i64_text(a.long)); acc = acc + opt_i64_text(a.long); }
            push_str(s, ",\"front\":");
            proof { lemma_concat_associative(s0, acc, ",\"front\":"@); acc = acc + ",\"front\":"@; }
            push_opt_i64(s, a.front);
            proof { lemma_concat_associative(s0, acc, opt_i64_text(a.front)); acc = acc + opt_i64_text(a.front); }
            push_str(s, ",\"pace\":");
            proof { lemma_concat_associative(s0, acc, ",\"pace\":"@); acc = acc + ",\"pace\":"@; }
            push_opt_i64(s, a.pace);
            proof { lemma_concat_associative(s0, acc, opt_i64_text(a.pace)); acc = acc + opt_i64_text(a.pace); }
            push_str(s, ",\"late\":");
            proof { lemma_concat_associative(s0, acc, ",\"late\":"@); acc = acc + ",\"late\":"@; }
            push_opt_i64(s, a.late);
            proof { lemma_concat_associative(s0, acc, opt_i64_text(a.late)); acc = acc + opt_i64_text(a.late); }
            push_str(s, ",\"end\":");
            proof { lemma_concat_associative(s0, acc, ",\"end\":"@); acc = acc + ",\"end\":"@; }
            push_opt_i64(s, a.end);
            proof { lemma_concat_associative(s0, acc, opt_i64_text(a.end)); acc = acc + opt_i64_text(a.end); }
            push_str(s, ",\"turf\":");
            proof { lemma_concat_associative(s0, acc, ",\"turf\":"@); acc = acc + ",\"turf\":"@; }
            push_opt_i64(s, a.turf);
            proof { lemma_concat_associative(s0, acc, opt_i64_text(a.turf)); acc = acc + opt_i64_text(a.turf); }
            push_str(s, ",\"dirt\":");
            proof { lemma_concat_associative(s0, acc, ",\"dirt\":"@); acc = acc + ",\"dirt\":"@; }
            push_opt_i64(s, a.dirt);
            proof { lemma_concat_associative(s0, acc, opt_i64_text(a.dirt)); acc = acc + opt_i64_text(a.dirt); }
            push_str(s, "}");
            proof { lemma_concat_associative(s0, acc, "}"@); acc = acc + "}"@; }
            assert(acc == aptitudes_text(*o));
        },
        None => push_str(s, "null"),
    }
}

/// The submission kinds the worker tells apart.
#[derive(Clone, Copy, Debug, PartialEq, Eq, Structural)]
pub enum SubmissionKind {
    /// A finished career's committed sparks.
    Finish,
    /// A candidate of the original, pre-reroll spark list.
    FactorSelect,
    /// A candidate of a reroll's spark list.
    FactorLottery,
}

/// The `"kind"` value of a submission.
pub open spec fn kind_text(k: SubmissionKind) -> Seq<char> {
    match k {
        SubmissionKind::Finish => "finish"@,
        SubmissionKind::FactorSelect => "factor_select"@,
        SubmissionKind::FactorLottery => "factor_lottery"@,
    }
}

impl SubmissionKind {
    /// The `"kind"` value of a submission of this kind.
    pub fn as_str(&self) -> (r: &'static str)
        ensures
            r@ == kind_text(*self),
    {
        match self {
            SubmissionKind::Finish => "finish",
            SubmissionKind::FactorSelect => "factor_select",
            SubmissionKind::FactorLottery => "factor_lottery",
        }
    }
}

pub open spec fn card_or_zero(c: Option<i64>) -> i64 {
    match c {
        Some(x) => x,
        None => 0,
    }
}

pub open spec fn rank_or_g(r: Option<Seq<char>>) -> Seq<char> {
    match r {
        Some(x) => x,
        None => "G"@,
    }
}

pub open spec fn bool_text(b: bool) -> Seq<char> {
    if b { "true"@ } else { "false"@ }
}

/// A run document up to its last array: the token as given, the message id,
/// the kind, the character (0 when unknown), the rank label ("G" when
/// unknown), the summary's other fields, and the given sparks.
pub open spec fn document_body(token: Seq<char>, message_id: Seq<char>, kind: Seq<char>, summary: FinishSummary, sparks: BreakdownView, ts_ms: u128) -> Seq<char> {
    "{\"token\":\""@
        + token
        + "\",\"message_id\":\""@
        + message_id
        + "\",\"kind\":\""@
        + kind
        + "\",\"character_id\":"@
        + i64_text(card_or_zero(summary.card_id))
        + ",\"rank\":\""@
        + spec_escape(rank_or_g(text_view(summary.rank)))
        + "\",\"rating\":"@
        + opt_i64_text(summary.rating)
        + ",\"races\":"@
        + opt_i64_text(summary.races)
        + ",\"wins\":"@
        + opt_i64_text(summary.wins)
        + ",\"obtained_at_unix_ms\":"@
        + dec_digits(ts_ms as nat)
        + ",\"scenario_id\":"@
        + opt_i64_text(summary.scenario_id)
        + ",\"rarity\":"@
        + opt_i64_text(summary.rarity)
        + ",\"stats\":"@
        + stats_text(summary.stats)
        + ",\"aptitudes\":"@
        + aptitudes_text(summary.aptitudes)
        + ",\"stat_spark\":"@
        + spark_entry_text(sparks.stat)
        + ",\"aptitude_spark\":"@
        + spark_entry_text(sparks.aptitude)
        + ",\"unique_spark_stars\":"@
        + unique_stars_text(sparks.unique)
        + ",\"skill_sparks\":["@
        + skill_sparks_text(sparks.skills)
        + "],\"skill_array\":["@
        + skill_array_text(summary.skill_array@)
        + "],\"support_cards\":["@
        + support_cards_text(summary.support_cards@)
        + "],\"race_results\":["@
        + race_results_text(summary.race_results@)
        + "],\"win_saddle_ids\":["@
        + i64_list_text(summary.win_saddle_ids@)
        + "],\"parents\":["@
        + parents_text(summary.parents@)
        + "]"@
}

fn push_document(out: &mut String, token: &str, message_id: &str, kind: &str, summary: &FinishSummary, stat: &Option<SparkEntry>, aptitude: &Option<SparkEntry>, unique: &Option<SparkEntry>, skills: &[SkillSparkEntry], ts_ms: u128)
    ensures
        final(out)@ == old(out)@ + document_body(token@, message_id@, kind@, *summary,
            BreakdownView { stat: entry_view(*stat), aptitude: entry_view(*aptitude), unique: entry_view(*unique), skills: skills_view(skills@) },
            ts_ms),
{
    let card_id = match summary.card_id {
        Some(c) => c,
        None => 0,
    };
    let rank = match &summary.rank {
        Some(r) => escape_json(r.as_str()),
        None => escape_json("G"),
    };
    let stat_ref: Option<&SparkEntry> = match stat {
        Some(e) => Some(e),
        None => None,
    };
    let aptitude_ref: Option<&SparkEntry> = match aptitude {
        Some(e) => Some(e),
        None => None,
    };
    let ghost s0 = out@;
    push_str(out, "{\"token\":\"");
    let ghost mut acc = "{\"token\":\""@;
    push_str(out, token);
    proof { lemma_concat_associative(s0, acc, token@); acc = acc + token@; }
    push_str(out, "\",\"message_id\":\"");
    proof { lemma_concat_associative(s0, acc, "\",\"message_id\":\""@); acc = acc + "\",\"message_id\":\""@; }
    push_str(out, message_id);
    proof { lemma_concat_associative(s0, acc, message_id@); acc = acc + message_id@; }
    push_str(out, "\",\"kind\":\"");
    proof { lemma_concat_associative(s0, acc, "\",\"kind\":\""@); acc = acc + "\",\"kind\":\""@; }
    push_str(out, kind);
    proof { lemma_concat_associative(s0, acc, kind@); acc = acc + kind@; }
    push_str(out, "\",\"character_id\":");
    proof { lemma_concat_associative(s0, acc, "\",\"character_id\":"@); acc = acc + "\",\"character_id\":"@; }
    push_i64(out, card_id);
    proof { lemma_concat_associative(s0, acc, i64_text(card_or_zero(summary.card_id))); acc = acc + i64_text(card_or_zero(summary.card_id)); }
    push_str(out, ",\"rank\":\"");
    proof { lemma_concat_associative(s0, acc, ",\"rank\":\""@); acc = acc + ",\"rank\":\""@; }
    push_str(out, rank.as_str());
    proof { lemma_concat_associative(s0, acc, spec_escape(rank_or_g(text_view(summary.rank)))); acc = acc + spec_escape(rank_or_g(text_view(summary.rank))); }
    push_str(out, "\",\"rating\":");
    proof { lemma_concat_associative(s0, acc, "\",\"rating\":"@); acc = acc + "\",\"rating\":"@; }
    push_opt_i64(out, summary.rating);
    proof { lemma_concat_associative(s0, acc, opt_i64_text(summary.rating)); acc = acc + opt_i64_text(summary.rating); }
    push_str(out, ",\"races\":");
    proof { lemma_concat_associative(s0, acc, ",\"races\":"@); acc = acc + ",\"races\":"@; }
    push_opt_i64(out, summary.races);
    proof { lemma_concat_associative(s0, acc, opt_i64_text(summary.races)); acc = acc + opt_i64_text(summary.races); }
    push_str(out, ",\"wins\":");
    proof { lemma_concat_associative(s0, acc, ",\"wins\":"@); acc = acc + ",\"wins\":"@; }
    push_opt_i64(out, summary.wins);
    proof { lemma_concat_associative(s0, acc, opt_i64_text(summary.wins)); acc = acc + opt_i64_text(summary.wins); }
    push_str(out, ",\"obtained_at_unix_ms\":");
    proof { lemma_concat_associative(s0, acc, ",\"obtained_at_unix_ms\":"@); acc = acc + ",\"obtained_at_unix_ms\":"@; }
    push_u128(out, ts_ms);
    proof { lemma_concat_associative(s0, acc, dec_digits(ts_ms as nat)); acc = acc + dec_digits(ts_ms as nat); }
    push_str(out, ",\"scenario_id\":");
    proof { lemma_concat_associative(s0, acc, ",\"scenario_id\":"@); acc = acc + ",\"scenario_id\":"@; }
    push_opt_i64(out, summary.scenario_id);
    proof { lemma_concat_associative(s0, acc, opt_i64_text(summary.scenario_id)); acc = acc + opt_i64_text(summary.scenario_id); }
    push_str(out, ",\"rarity\":");
    proof { lemma_concat_associative(s0, acc, ",\"rarity\":"@); acc = acc + ",\"rarity\":"@; }
    push_opt_i64(out, summary.rarity);
    proof { lemma_concat_associative(s0, acc, opt_i64_text(summary.rarity)); acc = acc + opt_i64_text(summary.rarity); }
    push_str(out, ",\"stats\":");
    proof { lemma_concat_associative(s0, acc, ",\"stats\":"@); acc = acc + ",\"stats\":"@; }
    push_stats(out, &summary.stats);
    proof { lemma_concat_associative(s0, acc, stats_text(summary.stats)); acc = acc + stats_text(summary.stats); }
    push_str(out, ",\"aptitudes\":");
    proof { lemma_concat_associative(s0, acc, ",\"aptitudes\":"@); acc = acc + ",\"aptitudes\":"@; }
    push_aptitudes(out, &summary.aptitudes);
    proof { lemma_concat_associative(s0, acc, aptitudes_text(summary.aptitudes)); acc = acc + aptitudes_text(summary.aptitudes); }
    push_str(out, ",\"stat_spark\":");
    proof { lemma_concat_associative(s0, acc, ",\"stat_spark\":"@); acc = acc + ",\"stat_spark\":"@; }
    push_spark_entry(out, stat_ref);
    proof { lemma_concat_associative(s0, acc, spark_entry_text(entry_view(*stat))); acc = acc + spark_entry_text(entry_view(*stat)); }
    push_str(out, ",\"aptitude_spark\":");
    proof { lemma_concat_associative(s0, acc, ",\"aptitude_spark\":"@); acc = acc + ",\"aptitude_spark\":"@; }
    push_spark_entry(out, aptitude_ref);
    proof { lemma_concat_associative(s0, acc, spark_entry_text(entry_view(*aptitude))); acc = acc + spark_entry_text(entry_view(*aptitude)); }
    push_str(out, ",\"unique_spark_stars\":");
    proof { lemma_concat_associative(s0, acc, ",\"unique_spark_stars\":"@); acc = acc + ",\"unique_spark_stars\":"@; }
    push_unique_stars(out, unique);
    proof { lemma_concat_associative(s0, acc, unique_stars_text(entry_view(*unique))); acc = acc + unique_stars_text(entry_view(*unique)); }
    push_str(out, ",\"skill_sparks\":[");
    proof { lemma_concat_associative(s0, acc, ",\"skill_sparks\":["@); acc = acc + ",\"skill_sparks\":["@; }
    push_skill_sparks(out, skills);
    proof { lemma_concat_associative(s0, acc, skill_sparks_text(skills_view(skills@))); acc = acc + skill_sparks_text(skills_view(skills@)); }
    push_str(out, "],\"skill_array\":[");
    proof { lemma_concat_associative(s0, acc, "],\"skill_array\":["@); acc = acc + "],\"skill_array\":["@; }
    push_skill_array(out, summary.skill_array.as_slice());
    proof { lemma_concat_associative(s0, acc, skill_array_text(summary.skill_array@)); acc = acc + skill_array_text(summary.skill_array@); }
    push_str(out, "],\"support_cards\":[");
    proof { lemma_concat_associative(s0, acc, "],\"support_cards\":["@); acc = acc + "],\"support_cards\":["@; }
    push_support_cards(out, summary.support_cards.as_slice());
    proof { lemma_concat_associative(s0, acc, support_cards_text(summary.support_cards@)); acc = acc + support_cards_text(summary.support_cards@); }
    push_str(out, "],\"race_results\":[");
    proof { lemma_concat_associative(s0, acc, "],\"race_results\":["@); acc = acc + "],\"race_results\":["@; }
    push_race_results(out, summary.race_results.as_slice());
    proof { lemma_concat_associative(s0, acc, race_results_text(summary.race_results@)); acc = acc + race_results_text(summary.race_results@); }
    push_str(out, "],\"win_saddle_ids\":[");
    proof { lemma_concat_associative(s0, acc, "],\"win_saddle_ids\":["@); acc = acc + "],\"win_saddle_ids\":["@; }
    push_i64_list(out, summary.win_saddle_ids.as_slice());
    proof { lemma_concat_associative(s0, acc, i64_list_text(summary.win_saddle_ids@)); acc = acc + i64_list_text(summary.win_saddle_ids@); }
    push_str(out, "],\"parents\":[");
    proof { lemma_concat_associative(s0, acc, "],\"parents\":["@); acc = acc + "],\"parents\":["@; }
    push_parents(out, summary.parents.as_slice());
    proof { lemma_concat_associative(s0, acc, parents_text(summary.parents@)); acc = acc + parents_text(summary.parents@); }
    push_str(out, "]");
    proof { lemma_concat_associative(s0, acc, "]"@); acc = acc + "]"@; }
    assert(out@ =~= old(out)@ + acc);
}

/// The career-finish run document: `plugin_` and the timestamp as the
/// message id, kind "finish", and the summary's own sparks.
pub open spec fn run_payload_text(token: &str, summary: FinishSummary, ts_ms: u128) -> Seq<char> {
    document_body(token@, "plugin_"@ + dec_digits(ts_ms as nat), kind_text(SubmissionKind::Finish), summary,
        summary_sparks_view(summary), ts_ms) + "}"@
}

/// The JSON document for a career-finish run, or `None` when the summary
/// lacks its stat or its aptitude spark (a run the worker cannot take).
pub fn run_payload(token: &str, summary: &FinishSummary, ts_ms: u128) -> (r: Option<String>)
    ensures
        match r {
            Some(p) => summary.stat_spark is Some && summary.aptitude_spark is Some
                && p@ == run_payload_text(token, *summary, ts_ms),
            None => summary.stat_spark is None || summary.aptitude_spark is None,
        },
{
    if summary.stat_spark.is_none() || summary.aptitude_spark.is_none() {
        return None;
    }
    let mut message_id = String::new();
    push_str(&mut message_id, "plugin_");
    push_u128(&mut message_id, ts_ms);
    let kind = SubmissionKind::Finish;
    let mut out = String::new();
    push_document(&mut out, token, message_id.as_str(), kind.as_str(), summary, &summary.stat_spark,
        &summary.aptitude_spark, &summary.unique_spark, summary.skill_sparks.as_slice(), ts_ms);
    push_str(&mut out, "}");
    assert(message_id@ =~= "plugin_"@ + dec_digits(ts_ms as nat));
    assert(out@ =~= run_payload_text(token, *summary, ts_ms));
    Some(out)
}

/// The fields a variant of a finish adds: its lottery id, whether it holds
/// the committed sparks, and its tag.
pub open spec fn variant_fields(lottery_id: Option<i64>, is_selected: bool, tag: Seq<char>) -> Seq<char> {
    ",\"lottery_id\":"@ + opt_i64_text(lottery_id) + ",\"is_selected\":"@ + bool_text(is_selected)
        + ",\"variant_tag\":\""@ + spec_escape(tag) + "\""@
}

/// One variant of a finish that followed rerolls: the summary's non-spark
/// fields with the variant's own sparks and kind, `plugin_`, the timestamp,
/// `_` and the tag as the message id, and the variant fields.
pub open spec fn variant_payload_text(token: &str, summary: FinishSummary, sparks: BreakdownView, kind: SubmissionKind, lottery_id: Option<i64>, is_selected: bool, tag: Seq<char>, ts_ms: u128) -> Seq<char> {
    document_body(token@, "plugin_"@ + dec_digits(ts_ms as nat) + "_"@ + spec_escape(tag), kind_text(kind), summary,
        sparks, ts_ms) + variant_fields(lottery_id, is_selected, tag) + "}"@
}

/// The JSON document for one variant of a finish that followed rerolls.
/// Sparks the variant lacks are sent as `null`. The variant fields and the
/// tag suffix of the message id are this library's own format; the worker
/// is expected to read them by name.
pub fn variant_payload(token: &str, summary: &FinishSummary, sparks: &SparkBreakdown, kind: SubmissionKind, lottery_id: Option<i64>, is_selected: bool, tag: &str, ts_ms: u128) -> (r: String)
    ensures
        r@ == variant_payload_text(token, *summary, sparks@, kind, lottery_id, is_selected, tag@, ts_ms),
{
    let esc_tag = escape_json(tag);
    let mut message_id = String::new();
    push_str(&mut message_id, "plugin_");
    push_u128(&mut message_id, ts_ms);
    push_str(&mut message_id, "_");
    push_str(&mut message_id, esc_tag.as_str());
    assert(message_id@ =~= "plugin_"@ + dec_digits(ts_ms as nat) + "_"@ + spec_escape(tag@));
    let mut out = String::new();
    push_document(&mut out, token, message_id.as_str(), kind.as_str(), summary, &sparks.stat_spark,
        &sparks.aptitude_spark, &sparks.unique_spark, sparks.skill_sparks.as_slice(), ts_ms);
    let ghost s0 = out@;
    push_str(&mut out, ",\"lottery_id\":");
    let ghost mut acc = ",\"lottery_id\":"@;
    push_opt_i64(&mut out, lottery_id);
    proof { lemma_concat_associative(s0, acc, opt_i64_text(lottery_id)); acc = acc + opt_i64_text(lottery_id); }
    push_str(&mut out, ",\"is_selected\":");
    proof { lemma_concat_associative(s0, acc, ",\"is_selected\":"@); acc = acc + ",\"is_selected\":"@; }
    if is_selected {
        push_str(&mut out, "true");
    } else {
        push_str(&mut out, "false");
    }
    proof { lemma_concat_associative(s0, acc, bool_text(is_selected)); acc = acc + bool_text(is_selected); }
    push_str(&mut out, ",\"variant_tag\":\"");
    proof { lemma_concat_associative(s0, acc, ",\"variant_tag\":\""@); acc = acc + ",\"variant_tag\":\""@; }
    push_str(&mut out, esc_tag.as_str());
    proof { lemma_concat_associative(s0, acc, spec_escape(tag@)); acc = acc + spec_escape(tag@); }
    push_str(&mut out, "\"");
    proof { lemma_concat_associative(s0, acc, "\""@); acc = acc + "\""@; }
    assert(acc == variant_fields(lottery_id, is_selected, tag@));
    push_str(&mut out, "}");
    assert(out@ =~= s0 + variant_fields(lottery_id, is_selected, tag@) + "}"@);
    out
}

} // verus!
