//! Career-finish summaries and reroll candidate lists read out of the game's
//! decoded responses, and the decoding of packed `factor_id` sparks.

use vstd::prelude::*;
use crate::text::{digit_char, push_char, push_str};
use crate::msgpack::{
    MsgValue, array_or_empty, filter_map, get_array, get_i64, lemma_filter_map_take, spec_as_dict,
    spec_get_array, spec_get_i64, spec_val_i64, val_i64, map_get, spec_map_get,
};

verus! {

#[derive(Clone)]
pub struct SparkEntry {
    pub name: String,
    pub stars: i64,
}

#[derive(Clone, Copy)]
pub struct SkillSparkEntry {
    /// "race", "skill" or "scenario".
    pub spark_type: &'static str,
    pub spark_id: i64,
    pub stars: i64,
}

impl View for SparkEntry {
    type V = (Seq<char>, i64);

    open spec fn view(&self) -> (Seq<char>, i64) {
        (self.name@, self.stars)
    }
}

impl View for SkillSparkEntry {
    type V = (Seq<char>, i64, i64);

    open spec fn view(&self) -> (Seq<char>, i64, i64) {
        (self.spark_type@, self.spark_id, self.stars)
    }
}

/// One decoded `factor_id`.
pub enum Factor {
    Stat { name: &'static str, stars: i64 },
    Aptitude { name: &'static str, stars: i64 },
    Unique { stars: i64 },
    Skill(SkillSparkEntry),
    Unknown,
}

/// A decoded `factor_id` with its text as character sequences.
pub enum FactorView {
    Stat(Seq<char>, i64),
    Aptitude(Seq<char>, i64),
    Unique(i64),
    Skill((Seq<char>, i64, i64)),
    Unknown,
}

impl View for Factor {
    type V = FactorView;

    open spec fn view(&self) -> FactorView {
        match self {
            Factor::Stat { name, stars } => FactorView::Stat(name@, *stars),
            Factor::Aptitude { name, stars } => FactorView::Aptitude(name@, *stars),
            Factor::Unique { stars } => FactorView::Unique(*stars),
            Factor::Skill(e) => FactorView::Skill(e@),
            Factor::Unknown => FactorView::Unknown,
        }
    }
}

/// The stat named by the hundreds digit of a stat spark (1 to 5).
pub open spec fn stat_name(d: int) -> Option<Seq<char>> {
    if d == 1 { Some("Speed"@) }
    else if d == 2 { Some("Stamina"@) }
    else if d == 3 { Some("Power"@) }
    else if d == 4 { Some("Guts"@) }
    else if d == 5 { Some("Wit"@) }
    else { None }
}

/// The aptitude named by `v / 100` of an aptitude spark.
pub open spec fn aptitude_name(d: int) -> Option<Seq<char>> {
    if d == 11 { Some("Turf"@) }
    else if d == 12 { Some("Dirt"@) }
    else if d == 21 { Some("Front Runner"@) }
    else if d == 22 { Some("Pace Chaser"@) }
    else if d == 23 { Some("Late Surger"@) }
    else if d == 24 { Some("End Closer"@) }
    else if d == 31 { Some("Sprint"@) }
    else if d == 32 { Some("Mile"@) }
    else if d == 33 { Some("Medium"@) }
    else if d == 34 { Some("Long"@) }
    else { None }
}

/// The star count packed into a `factor_id`: the last two digits of a unique
/// spark's id (ids from 10,000,000 up), the last digit of every other id.
pub open spec fn factor_stars(v: i64) -> i64 {
    if v >= 10_000_000 { (v % 100) as i64 } else { (v % 10) as i64 }
}

/// What a packed `factor_id` stands for: 100..599 a stat spark, 1000..3999
/// an aptitude spark, 1,000,000..1,999,999 a race spark, 2,000,000..2,999,999
/// a skill spark, 3,000,000..3,999,999 a scenario spark, from 10,000,000 a
/// unique spark; any other id (and an unnamed digit in the stat and
/// aptitude ranges) is unknown.
pub open spec fn spec_categorize(v: i64) -> FactorView {
    let stars = factor_stars(v);
    if 100 <= v < 600 {
        match stat_name(v / 100) {
            Some(n) => FactorView::Stat(n, stars),
            None => FactorView::Unknown,
        }
    } else if 1_000 <= v < 4_000 {
        match aptitude_name(v / 100) {
            Some(n) => FactorView::Aptitude(n, stars),
            None => FactorView::Unknown,
        }
    } else if 1_000_000 <= v < 2_000_000 {
        FactorView::Skill(("race"@, ((v - 1_000_000) / 100) as i64, stars))
    } else if 2_000_000 <= v < 3_000_000 {
        FactorView::Skill(("skill"@, ((v / 100) * 10 + v % 100) as i64, stars))
    } else if 3_000_000 <= v < 4_000_000 {
        FactorView::Skill(("scenario"@, ((v - 3_000_000) / 100) as i64, stars))
    } else if v >= 10_000_000 {
        FactorView::Unique(stars)
    } else {
        FactorView::Unknown
    }
}

fn stat_label(d: i64) -> (r: Option<&'static str>)
    ensures
        match r {
            Some(n) => stat_name(d as int) == Some(n@),
            None => stat_name(d as int) is None,
        },
{
    if d == 1 { Some("Speed") }
    else if d == 2 { Some("Stamina") }
    else if d == 3 { Some("Power") }
    else if d == 4 { Some("Guts") }
    else if d == 5 { Some("Wit") }
    else { None }
}

fn aptitude_label(d: i64) -> (r: Option<&'static str>)
    ensures
        match r {
            Some(n) => aptitude_name(d as int) == Some(n@),
            None => aptitude_name(d as int) is None,
        },
{
    if d == 11 { Some("Turf") }
    else if d == 12 { Some("Dirt") }
    else if d == 21 { Some("Front Runner") }
    else if d == 22 { Some("Pace Chaser") }
    else if d == 23 { Some("Late Surger") }
    else if d == 24 { Some("End Closer") }
    else if d == 31 { Some("Sprint") }
    else if d == 32 { Some("Mile") }
    else if d == 33 { Some("Medium") }
    else if d == 34 { Some("Long") }
    else { None }
}

/// Decodes one packed `factor_id`.
pub fn categorize_factor(v: i64) -> (r: Factor)
    ensures
        r@ == spec_categorize(v),
{
    let stars = if v >= 10_000_000 { v % 100 } else { v % 10 };

    if 100 <= v && v < 600 {
        return match stat_label(v / 100) {
            Some(name) => Factor::Stat { name, stars },
            None => Factor::Unknown,
        };
    }
    if 1_000 <= v && v < 4_000 {
        return match aptitude_label(v / 100) {
            Some(name) => Factor::Aptitude { name, stars },
            None => Factor::Unknown,
        };
    }
    if 1_000_000 <= v && v < 2_000_000 {
        let spark_id = (v - 1_000_000) / 100;
        return Factor::Skill(SkillSparkEntry { spark_type: "race", spark_id, stars });
    }
    if 2_000_000 <= v && v < 3_000_000 {
        let spark_id = (v / 100) * 10 + v % 100;
        return Factor::Skill(SkillSparkEntry { spark_type: "skill", spark_id, stars });
    }
    if 3_000_000 <= v && v < 4_000_000 {
        let spark_id = (v - 3_000_000) / 100;
        return Factor::Skill(SkillSparkEntry { spark_type: "scenario", spark_id, stars });
    }
    if v >= 10_000_000 {
        return Factor::Unique { stars };
    }
    Factor::Unknown
}


/// Decoded output of walking a list of raw `factor_id`s: the first stat,
/// aptitude and unique spark seen, and every skill spark in order.
pub struct SparkBreakdown {
    pub stat_spark: Option<SparkEntry>,
    pub aptitude_spark: Option<SparkEntry>,
    pub unique_spark: Option<SparkEntry>,
    pub skill_sparks: Vec<SkillSparkEntry>,
}

/// A spark breakdown with its text as character sequences.
pub struct BreakdownView {
    pub stat: Option<(Seq<char>, i64)>,
    pub aptitude: Option<(Seq<char>, i64)>,
    pub unique: Option<(Seq<char>, i64)>,
    pub skills: Seq<(Seq<char>, i64, i64)>,
}

pub open spec fn entry_view(e: Option<SparkEntry>) -> Option<(Seq<char>, i64)> {
    match e {
        Some(x) => Some(x@),
        None => None,
    }
}

pub open spec fn skills_view(s: Seq<SkillSparkEntry>) -> Seq<(Seq<char>, i64, i64)> {
    s.map_values(|e: SkillSparkEntry| e@)
}

impl View for SparkBreakdown {
    type V = BreakdownView;

    open spec fn view(&self) -> BreakdownView {
        BreakdownView {
            stat: entry_view(self.stat_spark),
            aptitude: entry_view(self.aptitude_spark),
            unique: entry_view(self.unique_spark),
            skills: skills_view(self.skill_sparks@),
        }
    }
}

pub open spec fn empty_breakdown() -> BreakdownView {
    BreakdownView { stat: None, aptitude: None, unique: None, skills: Seq::empty() }
}

impl Default for SparkBreakdown {
    fn default() -> (r: SparkBreakdown)
        ensures
            r@ == empty_breakdown(),
    {
        let r = SparkBreakdown { stat_spark: None, aptitude_spark: None, unique_spark: None, skill_sparks: Vec::new() };
        assert(r@.skills =~= Seq::empty());
        r
    }
}

/// One step of the walk: a stat, aptitude or unique spark is kept only when
/// none of its kind was seen before; a skill spark is always appended.
pub open spec fn breakdown_step(b: BreakdownView, f: FactorView) -> BreakdownView {
    match f {
        FactorView::Stat(n, s) => if b.stat is None {
            BreakdownView { stat: Some((n, s)), aptitude: b.aptitude, unique: b.unique, skills: b.skills }
        } else {
            b
        },
        FactorView::Aptitude(n, s) => if b.aptitude is None {
            BreakdownView { stat: b.stat, aptitude: Some((n, s)), unique: b.unique, skills: b.skills }
        } else {
            b
        },
        FactorView::Unique(s) => if b.unique is None {
            BreakdownView { stat: b.stat, aptitude: b.aptitude, unique: Some(("Character Factor"@, s)), skills: b.skills }
        } else {
            b
        },
        FactorView::Skill(e) => BreakdownView { stat: b.stat, aptitude: b.aptitude, unique: b.unique, skills: b.skills.push(e) },
        FactorView::Unknown => b,
    }
}

/// The breakdown of a list of `factor_id`s, walked front to back.
pub open spec fn spec_breakdown(ids: Seq<i64>) -> BreakdownView
    decreases ids.len(),
{
    if ids.len() == 0 {
        empty_breakdown()
    } else {
        breakdown_step(spec_breakdown(ids.drop_last()), spec_categorize(ids.last()))
    }
}

/// Walks a list of raw `factor_id`s, keeping the first stat/aptitude/unique
/// spark seen and collecting every skill spark.
pub fn categorize_factor_ids(ids: &[i64]) -> (r: SparkBreakdown)
    ensures
        r@ == spec_breakdown(ids@),
{
    let mut b = SparkBreakdown::default();
    let n = ids.len();
    let mut i: usize = 0;
    assert(ids@.take(0) =~= Seq::<i64>::empty());
    while i < n
        invariant
            0 <= i <= n,
            n == ids@.len(),
            b@ == spec_breakdown(ids@.take(i as int)),
        decreases n - i,
    {
        let id = ids[i];
        assert(ids@.take(i + 1).drop_last() =~= ids@.take(i as int));
        assert(ids@.take(i + 1).last() == id);
        let ghost old_skills = b.skill_sparks@;
        match categorize_factor(id) {
            Factor::Stat { name, stars } => {
                if b.stat_spark.is_none() {
                    b.stat_spark = Some(SparkEntry { name: name.to_owned(), stars });
                }
            },
            Factor::Aptitude { name, stars } => {
                if b.aptitude_spark.is_none() {
                    b.aptitude_spark = Some(SparkEntry { name: name.to_owned(), stars });
                }
            },
            Factor::Unique { stars } => {
                if b.unique_spark.is_none() {
                    b.unique_spark = Some(SparkEntry { name: "Character Factor".to_owned(), stars });
                }
            },
            Factor::Skill(entry) => {
                b.skill_sparks.push(entry);
                assert(skills_view(b.skill_sparks@) =~= skills_view(old_skills).push(entry@));
            },
            Factor::Unknown => {},
        }
        i = i + 1;
    }
    assert(ids@.take(n as int) =~= ids@);
    b
}


/// The label of a rank from 1 ("G") to 18 ("SS+").
pub open spec fn base_rank_name(r: int) -> Option<Seq<char>> {
    if r == 1 { Some("G"@) }
    else if r == 2 { Some("G+"@) }
    else if r == 3 { Some("F"@) }
    else if r == 4 { Some("F+"@) }
    else if r == 5 { Some("E"@) }
    else if r == 6 { Some("E+"@) }
    else if r == 7 { Some("D"@) }
    else if r == 8 { Some("D+"@) }
    else if r == 9 { Some("C"@) }
    else if r == 10 { Some("C+"@) }
    else if r == 11 { Some("B"@) }
    else if r == 12 { Some("B+"@) }
    else if r == 13 { Some("A"@) }
    else if r == 14 { Some("A+"@) }
    else if r == 15 { Some("S"@) }
    else if r == 16 { Some("S+"@) }
    else if r == 17 { Some("SS"@) }
    else if r == 18 { Some("SS+"@) }
    else { None }
}

/// The letter of a U-rank tier from 0 ("G") to 8 ("SS").
pub open spec fn u_tier_name(r: int) -> Option<Seq<char>> {
    if r == 0 { Some("G"@) }
    else if r == 1 { Some("F"@) }
    else if r == 2 { Some("E"@) }
    else if r == 3 { Some("D"@) }
    else if r == 4 { Some("C"@) }
    else if r == 5 { Some("B"@) }
    else if r == 6 { Some("A"@) }
    else if r == 7 { Some("S"@) }
    else if r == 8 { Some("SS"@) }
    else { None }
}

/// The label of a trained character's rank: ranks 1..18 are "G" up to "SS+";
/// from 19 on, each tier of ten is "U" and a letter ("UG" for 19, "UF" for
/// 29, ...), followed by the rank's offset in the tier when that is not 0
/// ("UG1" for 20); below 1 and past the "USS" tier there is no label.
pub open spec fn spec_rank_label(rank: i64) -> Option<Seq<char>> {
    if rank < 1 {
        None
    } else if rank <= 18 {
        base_rank_name(rank as int)
    } else {
        let offset = rank - 19;
        let sub = offset % 10;
        match u_tier_name(offset / 10) {
            Some(t) => Some(seq!['U'] + t + if sub == 0 { Seq::<char>::empty() } else { seq![digit_char(sub)] }),
            None => None,
        }
    }
}

fn base_rank_str(r: i64) -> (s: Option<&'static str>)
    ensures
        match s {
            Some(x) => base_rank_name(r as int) == Some(x@),
            None => base_rank_name(r as int) is None,
        },
{
    if r == 1 { Some("G") }
    else if r == 2 { Some("G+") }
    else if r == 3 { Some("F") }
    else if r == 4 { Some("F+") }
    else if r == 5 { Some("E") }
    else if r == 6 { Some("E+") }
    else if r == 7 { Some("D") }
    else if r == 8 { Some("D+") }
    else if r == 9 { Some("C") }
    else if r == 10 { Some("C+") }
    else if r == 11 { Some("B") }
    else if r == 12 { Some("B+") }
    else if r == 13 { Some("A") }
    else if r == 14 { Some("A+") }
    else if r == 15 { Some("S") }
    else if r == 16 { Some("S+") }
    else if r == 17 { Some("SS") }
    else if r == 18 { Some("SS+") }
    else { None }
}

fn u_tier_str(r: i64) -> (s: Option<&'static str>)
    ensures
        match s {
            Some(x) => u_tier_name(r as int) == Some(x@),
            None => u_tier_name(r as int) is None,
        },
{
    if r == 0 { Some("G") }
    else if r == 1 { Some("F") }
    else if r == 2 { Some("E") }
    else if r == 3 { Some("D") }
    else if r == 4 { Some("C") }
    else if r == 5 { Some("B") }
    else if r == 6 { Some("A") }
    else if r == 7 { Some("S") }
    else if r == 8 { Some("SS") }
    else { None }
}

/// The label of a trained character's rank.
pub fn rank_label(rank: i64) -> (r: Option<String>)
    ensures
        match r {
            Some(s) => spec_rank_label(rank) == Some(s@),
            None => spec_rank_label(rank) is None,
        },
{
    if rank < 1 {
        return None;
    }
    if rank <= 18 {
        return match base_rank_str(rank) {
            Some(x) => Some(x.to_owned()),
            None => None,
        };
    }
    let offset = rank - 19;
    let sub = offset % 10;
    match u_tier_str(offset / 10) {
        Some(t) => {
            let mut s = "U".to_owned();
            proof { reveal_strlit("U"); }
            push_str(&mut s, t);
            if sub != 0 {
                let c = ((sub as u8) + 48) as char;
                push_char(&mut s, c);
            }
            assert(s@ =~= seq!['U'] + t@ + if sub == 0 { Seq::<char>::empty() } else { seq![digit_char(sub as int)] });
            Some(s)
        },
        None => None,
    }
}


pub struct SkillEntry {
    pub skill_id: i64,
    pub level: Option<i64>,
}

pub struct SupportCard {
    pub position: i64,
    pub support_card_id: i64,
    pub exp: Option<i64>,
    pub limit_break_count: Option<i64>,
}

pub struct RaceResult {
    pub turn: Option<i64>,
    pub program_id: i64,
    pub result_rank: Option<i64>,
}

pub struct Parent {
    pub position_id: i64,
    pub card_id: Option<i64>,
    pub rank: Option<String>,
    pub stat_spark: Option<SparkEntry>,
    pub aptitude_spark: Option<SparkEntry>,
    pub unique_spark: Option<SparkEntry>,
    pub skill_sparks: Vec<SkillSparkEntry>,
    pub win_saddle_ids: Vec<i64>,
}

/// A parent with its text as character sequences.
pub struct ParentView {
    pub position_id: i64,
    pub card_id: Option<i64>,
    pub rank: Option<Seq<char>>,
    pub sparks: BreakdownView,
    pub win_saddle_ids: Seq<i64>,
}

pub open spec fn text_view(s: Option<String>) -> Option<Seq<char>> {
    match s {
        Some(x) => Some(x@),
        None => None,
    }
}

impl View for Parent {
    type V = ParentView;

    open spec fn view(&self) -> ParentView {
        ParentView {
            position_id: self.position_id,
            card_id: self.card_id,
            rank: text_view(self.rank),
            sparks: BreakdownView {
                stat: entry_view(self.stat_spark),
                aptitude: entry_view(self.aptitude_spark),
                unique: entry_view(self.unique_spark),
                skills: skills_view(self.skill_sparks@),
            },
            win_saddle_ids: self.win_saddle_ids@,
        }
    }
}

/// One candidate spark list from a `factor_select_info_array` entry within a
/// `single_mode_factor_lottery_common` packet (one reroll result).
pub struct FactorListEntry {
    pub lottery_id: Option<i64>,
    pub sparks: SparkBreakdown,
}

impl View for FactorListEntry {
    type V = (Option<i64>, BreakdownView);

    open spec fn view(&self) -> (Option<i64>, BreakdownView) {
        (self.lottery_id, self.sparks@)
    }
}

/// The `factor_id` of one `{factor_id, level}` object.
pub open spec fn factor_id_fn() -> spec_fn(MsgValue) -> Option<i64> {
    |v: MsgValue| match spec_as_dict(v) {
        Some(fm) => spec_get_i64(fm, "factor_id"@),
        None => None,
    }
}

/// Every `factor_id` in the `factor_info_array`-shaped list under `key`.
pub open spec fn spec_factor_ids(entries: Seq<(MsgValue, MsgValue)>, key: Seq<char>) -> Seq<i64> {
    filter_map(array_or_empty(spec_get_array(entries, key)), factor_id_fn())
}

/// Extracts every `factor_id` out of a `factor_info_array`-shaped list, an
/// array of `{factor_id, level}` objects; other elements are skipped.
pub fn extract_factor_ids(entries: &[(MsgValue, MsgValue)], key: &str) -> (r: Vec<i64>)
    ensures
        r@ == spec_factor_ids(entries@, key@),
{
    let mut out: Vec<i64> = Vec::new();
    let arr = match get_array(entries, key) {
        Some(a) => a,
        None => {
            assert(out@ =~= filter_map(Seq::<MsgValue>::empty(), factor_id_fn()));
            return out;
        },
    };
    let n = arr.len();
    let mut i: usize = 0;
    assert(arr@.take(0) =~= Seq::<MsgValue>::empty());
    while i < n
        invariant
            0 <= i <= n,
            n == arr@.len(),
            out@ == filter_map(arr@.take(i as int), factor_id_fn()),
        decreases n - i,
    {
        proof { lemma_filter_map_take(arr@, factor_id_fn(), i as int); }
        match &arr[i] {
            MsgValue::Dict(fm) => {
                match get_i64(fm.as_slice(), "factor_id") {
                    Some(x) => out.push(x),
                    None => {},
                }
            },
            _ => {},
        }
        i = i + 1;
    }
    assert(arr@.take(n as int) =~= arr@);
    out
}

/// The integers in the array under `key`.
pub open spec fn spec_i64_array(entries: Seq<(MsgValue, MsgValue)>, key: Seq<char>) -> Seq<i64> {
    filter_map(array_or_empty(spec_get_array(entries, key)), |v: MsgValue| spec_val_i64(v))
}

/// The integers in the array under `key`; other elements are skipped.
pub fn extract_i64_array(entries: &[(MsgValue, MsgValue)], key: &str) -> (r: Vec<i64>)
    ensures
        r@ == spec_i64_array(entries@, key@),
{
    let mut out: Vec<i64> = Vec::new();
    let ghost f = |v: MsgValue| spec_val_i64(v);
    let arr = match get_array(entries, key) {
        Some(a) => a,
        None => {
            assert(out@ =~= filter_map(Seq::<MsgValue>::empty(), f));
            return out;
        },
    };
    let n = arr.len();
    let mut i: usize = 0;
    assert(arr@.take(0) =~= Seq::<MsgValue>::empty());
    while i < n
        invariant
            0 <= i <= n,
            n == arr@.len(),
            f == (|v: MsgValue| spec_val_i64(v)),
            out@ == filter_map(arr@.take(i as int), f),
        decreases n - i,
    {
        proof { lemma_filter_map_take(arr@, f, i as int); }
        match val_i64(&arr[i]) {
            Some(x) => out.push(x),
            None => {},
        }
        i = i + 1;
    }
    assert(arr@.take(n as int) =~= arr@);
    out
}


/// A `skill_array` element: kept when it is a map with a `skill_id`.
pub open spec fn skill_entry_fn() -> spec_fn(MsgValue) -> Option<SkillEntry> {
    |v: MsgValue| match spec_as_dict(v) {
        Some(m) => match spec_get_i64(m, "skill_id"@) {
            Some(id) => Some(SkillEntry { skill_id: id, level: spec_get_i64(m, "level"@) }),
            None => None,
        },
        None => None,
    }
}

pub open spec fn spec_skill_array(target: Seq<(MsgValue, MsgValue)>) -> Seq<SkillEntry> {
    filter_map(array_or_empty(spec_get_array(target, "skill_array"@)), skill_entry_fn())
}

fn extract_skill_array(target: &[(MsgValue, MsgValue)]) -> (r: Vec<SkillEntry>)
    ensures
        r@ == spec_skill_array(target@),
{
    let mut out: Vec<SkillEntry> = Vec::new();
    let arr = match get_array(target, "skill_array") {
        Some(a) => a,
        None => {
            assert(out@ =~= filter_map(Seq::<MsgValue>::empty(), skill_entry_fn()));
            return out;
        },
    };
    let n = arr.len();
    let mut i: usize = 0;
    assert(arr@.take(0) =~= Seq::<MsgValue>::empty());
    while i < n
        invariant
            0 <= i <= n,
            n == arr@.len(),
            out@ == filter_map(arr@.take(i as int), skill_entry_fn()),
        decreases n - i,
    {
        proof { lemma_filter_map_take(arr@, skill_entry_fn(), i as int); }
        match &arr[i] {
            MsgValue::Dict(m) => {
                let m = m.as_slice();
                match get_i64(m, "skill_id") {
                    Some(skill_id) => {
                        let level = get_i64(m, "level");
                        out.push(SkillEntry { skill_id, level });
                    },
                    None => {},
                }
            },
            _ => {},
        }
        i = i + 1;
    }
    assert(arr@.take(n as int) =~= arr@);
    out
}

/// A `support_card_list` element: kept when it is a map with a `position`
/// and a `support_card_id`.
pub open spec fn support_card_fn() -> spec_fn(MsgValue) -> Option<SupportCard> {
    |v: MsgValue| match spec_as_dict(v) {
        Some(m) => match (spec_get_i64(m, "position"@), spec_get_i64(m, "support_card_id"@)) {
            (Some(p), Some(id)) => Some(SupportCard {
                position: p,
                support_card_id: id,
                exp: spec_get_i64(m, "exp"@),
                limit_break_count: spec_get_i64(m, "limit_break_count"@),
            }),
            _ => None,
        },
        None => None,
    }
}

pub open spec fn spec_support_cards(target: Seq<(MsgValue, MsgValue)>) -> Seq<SupportCard> {
    filter_map(array_or_empty(spec_get_array(target, "support_card_list"@)), support_card_fn())
}

fn extract_support_cards(target: &[(MsgValue, MsgValue)]) -> (r: Vec<SupportCard>)
    ensures
        r@ == spec_support_cards(target@),
{
    let mut out: Vec<SupportCard> = Vec::new();
    let arr = match get_array(target, "support_card_list") {
        Some(a) => a,
        None => {
            assert(out@ =~= filter_map(Seq::<MsgValue>::empty(), support_card_fn()));
            return out;
        },
    };
    let n = arr.len();
    let mut i: usize = 0;
    assert(arr@.take(0) =~= Seq::<MsgValue>::empty());
    while i < n
        invariant
            0 <= i <= n,
            n == arr@.len(),
            out@ == filter_map(arr@.take(i as int), support_card_fn()),
        decreases n - i,
    {
        proof { lemma_filter_map_take(arr@, support_card_fn(), i as int); }
        match &arr[i] {
            MsgValue::Dict(m) => {
                let m = m.as_slice();
                match (get_i64(m, "position"), get_i64(m, "support_card_id")) {
                    (Some(position), Some(support_card_id)) => {
                        let exp = get_i64(m, "exp");
                        let limit_break_count = get_i64(m, "limit_break_count");
                        out.push(SupportCard { position, support_card_id, exp, limit_break_count });
                    },
                    _ => {},
                }
            },
            _ => {},
        }
        i = i + 1;
    }
    assert(arr@.take(n as int) =~= arr@);
    out
}

/// A `race_result_list` element: kept when it is a map with a `program_id`.
pub open spec fn race_result_fn() -> spec_fn(MsgValue) -> Option<RaceResult> {
    |v: MsgValue| match spec_as_dict(v) {
        Some(m) => match spec_get_i64(m, "program_id"@) {
            Some(id) => Some(RaceResult {
                turn: spec_get_i64(m, "turn"@),
                program_id: id,
                result_rank: spec_get_i64(m, "result_rank"@),
            }),
            None => None,
        },
        None => None,
    }
}

fn extract_race_results(race_list: &[MsgValue]) -> (r: Vec<RaceResult>)
    ensures
        r@ == filter_map(race_list@, race_result_fn()),
{
    let mut out: Vec<RaceResult> = Vec::new();
    let n = race_list.len();
    let mut i: usize = 0;
    assert(race_list@.take(0) =~= Seq::<MsgValue>::empty());
    while i < n
        invariant
            0 <= i <= n,
            n == race_list@.len(),
            out@ == filter_map(race_list@.take(i as int), race_result_fn()),
        decreases n - i,
    {
        proof { lemma_filter_map_take(race_list@, race_result_fn(), i as int); }
        match &race_list[i] {
            MsgValue::Dict(m) => {
                let m = m.as_slice();
                match get_i64(m, "program_id") {
                    Some(program_id) => {
                        let turn = get_i64(m, "turn");
                        let result_rank = get_i64(m, "result_rank");
                        out.push(RaceResult { turn, program_id, result_rank });
                    },
                    None => {},
                }
            },
            _ => {},
        }
        i = i + 1;
    }
    assert(race_list@.take(n as int) =~= race_list@);
    out
}

/// The rank label of the rank under `key`, if any.
pub open spec fn spec_rank_of(m: Seq<(MsgValue, MsgValue)>) -> Option<Seq<char>> {
    match spec_get_i64(m, "rank"@) {
        Some(r) => spec_rank_label(r),
        None => None,
    }
}

/// A `succession_chara_array` element: kept when it is a map with a
/// `position_id`; its sparks come from its own `factor_info_array`.
pub open spec fn parent_fn() -> spec_fn(MsgValue) -> Option<ParentView> {
    |v: MsgValue| match spec_as_dict(v) {
        Some(m) => match spec_get_i64(m, "position_id"@) {
            Some(p) => Some(ParentView {
                position_id: p,
                card_id: spec_get_i64(m, "card_id"@),
                rank: spec_rank_of(m),
                sparks: spec_breakdown(spec_factor_ids(m, "factor_info_array"@)),
                win_saddle_ids: spec_i64_array(m, "win_saddle_id_array"@),
            }),
            None => None,
        },
        None => None,
    }
}

pub open spec fn parents_view(s: Seq<Parent>) -> Seq<ParentView> {
    s.map_values(|p: Parent| p@)
}

pub open spec fn spec_parents(target: Seq<(MsgValue, MsgValue)>) -> Seq<ParentView> {
    filter_map(array_or_empty(spec_get_array(target, "succession_chara_array"@)), parent_fn())
}

fn rank_of(m: &[(MsgValue, MsgValue)]) -> (r: Option<String>)
    ensures
        text_view(r) == spec_rank_of(m@),
{
    match get_i64(m, "rank") {
        Some(x) => rank_label(x),
        None => None,
    }
}

/// The parents (succession charas) of a trained character.
pub fn extract_parents(target: &[(MsgValue, MsgValue)]) -> (r: Vec<Parent>)
    ensures
        parents_view(r@) == spec_parents(target@),
{
    let mut out: Vec<Parent> = Vec::new();
    let arr = match get_array(target, "succession_chara_array") {
        Some(a) => a,
        None => {
            assert(parents_view(out@) =~= filter_map(Seq::<MsgValue>::empty(), parent_fn()));
            return out;
        },
    };
    let n = arr.len();
    let mut i: usize = 0;
    assert(arr@.take(0) =~= Seq::<MsgValue>::empty());
    assert(parents_view(out@) =~= Seq::<ParentView>::empty());
    while i < n
        invariant
            0 <= i <= n,
            n == arr@.len(),
            parents_view(out@) == filter_map(arr@.take(i as int), parent_fn()),
        decreases n - i,
    {
        proof { lemma_filter_map_take(arr@, parent_fn(), i as int); }
        match &arr[i] {
            MsgValue::Dict(m) => {
                let m = m.as_slice();
                match get_i64(m, "position_id") {
                    Some(position_id) => {
                        let card_id = get_i64(m, "card_id");
                        let rank = rank_of(m);
                        let ids = extract_factor_ids(m, "factor_info_array");
                        let breakdown = categorize_factor_ids(ids.as_slice());
                        let win_saddle_ids = extract_i64_array(m, "win_saddle_id_array");
                        let p = Parent {
                            position_id,
                            card_id,
                            rank,
                            stat_spark: breakdown.stat_spark,
                            aptitude_spark: breakdown.aptitude_spark,
                            unique_spark: breakdown.unique_spark,
                            skill_sparks: breakdown.skill_sparks,
                            win_saddle_ids,
                        };
                        let ghost before = out@;
                        out.push(p);
                        assert(parents_view(out@) =~= parents_view(before).push(p@));
                    },
                    None => {},
                }
            },
            _ => {},
        }
        i = i + 1;
    }
    assert(arr@.take(n as int) =~= arr@);
    out
}

/// A `factor_select_info_array` element: every map is kept, whatever its
/// sparks decode to.
pub open spec fn factor_list_fn() -> spec_fn(MsgValue) -> Option<(Option<i64>, BreakdownView)> {
    |v: MsgValue| match spec_as_dict(v) {
        Some(m) => Some((spec_get_i64(m, "lottery_id"@), spec_breakdown(spec_factor_ids(m, "factor_info_array"@)))),
        None => None,
    }
}

pub open spec fn factor_list_view(s: Seq<FactorListEntry>) -> Seq<(Option<i64>, BreakdownView)> {
    s.map_values(|e: FactorListEntry| e@)
}

pub open spec fn spec_factor_list(packet: Seq<(MsgValue, MsgValue)>) -> Seq<(Option<i64>, BreakdownView)> {
    filter_map(array_or_empty(spec_get_array(packet, "factor_select_info_array"@)), factor_list_fn())
}

/// Reads every candidate spark list out of a `single_mode_factor_lottery_common`
/// packet: one entry per map in `factor_select_info_array`, even entries whose
/// sparks end up empty.
pub fn extract_factor_list(packet: &[(MsgValue, MsgValue)]) -> (r: Vec<FactorListEntry>)
    ensures
        factor_list_view(r@) == spec_factor_list(packet@),
{
    let mut out: Vec<FactorListEntry> = Vec::new();
    let arr = match get_array(packet, "factor_select_info_array") {
        Some(a) => a,
        None => {
            assert(factor_list_view(out@) =~= filter_map(Seq::<MsgValue>::empty(), factor_list_fn()));
            return out;
        },
    };
    let n = arr.len();
    let mut i: usize = 0;
    assert(arr@.take(0) =~= Seq::<MsgValue>::empty());
    assert(factor_list_view(out@) =~= Seq::<(Option<i64>, BreakdownView)>::empty());
    while i < n
        invariant
            0 <= i <= n,
            n == arr@.len(),
            factor_list_view(out@) == filter_map(arr@.take(i as int), factor_list_fn()),
        decreases n - i,
    {
        proof { lemma_filter_map_take(arr@, factor_list_fn(), i as int); }
        match &arr[i] {
            MsgValue::Dict(m) => {
                let m = m.as_slice();
                let lottery_id = get_i64(m, "lottery_id");
                let ids = extract_factor_ids(m, "factor_info_array");
                let e = FactorListEntry { lottery_id, sparks: categorize_factor_ids(ids.as_slice()) };
                let ghost before = out@;
                out.push(e);
                assert(factor_list_view(out@) =~= factor_list_view(before).push(e@));
            },
            _ => {},
        }
        i = i + 1;
    }
    assert(arr@.take(n as int) =~= arr@);
    out
}


pub struct Stats {
    pub speed: i64,
    pub stamina: i64,
    pub power: i64,
    pub guts: i64,
    pub wit: i64,
}

pub struct Aptitudes {
    pub short: Option<i64>,
    pub mile: Option<i64>,
    pub middle: Option<i64>,
    pub long: Option<i64>,
    pub front: Option<i64>,
    pub pace: Option<i64>,
    pub late: Option<i64>,
    pub end: Option<i64>,
    pub turf: Option<i64>,
    pub dirt: Option<i64>,
}

pub struct FinishSummary {
    pub card_id: Option<i64>,
    pub scenario_id: Option<i64>,
    pub rarity: Option<i64>,
    pub aptitudes: Option<Aptitudes>,
    pub stats: Option<Stats>,
    pub rank: Option<String>,
    pub rating: Option<i64>,
    pub races: Option<i64>,
    pub wins: Option<i64>,
    pub stat_spark: Option<SparkEntry>,
    pub aptitude_spark: Option<SparkEntry>,
    pub unique_spark: Option<SparkEntry>,
    pub skill_sparks: Vec<SkillSparkEntry>,
    pub skill_array: Vec<SkillEntry>,
    pub support_cards: Vec<SupportCard>,
    pub race_results: Vec<RaceResult>,
    pub win_saddle_ids: Vec<i64>,
    pub parents: Vec<Parent>,
}

/// Whether `v` is the `trained_chara` entry with id `id`.
pub open spec fn is_chara(v: MsgValue, id: i64) -> bool {
    match spec_as_dict(v) {
        Some(m) => spec_get_i64(m, "trained_chara_id"@) == Some(id),
        None => false,
    }
}

/// The first entry of `items` that is the chara with id `id`.
pub open spec fn first_chara(items: Seq<MsgValue>, id: i64) -> Option<Seq<(MsgValue, MsgValue)>>
    decreases items.len(),
{
    if items.len() == 0 {
        None
    } else if is_chara(items[0], id) {
        spec_as_dict(items[0])
    } else {
        first_chara(items.drop_first(), id)
    }
}

pub open spec fn spec_find_target(fc: Seq<(MsgValue, MsgValue)>, target_id: Option<i64>) -> Option<Seq<(MsgValue, MsgValue)>> {
    match target_id {
        Some(id) => match spec_get_array(fc, "trained_chara"@) {
            Some(list) => first_chara(list, id),
            None => None,
        },
        None => None,
    }
}

fn find_target_chara<'a>(finish_common: &'a [(MsgValue, MsgValue)], target_id: Option<i64>) -> (r: Option<&'a [(MsgValue, MsgValue)]>)
    ensures
        match r {
            Some(t) => spec_find_target(finish_common@, target_id) == Some(t@),
            None => spec_find_target(finish_common@, target_id) is None,
        },
{
    let id = match target_id {
        Some(id) => id,
        None => return None,
    };
    let list = match get_array(finish_common, "trained_chara") {
        Some(l) => l,
        None => return None,
    };
    let n = list.len();
    let mut i: usize = 0;
    assert(list@.skip(0) =~= list@);
    while i < n
        invariant
            0 <= i <= n,
            n == list@.len(),
            first_chara(list@, id) == first_chara(list@.skip(i as int), id),
            spec_get_array(finish_common@, "trained_chara"@) == Some(list@),
            target_id == Some(id),
        decreases n - i,
    {
        assert(list@.skip(i as int)[0] == list@[i as int]);
        assert(list@.skip(i as int).drop_first() =~= list@.skip(i + 1));
        match &list[i] {
            MsgValue::Dict(m) => {
                let hit = match get_i64(m.as_slice(), "trained_chara_id") {
                    Some(x) => x == id,
                    None => false,
                };
                if hit {
                    return Some(m.as_slice());
                }
            },
            _ => {},
        }
        i = i + 1;
    }
    None
}

/// The map a finish summary's per-chara fields are read from: the trained
/// chara named by `trained_chara_id`, else `chara_info`, else the packet.
pub open spec fn spec_target(fc: Seq<(MsgValue, MsgValue)>) -> Seq<(MsgValue, MsgValue)> {
    match spec_find_target(fc, spec_get_i64(fc, "trained_chara_id"@)) {
        Some(t) => t,
        None => match spec_map_get(fc, "chara_info"@) {
            Some(c) => c,
            None => fc,
        },
    }
}

/// The map the card, stats and aptitudes are read from: `chara_info`, else
/// the target.
pub open spec fn spec_chara_info(fc: Seq<(MsgValue, MsgValue)>) -> Seq<(MsgValue, MsgValue)> {
    match spec_map_get(fc, "chara_info"@) {
        Some(c) => c,
        None => spec_target(fc),
    }
}

pub open spec fn spec_aptitudes(ci: Seq<(MsgValue, MsgValue)>) -> Aptitudes {
    Aptitudes {
        short: spec_get_i64(ci, "proper_distance_short"@),
        mile: spec_get_i64(ci, "proper_distance_mile"@),
        middle: spec_get_i64(ci, "proper_distance_middle"@),
        long: spec_get_i64(ci, "proper_distance_long"@),
        front: spec_get_i64(ci, "proper_running_style_nige"@),
        pace: spec_get_i64(ci, "proper_running_style_senko"@),
        late: spec_get_i64(ci, "proper_running_style_sashi"@),
        end: spec_get_i64(ci, "proper_running_style_oikomi"@),
        turf: spec_get_i64(ci, "proper_ground_turf"@),
        dirt: spec_get_i64(ci, "proper_ground_dirt"@),
    }
}

/// The five stats, when all five are present.
pub open spec fn spec_stats(ci: Seq<(MsgValue, MsgValue)>) -> Option<Stats> {
    match (spec_get_i64(ci, "speed"@), spec_get_i64(ci, "stamina"@), spec_get_i64(ci, "power"@),
        spec_get_i64(ci, "guts"@), spec_get_i64(ci, "wiz"@)) {
        (Some(sp), Some(st), Some(pw), Some(gu), Some(wi)) => Some(Stats { speed: sp, stamina: st, power: pw, guts: gu, wit: wi }),
        _ => None,
    }
}

/// Whether a race result is a map whose `result_rank` is 1.
pub open spec fn is_win(v: MsgValue) -> bool {
    match spec_as_dict(v) {
        Some(m) => spec_get_i64(m, "result_rank"@) == Some(1i64),
        None => false,
    }
}

/// How many race results are wins.
pub open spec fn count_wins(s: Seq<MsgValue>) -> nat
    decreases s.len(),
{
    if s.len() == 0 {
        0
    } else {
        count_wins(s.drop_last()) + if is_win(s.last()) { 1nat } else { 0nat }
    }
}

pub open spec fn spec_race_list(target: Seq<(MsgValue, MsgValue)>) -> Seq<MsgValue> {
    array_or_empty(spec_get_array(target, "race_result_list"@))
}

/// `wins` when the target has it, else the number of won races.
pub open spec fn spec_wins(target: Seq<(MsgValue, MsgValue)>) -> Option<i64> {
    match spec_get_i64(target, "wins"@) {
        Some(w) => Some(w),
        None => Some(count_wins(spec_race_list(target)) as i64),
    }
}

fn count_won_races(race_list: &[MsgValue]) -> (r: usize)
    ensures
        r == count_wins(race_list@),
{
    let n = race_list.len();
    let mut c: usize = 0;
    let mut i: usize = 0;
    assert(race_list@.take(0) =~= Seq::<MsgValue>::empty());
    while i < n
        invariant
            0 <= i <= n,
            n == race_list@.len(),
            c == count_wins(race_list@.take(i as int)),
            c <= i,
        decreases n - i,
    {
        assert(race_list@.take(i + 1).drop_last() =~= race_list@.take(i as int));
        assert(race_list@.take(i + 1).last() == race_list@[i as int]);
        let won = match &race_list[i] {
            MsgValue::Dict(m) => match get_i64(m.as_slice(), "result_rank") {
                Some(x) => x == 1,
                None => false,
            },
            _ => false,
        };
        if won {
            c = c + 1;
        }
        i = i + 1;
    }
    assert(race_list@.take(n as int) =~= race_list@);
    c
}

/// The sparks of a finish summary: those of the target's own
/// `factor_info_array`.
pub open spec fn spec_summary_sparks(fc: Seq<(MsgValue, MsgValue)>) -> BreakdownView {
    spec_breakdown(spec_factor_ids(spec_target(fc), "factor_info_array"@))
}

/// `r` is the finish summary of the packet `fc`.
pub open spec fn spec_summary_of(fc: Seq<(MsgValue, MsgValue)>, r: FinishSummary) -> bool {
    let target = spec_target(fc);
    let ci = spec_chara_info(fc);
    let sparks = spec_summary_sparks(fc);
    &&& r.card_id == spec_get_i64(ci, "card_id"@)
    &&& r.scenario_id == spec_get_i64(ci, "scenario_id"@)
    &&& r.rarity == spec_get_i64(ci, "rarity"@)
    &&& r.aptitudes == Some(spec_aptitudes(ci))
    &&& r.stats == spec_stats(ci)
    &&& text_view(r.rank) == spec_rank_of(target)
    &&& r.rating == spec_get_i64(target, "rank_score"@)
    &&& r.races == Some(spec_race_list(target).len() as i64)
    &&& r.wins == spec_wins(target)
    &&& entry_view(r.stat_spark) == sparks.stat
    &&& entry_view(r.aptitude_spark) == sparks.aptitude
    &&& entry_view(r.unique_spark) == sparks.unique
    &&& skills_view(r.skill_sparks@) == sparks.skills
    &&& r.skill_array@ == spec_skill_array(target)
    &&& r.support_cards@ == spec_support_cards(target)
    &&& r.race_results@ == filter_map(spec_race_list(target), race_result_fn())
    &&& r.win_saddle_ids@ == spec_i64_array(target, "win_saddle_id_array"@)
    &&& parents_view(r.parents@) == spec_parents(target)
}

/// Reads a career-finish summary out of a `single_mode_finish_common` packet.
pub fn extract_finish_summary(finish_common: &[(MsgValue, MsgValue)]) -> (r: FinishSummary)
    ensures
        spec_summary_of(finish_common@, r),
{
    let target_id = get_i64(finish_common, "trained_chara_id");
    let target = match find_target_chara(finish_common, target_id) {
        Some(t) => t,
        None => match map_get(finish_common, "chara_info") {
            Some(c) => c,
            None => finish_common,
        },
    };
    let ci = match map_get(finish_common, "chara_info") {
        Some(c) => c,
        None => target,
    };

    let card_id = get_i64(ci, "card_id");
    let scenario_id = get_i64(ci, "scenario_id");
    let rarity = get_i64(ci, "rarity");

    let aptitudes = Some(Aptitudes {
        short: get_i64(ci, "proper_distance_short"),
        mile: get_i64(ci, "proper_distance_mile"),
        middle: get_i64(ci, "proper_distance_middle"),
        long: get_i64(ci, "proper_distance_long"),
        front: get_i64(ci, "proper_running_style_nige"),
        pace: get_i64(ci, "proper_running_style_senko"),
        late: get_i64(ci, "proper_running_style_sashi"),
        end: get_i64(ci, "proper_running_style_oikomi"),
        turf: get_i64(ci, "proper_ground_turf"),
        dirt: get_i64(ci, "proper_ground_dirt"),
    });

    let stats = match (get_i64(ci, "speed"), get_i64(ci, "stamina"), get_i64(ci, "power"),
        get_i64(ci, "guts"), get_i64(ci, "wiz")) {
        (Some(sp), Some(st), Some(pw), Some(gu), Some(wi)) => Some(Stats { speed: sp, stamina: st, power: pw, guts: gu, wit: wi }),
        _ => None,
    };

    let rank = rank_of(target);
    let rating = get_i64(target, "rank_score");

    let empty: Vec<MsgValue> = Vec::new();
    let race_list: &[MsgValue] = match get_array(target, "race_result_list") {
        Some(a) => a,
        None => empty.as_slice(),
    };
    let races = Some(race_list.len() as i64);
    let wins = match get_i64(target, "wins") {
        Some(w) => Some(w),
        None => Some(count_won_races(race_list) as i64),
    };

    let ids = extract_factor_ids(target, "factor_info_array");
    let breakdown = categorize_factor_ids(ids.as_slice());

    let skill_array = extract_skill_array(target);
    let support_cards = extract_support_cards(target);
    let race_results = extract_race_results(race_list);
    let win_saddle_ids = extract_i64_array(target, "win_saddle_id_array");
    let parents = extract_parents(target);

    FinishSummary {
        card_id,
        scenario_id,
        rarity,
        stats,
        aptitudes,
        rank,
        rating,
        races,
        wins,
        stat_spark: breakdown.stat_spark,
        aptitude_spark: breakdown.aptitude_spark,
        unique_spark: breakdown.unique_spark,
        skill_sparks: breakdown.skill_sparks,
        skill_array,
        support_cards,
        race_results,
        win_saddle_ids,
        parents,
    }
}

/// The `single_mode_finish_common` map, at the top level or under `data`.
pub open spec fn spec_find_common(entries: Seq<(MsgValue, MsgValue)>, key: Seq<char>) -> Option<Seq<(MsgValue, MsgValue)>> {
    match spec_map_get(entries, key) {
        Some(m) => Some(m),
        None => match spec_map_get(entries, "data"@) {
            Some(d) => spec_map_get(d, key),
            None => None,
        },
    }
}

fn find_common<'a>(entries: &'a [(MsgValue, MsgValue)], key: &str) -> (r: Option<&'a [(MsgValue, MsgValue)]>)
    ensures
        match r {
            Some(m) => spec_find_common(entries@, key@) == Some(m@),
            None => spec_find_common(entries@, key@) is None,
        },
{
    match map_get(entries, key) {
        Some(m) => Some(m),
        None => match map_get(entries, "data") {
            Some(d) => map_get(d, key),
            None => None,
        },
    }
}

/// The career-finish packet, at the top level or under `data`.
pub fn find_finish_common<'a>(entries: &'a [(MsgValue, MsgValue)]) -> (r: Option<&'a [(MsgValue, MsgValue)]>)
    ensures
        match r {
            Some(m) => spec_find_common(entries@, "single_mode_finish_common"@) == Some(m@),
            None => spec_find_common(entries@, "single_mode_finish_common"@) is None,
        },
{
    find_common(entries, "single_mode_finish_common")
}

/// The result of a single reroll action, at the top level or under `data`.
pub fn find_factor_lottery_common<'a>(entries: &'a [(MsgValue, MsgValue)]) -> (r: Option<&'a [(MsgValue, MsgValue)]>)
    ensures
        match r {
            Some(m) => spec_find_common(entries@, "single_mode_factor_lottery_common"@) == Some(m@),
            None => spec_find_common(entries@, "single_mode_factor_lottery_common"@) is None,
        },
{
    find_common(entries, "single_mode_factor_lottery_common")
}

/// The original, pre-reroll spark list, at the top level or under `data`.
pub fn find_factor_select_common<'a>(entries: &'a [(MsgValue, MsgValue)]) -> (r: Option<&'a [(MsgValue, MsgValue)]>)
    ensures
        match r {
            Some(m) => spec_find_common(entries@, "single_mode_factor_select_common"@) == Some(m@),
            None => spec_find_common(entries@, "single_mode_factor_select_common"@) is None,
        },
{
    find_common(entries, "single_mode_factor_select_common")
}

/// The summary's sparks as a breakdown of their own.
pub open spec fn summary_sparks_view(s: FinishSummary) -> BreakdownView {
    BreakdownView {
        stat: entry_view(s.stat_spark),
        aptitude: entry_view(s.aptitude_spark),
        unique: entry_view(s.unique_spark),
        skills: skills_view(s.skill_sparks@),
    }
}

} // verus!
