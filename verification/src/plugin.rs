//! The plugin's decisions: settings, the reroll cache, spark matching, and
//! what one intercepted response leads to.

use vstd::prelude::*;
use crate::text::{dec_digits, i64_text, i64_to_string, push_char, push_u64, str_eq};
use crate::extract::{
    BreakdownView, FactorListEntry, FinishSummary, SkillSparkEntry, SparkBreakdown, SparkEntry, entry_view,
    extract_factor_list, extract_finish_summary, factor_list_view, find_factor_lottery_common, find_factor_select_common,
    find_finish_common, skills_view, spec_factor_list, spec_find_common, spec_summary_of, spec_summary_sparks,
    summary_sparks_view,
};
use crate::worker::SubmissionKind;
use crate::msgpack::{MsgValue, parse_msgpack, spec_parse_msgpack};

verus! {

/// Unicode's White_Space property, which `char::is_whitespace` follows.
pub open spec fn is_ws(c: char) -> bool {
    let v = c as u32;
    (0x9 <= v <= 0xd) || v == 0x20 || v == 0x85 || v == 0xa0 || v == 0x1680
        || (0x2000 <= v <= 0x200a) || v == 0x2028 || v == 0x2029 || v == 0x202f
        || v == 0x205f || v == 0x3000
}

fn is_whitespace(c: char) -> (r: bool)
    ensures
        r == is_ws(c),
{
    let v = c as u32;
    (0x9 <= v && v <= 0xd) || v == 0x20 || v == 0x85 || v == 0xa0 || v == 0x1680
        || (0x2000 <= v && v <= 0x200a) || v == 0x2028 || v == 0x2029 || v == 0x202f
        || v == 0x205f || v == 0x3000
}

/// `s` without its leading whitespace.
pub open spec fn trim_start(s: Seq<char>) -> Seq<char>
    decreases s.len(),
{
    if s.len() > 0 && is_ws(s[0]) {
        trim_start(s.drop_first())
    } else {
        s
    }
}

/// `s` without its trailing whitespace.
pub open spec fn trim_end(s: Seq<char>) -> Seq<char>
    decreases s.len(),
{
    if s.len() > 0 && is_ws(s.last()) {
        trim_end(s.drop_last())
    } else {
        s
    }
}

/// `s` without leading and trailing whitespace (`str::trim`).
pub open spec fn spec_trim(s: Seq<char>) -> Seq<char> {
    trim_end(trim_start(s))
}

/// `s` without leading and trailing whitespace.
pub fn trim(s: &str) -> (r: String)
    ensures
        r@ == spec_trim(s@),
{
    let n = s.unicode_len();
    let mut i: usize = 0;
    assert(s@.skip(0) =~= s@);
    while i < n && is_whitespace(s.get_char(i))
        invariant
            0 <= i <= n,
            n == s@.len(),
            trim_start(s@) == trim_start(s@.skip(i as int)),
        decreases n - i,
    {
        assert(s@.skip(i as int).drop_first() =~= s@.skip(i + 1));
        i = i + 1;
    }
    let ghost t = s@.skip(i as int);
    assert(trim_start(s@) == t) by {
        if i < n {
            assert(!is_ws(s@[i as int]));
            assert(t[0] == s@[i as int]);
        }
    }
    let mut j: usize = n;
    assert(s@.subrange(i as int, n as int) =~= t);
    while j > i && is_whitespace(s.get_char(j - 1))
        invariant
            i <= j <= n,
            n == s@.len(),
            t == s@.skip(i as int),
            trim_end(t) == trim_end(s@.subrange(i as int, j as int)),
        decreases j,
    {
        assert(s@.subrange(i as int, j as int).drop_last() =~= s@.subrange(i as int, j - 1));
        j = j - 1;
    }
    assert(trim_end(t) == s@.subrange(i as int, j as int)) by {
        if j > i {
            assert(s@.subrange(i as int, j as int).last() == s@[j - 1]);
        }
    }
    let mut out = String::new();
    let mut k: usize = i;
    assert(out@ =~= s@.subrange(i as int, k as int));
    while k < j
        invariant
            i <= k <= j,
            j <= n,
            n == s@.len(),
            out@ == s@.subrange(i as int, k as int),
        decreases j - k,
    {
        let c = s.get_char(k);
        push_char(&mut out, c);
        assert(out@ =~= s@.subrange(i as int, k + 1));
        k = k + 1;
    }
    out
}

pub open spec fn is_digit(c: char) -> bool {
    '0' <= c <= '9'
}

/// The number written by a string of decimal digits.
pub open spec fn digits_value(s: Seq<char>) -> nat
    decreases s.len(),
{
    if s.len() == 0 {
        0
    } else {
        digits_value(s.drop_last()) * 10 + ((s.last() as u32) - 48) as nat
    }
}

pub open spec fn all_digits(s: Seq<char>) -> bool {
    forall|i: int| 0 <= i < s.len() ==> is_digit(#[trigger] s[i])
}

/// What `u64`'s `FromStr` gives: an optional `+`, then at least one decimal
/// digit and nothing else, for a number no larger than `u64::MAX`.
pub open spec fn spec_parse_u64(s: Seq<char>) -> Option<u64> {
    let body = if s.len() > 0 && s[0] == '+' { s.drop_first() } else { s };
    if body.len() > 0 && all_digits(body) && digits_value(body) <= u64::MAX {
        Some(digits_value(body) as u64)
    } else {
        None
    }
}

proof fn lemma_digits_value_monotone(s: Seq<char>, k: int)
    requires
        0 <= k <= s.len(),
        all_digits(s),
    ensures
        digits_value(s.take(k)) <= digits_value(s),
    decreases s.len() - k,
{
    if k < s.len() {
        lemma_digits_value_monotone(s, k + 1);
        assert(s.take(k + 1).drop_last() =~= s.take(k));
        assert(is_digit(s[k]));
    } else {
        assert(s.take(k) =~= s);
    }
}

/// Parses a decimal `u64` as `u64`'s `FromStr` does.
pub fn parse_u64(s: &str) -> (r: Option<u64>)
    ensures
        r == spec_parse_u64(s@),
{
    let n = s.unicode_len();
    let mut start: usize = 0;
    if n > 0 && s.get_char(0) == '+' {
        start = 1;
    }
    let ghost body = if s@.len() > 0 && s@[0] == '+' { s@.drop_first() } else { s@ };
    assert(body =~= s@.skip(start as int));
    if start >= n {
        return None;
    }
    let mut acc: u64 = 0;
    let mut i: usize = start;
    assert(body.take(0) =~= Seq::<char>::empty());
    while i < n
        invariant
            start <= i <= n,
            n == s@.len(),
            body == s@.skip(start as int),
            body == (if s@.len() > 0 && s@[0] == '+' { s@.drop_first() } else { s@ }),
            body.len() > 0,
            all_digits(body.take(i - start)),
            acc as nat == digits_value(body.take(i - start)),
        decreases n - i,
    {
        let c = s.get_char(i);
        assert(body[i - start] == c);
        if !('0' <= c && c <= '9') {
            assert(!is_digit(body[i - start]));
            return None;
        }
        let d: u64 = (c as u32 - 48) as u64;
        assert(body.take(i - start + 1).drop_last() =~= body.take(i - start));
        assert(body.take(i - start + 1).last() == c);
        assert(all_digits(body.take(i - start + 1))) by {
            assert forall|q: int| 0 <= q < i - start + 1 implies is_digit(#[trigger] body.take(i - start + 1)[q]) by {
                if q < i - start {
                    assert(body.take(i - start + 1)[q] == body.take(i - start)[q]);
                }
            }
        }
        match acc.checked_mul(10) {
            Some(m) => match m.checked_add(d) {
                Some(v) => {
                    acc = v;
                },
                None => {
                    proof {
                        if all_digits(body) {
                            lemma_digits_value_monotone(body, i - start + 1);
                        }
                    }
                    return None;
                },
            },
            None => {
                proof {
                    if all_digits(body) {
                        lemma_digits_value_monotone(body, i - start + 1);
                    }
                }
                return None;
            },
        }
        i = i + 1;
    }
    assert(body.take(n - start) =~= body);
    Some(acc)
}


/// The settings read from `SparkCollectPlugin/config.properties`: a map from
/// key to value, each key held once.
pub struct Config {
    entries: Vec<(String, String)>,
}

/// The value of the first entry whose key is `key`.
pub open spec fn config_lookup(entries: Seq<(String, String)>, key: Seq<char>) -> Option<Seq<char>>
    decreases entries.len(),
{
    if entries.len() == 0 {
        None
    } else if entries[0].0@ == key {
        Some(entries[0].1@)
    } else {
        config_lookup(entries.drop_first(), key)
    }
}

proof fn lemma_lookup_at(s: Seq<(String, String)>, key: Seq<char>, i: int)
    requires
        0 <= i < s.len(),
        s[i].0@ == key,
        forall|j: int| 0 <= j < i ==> (#[trigger] s[j]).0@ != key,
    ensures
        config_lookup(s, key) == Some(s[i].1@),
    decreases i,
{
    if i > 0 {
        assert forall|j: int| 0 <= j < i - 1 implies (#[trigger] s.drop_first()[j]).0@ != key by {
            assert(s.drop_first()[j] == s[j + 1]);
        }
        lemma_lookup_at(s.drop_first(), key, i - 1);
    }
}

proof fn lemma_lookup_absent(s: Seq<(String, String)>, key: Seq<char>)
    requires
        forall|j: int| 0 <= j < s.len() ==> (#[trigger] s[j]).0@ != key,
    ensures
        config_lookup(s, key) is None,
    decreases s.len(),
{
    if s.len() > 0 {
        assert forall|j: int| 0 <= j < s.len() - 1 implies (#[trigger] s.drop_first()[j]).0@ != key by {
            assert(s.drop_first()[j] == s[j + 1]);
        }
        lemma_lookup_absent(s.drop_first(), key);
    }
}

proof fn lemma_lookup_congruent(s: Seq<(String, String)>, t: Seq<(String, String)>, key: Seq<char>)
    requires
        s.len() == t.len(),
        forall|i: int| 0 <= i < s.len() ==> ((#[trigger] s[i]).0@ == key <==> t[i].0@ == key),
        forall|i: int| 0 <= i < s.len() && (#[trigger] s[i]).0@ == key ==> s[i].1@ == t[i].1@,
    ensures
        config_lookup(s, key) == config_lookup(t, key),
    decreases s.len(),
{
    if s.len() > 0 {
        assert(s[0].0@ == key <==> t[0].0@ == key);
        assert forall|i: int| 0 <= i < s.len() - 1 implies ((#[trigger] s.drop_first()[i]).0@ == key <==> t.drop_first()[i].0@ == key) by {
            assert(s.drop_first()[i] == s[i + 1]);
            assert(t.drop_first()[i] == t[i + 1]);
        }
        assert forall|i: int| 0 <= i < s.len() - 1 && (#[trigger] s.drop_first()[i]).0@ == key implies s.drop_first()[i].1@ == t.drop_first()[i].1@ by {
            assert(s.drop_first()[i] == s[i + 1]);
            assert(t.drop_first()[i] == t[i + 1]);
        }
        lemma_lookup_congruent(s.drop_first(), t.drop_first(), key);
    }
}

proof fn lemma_lookup_push(s: Seq<(String, String)>, x: (String, String), key: Seq<char>)
    requires
        x.0@ != key,
    ensures
        config_lookup(s.push(x), key) == config_lookup(s, key),
    decreases s.len(),
{
    if s.len() > 0 {
        assert(s.push(x).drop_first() =~= s.drop_first().push(x));
        assert(s.push(x)[0] == s[0]);
        lemma_lookup_push(s.drop_first(), x, key);
        assert(s.push(x).len() > 0);
        if s[0].0@ != key {
            assert(config_lookup(s.push(x), key) == config_lookup(s.push(x).drop_first(), key));
            assert(config_lookup(s, key) == config_lookup(s.drop_first(), key));
        }
    } else {
        assert(s.push(x).drop_first() =~= Seq::<(String, String)>::empty());
        assert(s.push(x)[0] == x);
        assert(s.push(x).len() == 1);
        assert(config_lookup(s.push(x), key) == config_lookup(s.push(x).drop_first(), key));
    }
}

impl Config {
    /// The value under `key`.
    pub closed spec fn lookup(&self, key: Seq<char>) -> Option<Seq<char>> {
        config_lookup(self.entries@, key)
    }

    /// Each key is held once.
    pub closed spec fn wf(&self) -> bool {
        forall|i: int, j: int| 0 <= i < j < self.entries@.len() ==> (#[trigger] self.entries@[i]).0@ != (#[trigger] self.entries@[j]).0@
    }

    /// No settings.
    pub fn new() -> (r: Config)
        ensures
            r.wf(),
            forall|k: Seq<char>| r.lookup(k) is None,
    {
        Config { entries: Vec::new() }
    }

    /// Sets `key` to `value`, replacing any value it had.
    pub fn insert(&mut self, key: String, value: String)
        requires
            old(self).wf(),
        ensures
            final(self).wf(),
            final(self).lookup(key@) == Some(value@),
            forall|k: Seq<char>| k != key@ ==> final(self).lookup(k) == old(self).lookup(k),
    {
        let n = self.entries.len();
        let mut i: usize = 0;
        while i < n
            invariant
                0 <= i <= n,
                n == self.entries@.len(),
                self.entries@ == old(self).entries@,
                old(self).wf(),
                forall|j: int| 0 <= j < i ==> (#[trigger] self.entries@[j]).0@ != key@,
            decreases n - i,
        {
            if self.entries[i].0.eq(&key) {
                let ghost before = self.entries@;
                let ghost kv = key@;
                let ghost vv = value@;
                self.entries.set(i, (key, value));
                proof {
                    let after = self.entries@;
                    assert(after[i as int].0@ == kv);
                    assert forall|j: int| 0 <= j < i implies (#[trigger] after[j]).0@ != kv by {
                        assert(after[j] == before[j]);
                    }
                    lemma_lookup_at(after, kv, i as int);
                    assert forall|k: Seq<char>| k != kv implies config_lookup(after, k) == config_lookup(before, k) by {
                        assert forall|q: int| 0 <= q < before.len() implies ((#[trigger] before[q]).0@ == k <==> after[q].0@ == k) by {
                            if q != i {
                                assert(after[q] == before[q]);
                            }
                        }
                        assert forall|q: int| 0 <= q < before.len() && (#[trigger] before[q]).0@ == k implies before[q].1@ == after[q].1@ by {
                            if q != i {
                                assert(after[q] == before[q]);
                            }
                        }
                        lemma_lookup_congruent(before, after, k);
                    }
                    assert forall|a: int, b: int| 0 <= a < b < after.len() implies (#[trigger] after[a]).0@ != (#[trigger] after[b]).0@ by {
                        assert(before[a].0@ != before[b].0@);
                        if a != i {
                            assert(after[a] == before[a]);
                        }
                        if b != i {
                            assert(after[b] == before[b]);
                        }
                    }
                }
                return;
            }
            i = i + 1;
        }
        let ghost before = self.entries@;
        let ghost kv = key@;
        let ghost vv = value@;
        self.entries.push((key, value));
        proof {
            let after = self.entries@;
            assert(after == before.push(after[n as int]));
            assert(after[n as int].0@ == kv);
            assert forall|j: int| 0 <= j < n implies (#[trigger] after[j]).0@ != kv by {
                assert(after[j] == before[j]);
            }
            lemma_lookup_at(after, kv, n as int);
            assert forall|k: Seq<char>| k != kv implies config_lookup(after, k) == config_lookup(before, k) by {
                lemma_lookup_push(before, after[n as int], k);
            }
            assert forall|a: int, b: int| 0 <= a < b < after.len() implies (#[trigger] after[a]).0@ != (#[trigger] after[b]).0@ by {
                if b == n {
                    assert(after[a] == before[a]);
                } else {
                    assert(after[a] == before[a]);
                    assert(after[b] == before[b]);
                }
            }
        }
    }
}

/// The key-value map that `java_properties::read` reads from the bytes of a
/// properties file (keys and values decoded as that crate decodes them);
/// `None` where it reports an error.
pub uninterp spec fn properties_of(bytes: Seq<u8>) -> Option<Map<Seq<char>, Seq<char>>>;

/// The value under `k` in a map of settings.
pub open spec fn map_value(m: Map<Seq<char>, Seq<char>>, k: Seq<char>) -> Option<Seq<char>> {
    if m.dom().contains(k) { Some(m[k]) } else { None }
}

/// Calls `java_properties::read` on `bytes` and lists the map's entries. The
/// entries come in the map's iteration order, which nothing here states;
/// each key comes once, and the entries are exactly the map's. (The crate
/// panics only where its line pattern fails to match a line, which its
/// source notes cannot happen.)
#[verifier::external_body]
fn read_properties(bytes: &[u8]) -> (r: Option<Vec<(String, String)>>)
    ensures
        match r {
            Some(v) => properties_of(bytes@) matches Some(m)
                && (forall|i: int, j: int| 0 <= i < j < v@.len() ==> (#[trigger] v@[i]).0@ != (#[trigger] v@[j]).0@)
                && forall|k: Seq<char>| #[trigger] config_lookup(v@, k) == map_value(m, k),
            None => properties_of(bytes@) is None,
        },
{
    java_properties::read(bytes).ok().map(|m| m.into_iter().collect())
}

/// The settings of a properties file's bytes: what `java_properties` reads
/// from them, or no settings where it reports an error.
pub fn load_config(bytes: &[u8]) -> (r: Config)
    ensures
        r.wf(),
        forall|k: Seq<char>| r.lookup(k) == match properties_of(bytes@) {
            Some(m) => map_value(m, k),
            None => None,
        },
{
    let mut config = Config::new();
    let pairs = match read_properties(bytes) {
        Some(v) => v,
        None => return config,
    };
    let ghost ps = pairs@;
    let mut rest = pairs;
    let n = rest.len();
    let mut i: usize = 0;
    assert(ps.skip(0) =~= ps);
    while i < n
        invariant
            0 <= i <= n,
            n == ps.len(),
            rest@ == ps.skip(i as int),
            config.wf(),
            forall|a: int, b: int| 0 <= a < b < ps.len() ==> (#[trigger] ps[a]).0@ != (#[trigger] ps[b]).0@,
            forall|k: Seq<char>| config.lookup(k) == config_lookup(ps.take(i as int), k),
        decreases n - i,
    {
        let ghost before = rest@;
        let (key, value) = rest.remove(0);
        assert(rest@ =~= ps.skip(i + 1));
        assert((key, value) == ps[i as int]);
        let ghost kv = key@;
        config.insert(key, value);
        proof {
            assert(ps.take(i + 1) =~= ps.take(i as int).push(ps[i as int]));
            assert forall|j: int| 0 <= j < i implies (#[trigger] ps.take(i + 1)[j]).0@ != kv by {
                assert(ps.take(i + 1)[j] == ps[j]);
            }
            lemma_lookup_at(ps.take(i + 1), kv, i as int);
            assert forall|k: Seq<char>| k != kv implies config_lookup(ps.take(i + 1), k) == config_lookup(ps.take(i as int), k) by {
                lemma_lookup_push(ps.take(i as int), ps[i as int], k);
            }
        }
        i = i + 1;
    }
    assert(ps.take(n as int) =~= ps);
    config
}

/// A setting: its value without surrounding whitespace, when that is not
/// empty.
pub open spec fn spec_cfg(config: Config, key: Seq<char>) -> Option<Seq<char>> {
    match config.lookup(key) {
        Some(v) => if spec_trim(v).len() == 0 { None } else { Some(spec_trim(v)) },
        None => None,
    }
}

/// A setting: its value without surrounding whitespace, when that is not
/// empty.
pub fn cfg(config: &Config, key: &str) -> (r: Option<String>)
    ensures
        match r {
            Some(v) => spec_cfg(*config, key@) == Some(v@),
            None => spec_cfg(*config, key@) is None,
        },
{
    let k = key.to_owned();
    let n = config.entries.len();
    let mut i: usize = 0;
    assert(config.entries@.skip(0) =~= config.entries@);
    while i < n
        invariant
            0 <= i <= n,
            n == config.entries@.len(),
            k@ == key@,
            config_lookup(config.entries@, key@) == config_lookup(config.entries@.skip(i as int), key@),
        decreases n - i,
    {
        let e = &config.entries[i];
        assert(config.entries@.skip(i as int)[0] == config.entries@[i as int]);
        if e.0.eq(&k) {
            let t = trim(e.1.as_str());
            if t.unicode_len() == 0 {
                return None;
            }
            return Some(t);
        }
        assert(config.entries@.skip(i as int).drop_first() =~= config.entries@.skip(i + 1));
        i = i + 1;
    }
    None
}

/// A numeric setting in seconds: the setting when it parses as a `u64`,
/// else `default`.
pub open spec fn spec_secs_setting(config: Config, key: Seq<char>, default: u64) -> u64 {
    match spec_cfg(config, key) {
        Some(v) => match spec_parse_u64(v) {
            Some(n) => n,
            None => default,
        },
        None => default,
    }
}

fn secs_setting(config: &Config, key: &str, default: u64) -> (r: u64)
    ensures
        r == spec_secs_setting(*config, key@, default),
{
    match cfg(config, key) {
        Some(v) => match parse_u64(v.as_str()) {
            Some(n) => n,
            None => default,
        },
        None => default,
    }
}

/// Minimum seconds between two submitted career finishes.
pub const DEFAULT_COOLDOWN_SECS: u64 = 30;

/// How long a cached reroll snapshot stays valid while waiting for the
/// career's finish. A career takes real playtime end to end, and a reroll
/// fires seconds before the career's own finish, so ten minutes covers every
/// legitimate case.
pub const DEFAULT_FACTOR_CACHE_MAX_AGE_SECS: u64 = 600;

/// The cooldown in seconds: `cooldown_seconds`, else 30.
pub fn cooldown(config: &Config) -> (r: u64)
    ensures
        r == spec_secs_setting(*config, "cooldown_seconds"@, DEFAULT_COOLDOWN_SECS),
{
    secs_setting(config, "cooldown_seconds", DEFAULT_COOLDOWN_SECS)
}

/// The longest age of a usable reroll snapshot in seconds:
/// `factor_cache_max_age_seconds`, else 600.
pub fn max_factor_cache_age(config: &Config) -> (r: u64)
    ensures
        r == spec_secs_setting(*config, "factor_cache_max_age_seconds"@, DEFAULT_FACTOR_CACHE_MAX_AGE_SECS),
{
    secs_setting(config, "factor_cache_max_age_seconds", DEFAULT_FACTOR_CACHE_MAX_AGE_SECS)
}

/// The personal token a submission needs, when one is configured.
pub fn require_token(config: &Config) -> (r: Option<String>)
    ensures
        match r {
            Some(v) => spec_cfg(*config, "token"@) == Some(v@),
            None => spec_cfg(*config, "token"@) is None,
        },
{
    cfg(config, "token")
}


/// The star count of an optional spark.
pub open spec fn stars_of(e: Option<(Seq<char>, i64)>) -> Option<i64> {
    match e {
        Some((_, stars)) => Some(stars),
        None => None,
    }
}

/// Two breakdowns are the same committed spark set: the same stat and
/// aptitude spark (name and stars), the same unique spark star count, and
/// the same set of white sparks (type, id, stars), whatever their order or
/// repetition.
pub open spec fn spec_sparks_match(a: BreakdownView, b: BreakdownView) -> bool {
    &&& a.stat == b.stat
    &&& a.aptitude == b.aptitude
    &&& stars_of(a.unique) == stars_of(b.unique)
    &&& a.skills.to_set() == b.skills.to_set()
}

fn entry_eq(a: &Option<SparkEntry>, b: &Option<SparkEntry>) -> (r: bool)
    ensures
        r == (entry_view(*a) == entry_view(*b)),
{
    match (a, b) {
        (Some(x), Some(y)) => x.name.eq(&y.name) && x.stars == y.stars,
        (None, None) => true,
        _ => false,
    }
}

fn skill_eq(a: &SkillSparkEntry, b: &SkillSparkEntry) -> (r: bool)
    ensures
        r == (a@ == b@),
{
    str_eq(a.spark_type, b.spark_type) && a.spark_id == b.spark_id && a.stars == b.stars
}

/// Whether `x` occurs among `items`.
fn contains_skill(items: &[SkillSparkEntry], x: &SkillSparkEntry) -> (r: bool)
    ensures
        r == skills_view(items@).contains(x@),
{
    let ghost sv = skills_view(items@);
    let n = items.len();
    let mut i: usize = 0;
    while i < n
        invariant
            0 <= i <= n,
            n == items@.len(),
            sv == skills_view(items@),
            forall|k: int| 0 <= k < i ==> sv[k] != x@,
        decreases n - i,
    {
        assert(sv[i as int] == items@[i as int]@);
        if skill_eq(&items[i], x) {
            return true;
        }
        i = i + 1;
    }
    false
}

/// Whether every white spark of `a` occurs in `b`.
fn skills_within(a: &[SkillSparkEntry], b: &[SkillSparkEntry]) -> (r: bool)
    ensures
        r == (forall|x: (Seq<char>, i64, i64)| skills_view(a@).contains(x) ==> skills_view(b@).contains(x)),
{
    let ghost va = skills_view(a@);
    let ghost vb = skills_view(b@);
    let n = a.len();
    let mut i: usize = 0;
    while i < n
        invariant
            0 <= i <= n,
            n == a@.len(),
            va == skills_view(a@),
            vb == skills_view(b@),
            forall|k: int| 0 <= k < i ==> vb.contains(#[trigger] va[k]),
        decreases n - i,
    {
        assert(va[i as int] == a@[i as int]@);
        if !contains_skill(b, &a[i]) {
            assert(va.contains(va[i as int]));
            return false;
        }
        i = i + 1;
    }
    assert forall|x: (Seq<char>, i64, i64)| va.contains(x) implies vb.contains(x) by {
        let k = choose|k: int| 0 <= k < va.len() && va[k] == x;
        assert(vb.contains(va[k]));
    }
    true
}

/// True iff two spark breakdowns represent the same committed spark set:
/// stat and aptitude compared by (name, stars), unique by stars, white
/// sparks by set equality over (type, id, stars) regardless of order.
pub fn sparks_match(a: &SparkBreakdown, b: &SparkBreakdown) -> (r: bool)
    ensures
        r == spec_sparks_match(a@, b@),
{
    if !entry_eq(&a.stat_spark, &b.stat_spark) {
        return false;
    }
    if !entry_eq(&a.aptitude_spark, &b.aptitude_spark) {
        return false;
    }
    let ua = match &a.unique_spark {
        Some(u) => Some(u.stars),
        None => None,
    };
    let ub = match &b.unique_spark {
        Some(u) => Some(u.stars),
        None => None,
    };
    let same_unique = match (ua, ub) {
        (Some(x), Some(y)) => x == y,
        (None, None) => true,
        _ => false,
    };
    if !same_unique {
        return false;
    }
    let sa = a.skill_sparks.as_slice();
    let sb = b.skill_sparks.as_slice();
    let ghost va = skills_view(sa@);
    let ghost vb = skills_view(sb@);
    let ab = skills_within(sa, sb);
    let ba = skills_within(sb, sa);
    if ab && ba {
        assert(va.to_set() =~= vb.to_set());
        true
    } else {
        if !ab {
            let ghost x = choose|x: (Seq<char>, i64, i64)| va.contains(x) && !vb.contains(x);
            assert(va.to_set().contains(x) && !vb.to_set().contains(x));
        } else {
            let ghost x = choose|x: (Seq<char>, i64, i64)| vb.contains(x) && !va.contains(x);
            assert(vb.to_set().contains(x) && !va.to_set().contains(x));
        }
        false
    }
}


/// The most recent reroll snapshot, with the time it was taken (nanoseconds
/// on the host's monotonic clock) and the kind of packet it came from. The
/// game's own `factor_select_info_array` accumulates every candidate of one
/// reroll sequence, so each new packet replaces the snapshot wholesale.
pub struct FactorCache {
    pub entries: Vec<FactorListEntry>,
    pub updated_at: u128,
    pub kind: SubmissionKind,
}

/// What the plugin remembers between responses.
pub struct PluginState {
    /// When the last career finish was let through the cooldown.
    pub last_notified: Option<u128>,
    pub factor_cache: Option<FactorCache>,
    /// The lottery ids of every reroll candidate submitted so far.
    pub sent_lottery_ids: Vec<i64>,
}

/// Nanoseconds from `since` to `now`, zero when `now` is earlier
/// (`Instant::duration_since`).
pub open spec fn elapsed(since: u128, now: u128) -> int {
    if now >= since { now - since } else { 0 }
}

/// Whether `elapsed` nanoseconds are at most `secs` seconds.
pub open spec fn within_secs(elapsed: int, secs: u64) -> bool {
    elapsed <= secs as int * 1_000_000_000
}

fn elapsed_within(since: u128, now: u128, secs: u64) -> (r: bool)
    ensures
        r == within_secs(elapsed(since, now), secs),
{
    let e: u128 = if now >= since { now - since } else { 0 };
    let limit: u128 = secs as u128 * 1_000_000_000;
    e <= limit
}

/// The snapshot entries a finish may use: those of a snapshot no older than
/// `max_age` seconds, else none.
pub open spec fn valid_cached(cache: Option<FactorCache>, now: u128, max_age: u64) -> Seq<(Option<i64>, BreakdownView)> {
    match cache {
        Some(c) => if within_secs(elapsed(c.updated_at, now), max_age) {
            factor_list_view(c.entries@)
        } else {
            Seq::empty()
        },
        None => Seq::empty(),
    }
}

/// The kind of packet the snapshot came from.
pub open spec fn cache_kind(cache: Option<FactorCache>) -> SubmissionKind {
    match cache {
        Some(c) => c.kind,
        None => SubmissionKind::FactorLottery,
    }
}

/// Takes the cached reroll candidates for use by a finish event, clearing
/// the cache in every case, and keeps them only while fresh.
pub fn take_valid_factor_cache(cache: &mut Option<FactorCache>, config: &Config, now: u128) -> (r: Vec<FactorListEntry>)
    ensures
        *final(cache) is None,
        factor_list_view(r@) == valid_cached(*old(cache), now, spec_secs_setting(*config, "factor_cache_max_age_seconds"@, DEFAULT_FACTOR_CACHE_MAX_AGE_SECS)),
{
    let max_age = max_factor_cache_age(config);
    match cache.take() {
        Some(c) => {
            if elapsed_within(c.updated_at, now, max_age) {
                c.entries
            } else {
                let r: Vec<FactorListEntry> = Vec::new();
                assert(factor_list_view(r@) =~= Seq::empty());
                r
            }
        },
        None => {
            let r: Vec<FactorListEntry> = Vec::new();
            assert(factor_list_view(r@) =~= Seq::empty());
            r
        },
    }
}

/// The candidates a finish may still submit, and the lottery ids sent once
/// they are: a candidate goes when it has no lottery id, or one not sent
/// before (earlier in the list included); each id that goes is recorded.
pub open spec fn fresh_split(cands: Seq<(Option<i64>, BreakdownView)>, sent: Seq<i64>) -> (Seq<(Option<i64>, BreakdownView)>, Seq<i64>)
    decreases cands.len(),
{
    if cands.len() == 0 {
        (Seq::empty(), sent)
    } else {
        let prev = fresh_split(cands.drop_last(), sent);
        let c = cands.last();
        match c.0 {
            Some(id) => if prev.1.contains(id) { prev } else { (prev.0.push(c), prev.1.push(id)) },
            None => (prev.0.push(c), prev.1),
        }
    }
}

fn contains_id(ids: &Vec<i64>, id: i64) -> (r: bool)
    ensures
        r == ids@.contains(id),
{
    let n = ids.len();
    let mut i: usize = 0;
    while i < n
        invariant
            0 <= i <= n,
            n == ids@.len(),
            forall|k: int| 0 <= k < i ==> ids@[k] != id,
        decreases n - i,
    {
        if ids[i] == id {
            return true;
        }
        i = i + 1;
    }
    false
}

/// Removes and returns the first candidate.
fn pop_front(rest: &mut Vec<FactorListEntry>) -> (r: FactorListEntry)
    requires
        old(rest)@.len() > 0,
    ensures
        r@ == factor_list_view(old(rest)@)[0],
        factor_list_view(final(rest)@) == factor_list_view(old(rest)@).drop_first(),
{
    let ghost before = rest@;
    let c = rest.remove(0);
    assert(factor_list_view(before)[0] == before[0]@);
    assert forall|k: int| 0 <= k < rest@.len() implies #[trigger] factor_list_view(rest@)[k] == factor_list_view(before).drop_first()[k] by {
        assert(rest@[k] == before[k + 1]);
        assert(factor_list_view(before)[k + 1] == before[k + 1]@);
    }
    assert(factor_list_view(rest@) =~= factor_list_view(before).drop_first());
    c
}

/// The candidates not submitted before, recording their lottery ids in `sent`.
fn take_fresh(cands: Vec<FactorListEntry>, sent: &mut Vec<i64>) -> (r: Vec<FactorListEntry>)
    ensures
        factor_list_view(r@) == fresh_split(factor_list_view(cands@), old(sent)@).0,
        final(sent)@ == fresh_split(factor_list_view(cands@), old(sent)@).1,
{
    let ghost cv = factor_list_view(cands@);
    let ghost s0 = sent@;
    let n = cands.len();
    let mut rest = cands;
    let mut kept: Vec<FactorListEntry> = Vec::new();
    let mut i: usize = 0;
    assert(cv.take(0) =~= Seq::<(Option<i64>, BreakdownView)>::empty());
    assert(factor_list_view(kept@) =~= Seq::<(Option<i64>, BreakdownView)>::empty());
    while i < n
        invariant
            0 <= i <= n,
            n == cv.len(),
            factor_list_view(rest@) == cv.skip(i as int),
            factor_list_view(kept@) == fresh_split(cv.take(i as int), s0).0,
            sent@ == fresh_split(cv.take(i as int), s0).1,
        decreases n - i,
    {
        assert(factor_list_view(rest@).len() == rest@.len());
        let c = pop_front(&mut rest);
        assert(cv.skip(i as int).drop_first() =~= cv.skip(i + 1));
        assert(c@ == cv[i as int]);
        assert(cv.take(i + 1).drop_last() =~= cv.take(i as int));
        assert(cv.take(i + 1).last() == cv[i as int]);
        let ghost before = kept@;
        match c.lottery_id {
            Some(id) => {
                if !contains_id(sent, id) {
                    sent.push(id);
                    kept.push(c);
                    assert(factor_list_view(kept@) =~= factor_list_view(before).push(c@));
                }
            },
            None => {
                kept.push(c);
                assert(factor_list_view(kept@) =~= factor_list_view(before).push(c@));
            },
        }
        i = i + 1;
    }
    assert(cv.take(n as int) =~= cv);
    kept
}

/// Whether a finish arriving at `now` falls within the cooldown of the last
/// one let through.
pub open spec fn cooling_down(last: Option<u128>, now: u128, cooldown_secs: u64) -> bool {
    match last {
        Some(t) => elapsed(t, now) < cooldown_secs as int * 1_000_000_000,
        None => false,
    }
}

/// Whether a breakdown holds any spark that marks a completed run.
pub open spec fn has_sparks(b: BreakdownView) -> bool {
    b.stat is Some || b.aptitude is Some || b.skills.len() > 0
}

/// The tag of the `i`-th candidate: its lottery id, else `i` and its index.
pub open spec fn tag_text(lottery_id: Option<i64>, i: int) -> Seq<char> {
    match lottery_id {
        Some(id) => i64_text(id),
        None => seq!['i'] + dec_digits(i as nat),
    }
}

/// One submission of a finish that followed rerolls.
pub struct VariantPlan {
    pub lottery_id: Option<i64>,
    pub is_selected: bool,
    pub tag: String,
    pub sparks: SparkBreakdown,
    pub kind: SubmissionKind,
}

impl View for VariantPlan {
    type V = (Option<i64>, bool, Seq<char>, BreakdownView, SubmissionKind);

    open spec fn view(&self) -> (Option<i64>, bool, Seq<char>, BreakdownView, SubmissionKind) {
        (self.lottery_id, self.is_selected, self.tag@, self.sparks@, self.kind)
    }
}

pub open spec fn plans_view(s: Seq<VariantPlan>) -> Seq<(Option<i64>, bool, Seq<char>, BreakdownView, SubmissionKind)> {
    s.map_values(|p: VariantPlan| p@)
}

/// The first candidate from index `k` on whose sparks match `committed`.
pub open spec fn first_match_from(cands: Seq<(Option<i64>, BreakdownView)>, committed: BreakdownView, k: nat) -> Option<int>
    decreases cands.len() - k,
{
    if k >= cands.len() {
        None
    } else if spec_sparks_match(cands[k as int].1, committed) {
        Some(k as int)
    } else {
        first_match_from(cands, committed, k + 1)
    }
}

/// The submissions of a finish that followed rerolls: one per candidate, in
/// order, of the snapshot's `kind`, tagged by its lottery id (else its index)
/// and selected when it is the first whose sparks match the committed ones;
/// then, only when none matches and the finish's own row may go, one more
/// for the committed sparks, of kind "finish", tagged "committed" and
/// selected.
pub open spec fn variant_plan(cands: Seq<(Option<i64>, BreakdownView)>, committed: BreakdownView, kind: SubmissionKind, with_committed: bool) -> Seq<(Option<i64>, bool, Seq<char>, BreakdownView, SubmissionKind)> {
    let m = first_match_from(cands, committed, 0);
    let per = Seq::new(cands.len(), |i: int| (cands[i].0, m == Some(i), tag_text(cands[i].0, i), cands[i].1, kind));
    if m is None && with_committed {
        per.push((None, true, "committed"@, committed, SubmissionKind::Finish))
    } else {
        per
    }
}


fn clone_entry(e: &Option<SparkEntry>) -> (r: Option<SparkEntry>)
    ensures
        entry_view(r) == entry_view(*e),
{
    match e {
        Some(x) => Some(SparkEntry { name: x.name.clone(), stars: x.stars }),
        None => None,
    }
}

/// A copy of the summary's committed sparks.
pub fn committed_sparks(summary: &FinishSummary) -> (r: SparkBreakdown)
    ensures
        r@ == summary_sparks_view(*summary),
{
    let items = summary.skill_sparks.as_slice();
    let mut skills: Vec<SkillSparkEntry> = Vec::new();
    let n = items.len();
    let mut i: usize = 0;
    while i < n
        invariant
            0 <= i <= n,
            n == items@.len(),
            skills@ =~= items@.take(i as int),
        decreases n - i,
    {
        skills.push(items[i]);
        assert(items@.take(i + 1) =~= items@.take(i as int).push(items@[i as int]));
        i = i + 1;
    }
    assert(items@.take(n as int) =~= items@);
    SparkBreakdown {
        stat_spark: clone_entry(&summary.stat_spark),
        aptitude_spark: clone_entry(&summary.aptitude_spark),
        unique_spark: clone_entry(&summary.unique_spark),
        skill_sparks: skills,
    }
}

fn variant_tag(lottery_id: Option<i64>, i: usize) -> (r: String)
    ensures
        r@ == tag_text(lottery_id, i as int),
{
    match lottery_id {
        Some(id) => i64_to_string(id),
        None => {
            let mut s = String::new();
            push_char(&mut s, 'i');
            push_u64(&mut s, i as u64);
            assert(s@ =~= seq!['i'] + dec_digits(i as nat));
            s
        },
    }
}

/// Index of the first candidate whose sparks match the committed ones.
fn first_match(cands: &Vec<FactorListEntry>, committed: &SparkBreakdown) -> (r: Option<usize>)
    ensures
        match r {
            Some(i) => first_match_from(factor_list_view(cands@), committed@, 0) == Some(i as int),
            None => first_match_from(factor_list_view(cands@), committed@, 0) is None,
        },
{
    let ghost cv = factor_list_view(cands@);
    let n = cands.len();
    let mut i: usize = 0;
    while i < n
        invariant
            0 <= i <= n,
            n == cands@.len(),
            cv == factor_list_view(cands@),
            first_match_from(cv, committed@, 0) == first_match_from(cv, committed@, i as nat),
        decreases n - i,
    {
        assert(cv[i as int] == cands@[i as int]@);
        if sparks_match(&cands[i].sparks, committed) {
            return Some(i);
        }
        i = i + 1;
    }
    None
}

/// The submissions of a finish that followed rerolls.
pub fn plan_variants(cands: Vec<FactorListEntry>, committed: SparkBreakdown, kind: SubmissionKind, with_committed: bool) -> (r: Vec<VariantPlan>)
    ensures
        plans_view(r@) == variant_plan(factor_list_view(cands@), committed@, kind, with_committed),
{
    let ghost cv = factor_list_view(cands@);
    let ghost m = first_match_from(cv, committed@, 0);
    let ghost per = Seq::new(cv.len(), |i: int| (cv[i].0, m == Some(i), tag_text(cv[i].0, i), cv[i].1, kind));
    let matched = first_match(&cands, &committed);
    let n = cands.len();
    let mut rest = cands;
    let mut plans: Vec<VariantPlan> = Vec::new();
    let mut i: usize = 0;
    assert(plans_view(plans@) =~= per.take(0));
    while i < n
        invariant
            0 <= i <= n,
            n == cv.len(),
            factor_list_view(rest@) == cv.skip(i as int),
            plans_view(plans@) == per.take(i as int),
            per == Seq::new(cv.len(), |i: int| (cv[i].0, m == Some(i), tag_text(cv[i].0, i), cv[i].1, kind)),
            match matched {
                Some(k) => m == Some(k as int),
                None => m is None,
            },
        decreases n - i,
    {
        assert(factor_list_view(rest@).len() == rest@.len());
        let c = pop_front(&mut rest);
        assert(cv.skip(i as int).drop_first() =~= cv.skip(i + 1));
        assert(c@ == cv[i as int]);
        let is_selected = match matched {
            Some(k) => k == i,
            None => false,
        };
        let tag = variant_tag(c.lottery_id, i);
        let plan = VariantPlan { lottery_id: c.lottery_id, is_selected, tag, sparks: c.sparks, kind };
        let ghost before = plans@;
        plans.push(plan);
        assert(plans_view(plans@) =~= plans_view(before).push(plan@));
        assert(plan@ == per[i as int]);
        assert(per.take(i + 1) =~= per.take(i as int).push(per[i as int]));
        i = i + 1;
    }
    assert(per.take(n as int) =~= per);
    if matched.is_none() && with_committed {
        let plan = VariantPlan {
            lottery_id: None,
            is_selected: true,
            tag: "committed".to_owned(),
            sparks: committed,
            kind: SubmissionKind::Finish,
        };
        let ghost before = plans@;
        plans.push(plan);
        assert(plans_view(plans@) =~= plans_view(before).push(plan@));
    }
    plans
}

/// What a career-finish packet leads to.
pub enum FinishDecision {
    /// Within the cooldown of the last finish let through, with no reroll
    /// candidate left to submit: nothing happens.
    CoolingDown,
    /// The summary carries no spark (the run is not complete).
    NoSparks,
    /// No token is configured, so nothing can be submitted.
    NoToken,
    /// No reroll candidate to submit: submit the summary as one run.
    Single { token: String, summary: FinishSummary },
    /// Reroll candidates not submitted before: submit each planned variant,
    /// all sharing the summary's non-spark fields.
    Variants { token: String, summary: FinishSummary, variants: Vec<VariantPlan> },
}

/// Whether reroll candidates are submitted at all: unless
/// `submit_factor_lists` is `false`.
pub open spec fn lists_enabled(config: Config) -> bool {
    spec_cfg(config, "submit_factor_lists"@) != Some("false"@)
}

/// Whether a finish at `now` gets past the cooldown.
pub open spec fn finish_passes(old: PluginState, config: Config, now: u128) -> bool {
    !cooling_down(old.last_notified, now, spec_secs_setting(config, "cooldown_seconds"@, DEFAULT_COOLDOWN_SECS))
}

/// Whether the finish packet `fc` at `now` gets as far as the reroll
/// snapshot, which it then takes and clears: the summary has sparks, a
/// token is configured, and either the finish passes the cooldown or lists
/// are enabled (within the cooldown only new candidates could be submitted).
pub open spec fn finish_takes_cache(old: PluginState, config: Config, fc: Seq<(MsgValue, MsgValue)>, now: u128) -> bool {
    &&& has_sparks(spec_summary_sparks(fc))
    &&& spec_cfg(config, "token"@) is Some
    &&& (finish_passes(old, config, now) || lists_enabled(config))
}

/// The reroll candidates the finish packet at `now` may submit.
pub open spec fn finish_fresh(old: PluginState, config: Config, now: u128) -> (Seq<(Option<i64>, BreakdownView)>, Seq<i64>) {
    fresh_split(
        valid_cached(old.factor_cache, now,
            spec_secs_setting(config, "factor_cache_max_age_seconds"@, DEFAULT_FACTOR_CACHE_MAX_AGE_SECS)),
        old.sent_lottery_ids@,
    )
}

/// Whether the finish packet submits reroll candidates: it takes the
/// snapshot, lists are enabled, and some candidate was not submitted before.
pub open spec fn finish_has_candidates(old: PluginState, config: Config, fc: Seq<(MsgValue, MsgValue)>, now: u128) -> bool {
    &&& finish_takes_cache(old, config, fc, now)
    &&& lists_enabled(config)
    &&& finish_fresh(old, config, now).0.len() > 0
}

/// When the last finish was let through, after the finish packet.
pub open spec fn finish_next_last(old: PluginState, config: Config, now: u128) -> Option<u128> {
    if finish_passes(old, config, now) { Some(now) } else { old.last_notified }
}

/// The reroll snapshot after the finish packet: cleared by a finish that
/// gets as far as it, else left as it was.
pub open spec fn finish_next_cache(old: PluginState, config: Config, fc: Seq<(MsgValue, MsgValue)>, now: u128) -> Option<FactorCache> {
    if finish_takes_cache(old, config, fc, now) { None } else { old.factor_cache }
}

/// The lottery ids sent, after the finish packet.
pub open spec fn finish_next_sent(old: PluginState, config: Config, fc: Seq<(MsgValue, MsgValue)>, now: u128) -> Seq<i64> {
    if finish_takes_cache(old, config, fc, now) && lists_enabled(config) {
        finish_fresh(old, config, now).1
    } else {
        old.sent_lottery_ids@
    }
}

/// `r` is what the finish packet `fc` at `now` leads to from state `old`.
/// The cooldown holds back only the finish's own run: reroll candidates not
/// submitted before go in any case, unless lists are disabled.
pub open spec fn finish_decision_ok(old: PluginState, config: Config, fc: Seq<(MsgValue, MsgValue)>, now: u128, r: FinishDecision) -> bool {
    let cooling = !finish_passes(old, config, now);
    let sparks = has_sparks(spec_summary_sparks(fc));
    let token = spec_cfg(config, "token"@);
    let fresh = finish_fresh(old, config, now).0;
    let candidates = finish_has_candidates(old, config, fc, now);
    match r {
        FinishDecision::CoolingDown => cooling && !candidates,
        FinishDecision::NoSparks => !cooling && !sparks,
        FinishDecision::NoToken => !cooling && sparks && token is None,
        FinishDecision::Single { token: t, summary } => !cooling && sparks && token == Some(t@)
            && spec_summary_of(fc, summary) && !candidates,
        FinishDecision::Variants { token: t, summary, variants } => candidates && token == Some(t@)
            && spec_summary_of(fc, summary)
            && plans_view(variants@) == variant_plan(fresh, spec_summary_sparks(fc), cache_kind(old.factor_cache), !cooling),
    }
}

fn elapsed_below(since: u128, now: u128, secs: u64) -> (r: bool)
    ensures
        r == (elapsed(since, now) < secs as int * 1_000_000_000),
{
    let e: u128 = if now >= since { now - since } else { 0 };
    let limit: u128 = secs as u128 * 1_000_000_000;
    e < limit
}

/// Whether reroll candidates are submitted: `submit_factor_lists` is not
/// `false`.
pub fn factor_lists_enabled(config: &Config) -> (r: bool)
    ensures
        r == lists_enabled(*config),
{
    match cfg(config, "submit_factor_lists") {
        Some(v) => !str_eq(v.as_str(), "false"),
        None => true,
    }
}

/// Handles a career-finish packet arriving at `now` (nanoseconds on the
/// host's monotonic clock).
pub fn handle_finish_common(state: &mut PluginState, config: &Config, finish_common: &[(MsgValue, MsgValue)], now: u128) -> (r: FinishDecision)
    ensures
        finish_decision_ok(*old(state), *config, finish_common@, now, r),
        final(state).last_notified == finish_next_last(*old(state), *config, now),
        final(state).factor_cache == finish_next_cache(*old(state), *config, finish_common@, now),
        final(state).sent_lottery_ids@ == finish_next_sent(*old(state), *config, finish_common@, now),
{
    let cd = cooldown(config);
    let cooling = match state.last_notified {
        Some(t) => elapsed_below(t, now, cd),
        None => false,
    };
    let lists = factor_lists_enabled(config);
    if cooling && !lists {
        return FinishDecision::CoolingDown;
    }
    if !cooling {
        state.last_notified = Some(now);
    }

    let summary = extract_finish_summary(finish_common);
    let any_spark = summary.stat_spark.is_some() || summary.aptitude_spark.is_some() || summary.skill_sparks.len() > 0;
    if !any_spark {
        return if cooling { FinishDecision::CoolingDown } else { FinishDecision::NoSparks };
    }
    let token = match require_token(config) {
        Some(t) => t,
        None => return if cooling { FinishDecision::CoolingDown } else { FinishDecision::NoToken },
    };
    let kind = match &state.factor_cache {
        Some(c) => c.kind,
        None => SubmissionKind::FactorLottery,
    };
    let cached = take_valid_factor_cache(&mut state.factor_cache, config, now);
    if !lists {
        return FinishDecision::Single { token, summary };
    }
    let fresh = take_fresh(cached, &mut state.sent_lottery_ids);
    if fresh.len() == 0 {
        return if cooling { FinishDecision::CoolingDown } else { FinishDecision::Single { token, summary } };
    }
    let committed = committed_sparks(&summary);
    let variants = plan_variants(fresh, committed, kind, !cooling);
    FinishDecision::Variants { token, summary, variants }
}

/// Caches the latest reroll snapshot of a list packet of `kind`, taken at
/// `now`, replacing any earlier one wholesale, and returns how many
/// candidates it holds. Never submits anything itself: only a finish carries
/// the context a run needs, and decides what to submit.
pub fn handle_factor_list(state: &mut PluginState, packet: &[(MsgValue, MsgValue)], kind: SubmissionKind, now: u128) -> (r: usize)
    ensures
        final(state).last_notified == old(state).last_notified,
        final(state).sent_lottery_ids == old(state).sent_lottery_ids,
        final(state).factor_cache matches Some(c) && c.updated_at == now && c.kind == kind
            && factor_list_view(c.entries@) == spec_factor_list(packet@),
        r == spec_factor_list(packet@).len(),
{
    let entries = extract_factor_list(packet);
    let n = entries.len();
    state.factor_cache = Some(FactorCache { entries, updated_at: now, kind });
    n
}

/// Caches the snapshot of a `single_mode_factor_lottery_common` packet.
pub fn handle_factor_lottery(state: &mut PluginState, packet: &[(MsgValue, MsgValue)], now: u128) -> (r: usize)
    ensures
        final(state).last_notified == old(state).last_notified,
        final(state).sent_lottery_ids == old(state).sent_lottery_ids,
        final(state).factor_cache matches Some(c) && c.updated_at == now && c.kind == SubmissionKind::FactorLottery
            && factor_list_view(c.entries@) == spec_factor_list(packet@),
        r == spec_factor_list(packet@).len(),
{
    handle_factor_list(state, packet, SubmissionKind::FactorLottery, now)
}

/// What one intercepted response leads to.
pub enum ResponseOutcome {
    /// The body is not msgpack, whole or past a 4-byte prefix.
    Unparsed,
    /// The top-level value is not a map.
    NotAMap,
    /// The finish packet's decision, if the response holds one, and the size
    /// of the reroll snapshot cached, if it holds a list packet.
    Routed { finish: Option<FinishDecision>, cached_candidates: Option<usize> },
}

/// The finish-packet key and the two list-packet keys.
pub open spec fn finish_key() -> Seq<char> {
    "single_mode_finish_common"@
}

pub open spec fn lottery_key() -> Seq<char> {
    "single_mode_factor_lottery_common"@
}

pub open spec fn select_key() -> Seq<char> {
    "single_mode_factor_select_common"@
}

/// The list packet of a response and its kind: the reroll packet, else the
/// pre-reroll packet (a reroll's list already holds every earlier candidate).
pub open spec fn spec_list_packet(m: Seq<(MsgValue, MsgValue)>) -> Option<(Seq<(MsgValue, MsgValue)>, SubmissionKind)> {
    match spec_find_common(m, lottery_key()) {
        Some(p) => Some((p, SubmissionKind::FactorLottery)),
        None => match spec_find_common(m, select_key()) {
            Some(p) => Some((p, SubmissionKind::FactorSelect)),
            None => None,
        },
    }
}

/// `r` and `new` are what the decoded response `v` at `now` leads to from
/// state `old`: for a map, the finish packet and the list packet are each
/// looked for, at the top level or under `data`, and handled independently,
/// the finish first; anything else is not a map and changes nothing.
pub open spec fn routed_ok(old: PluginState, new: PluginState, config: Config, v: MsgValue, now: u128, r: ResponseOutcome) -> bool {
    match v {
        MsgValue::Dict(m) => {
            let fin = spec_find_common(m@, finish_key());
            let list = spec_list_packet(m@);
            &&& r matches ResponseOutcome::Routed { finish, cached_candidates } && {
                &&& match fin {
                    Some(fc) => finish matches Some(d) && finish_decision_ok(old, config, fc, now, d),
                    None => finish is None,
                }
                &&& cached_candidates == match list {
                    Some(l) => Some(spec_factor_list(l.0).len() as usize),
                    None => None,
                }
            }
            &&& new.last_notified == match fin {
                Some(fc) => finish_next_last(old, config, now),
                None => old.last_notified,
            }
            &&& new.sent_lottery_ids@ == match fin {
                Some(fc) => finish_next_sent(old, config, fc, now),
                None => old.sent_lottery_ids@,
            }
            &&& match list {
                Some(l) => new.factor_cache matches Some(c) && c.updated_at == now && c.kind == l.1
                    && factor_list_view(c.entries@) == spec_factor_list(l.0),
                None => new.factor_cache == match fin {
                    Some(fc) => finish_next_cache(old, config, fc, now),
                    None => old.factor_cache,
                },
            }
        },
        _ => r is NotAMap && new == old,
    }
}

/// Handles one decoded response at `now`.
pub fn route_response(state: &mut PluginState, config: &Config, value: &MsgValue, now: u128) -> (r: ResponseOutcome)
    ensures
        routed_ok(*old(state), *final(state), *config, *value, now, r),
{
    let entries = match value {
        MsgValue::Dict(m) => m.as_slice(),
        _ => return ResponseOutcome::NotAMap,
    };
    let finish = match find_finish_common(entries) {
        Some(fc) => Some(handle_finish_common(state, config, fc, now)),
        None => None,
    };
    let cached_candidates = match find_factor_lottery_common(entries) {
        Some(p) => Some(handle_factor_list(state, p, SubmissionKind::FactorLottery, now)),
        None => match find_factor_select_common(entries) {
            Some(p) => Some(handle_factor_list(state, p, SubmissionKind::FactorSelect, now)),
            None => None,
        },
    };
    ResponseOutcome::Routed { finish, cached_candidates }
}

/// Handles one response body at `now`: decodes it (whole, or past a 4-byte
/// prefix) and routes what it holds.
pub fn process_response(state: &mut PluginState, config: &Config, bytes: &[u8], now: u128) -> (r: ResponseOutcome)
    ensures
        match spec_parse_msgpack(bytes@) {
            Some(v) => routed_ok(*old(state), *final(state), *config, v, now, r),
            None => r is Unparsed && *final(state) == *old(state),
        },
{
    let value = match parse_msgpack(bytes) {
        Some(v) => v,
        None => return ResponseOutcome::Unparsed,
    };
    route_response(state, config, &value, now)
}

} // verus!
