//! Configuration from `nirapod-audit.toml`, merged over the defaults.
//!
//! Reading the file and decoding its TOML happen outside the library; what
//! the decoder produced arrives here as a [`RawConfig`] of optional values.

use vstd::prelude::*;

use crate::order::{bytes_less, bytes_lt};
use crate::text::bytes_eq;
use crate::types::{
    strings_view, AuditConfig, PlatformHint, RuleCategory, RuleOverride, RuleOverrideSeverity,
};

verus! {

/// Name of the configuration file searched for.
pub const CONFIG_FILENAME: &'static str = "nirapod-audit.toml";

/// The `[audit]` table.
#[derive(Debug)]
pub struct RawAuditConfig {
    /// `platform`.
    pub platform: Option<PlatformHint>,
    /// `max_function_lines`.
    pub max_function_lines: Option<usize>,
    /// `min_assertions`.
    pub min_assertions: Option<usize>,
}

/// The `[rules]` table.
#[derive(Debug)]
pub struct RawRulesConfig {
    /// `overrides`, one entry per key in the order the decoder gave them.
    pub overrides: Option<Vec<RuleOverride>>,
}

/// The `[ignore]` table.
#[derive(Debug)]
pub struct RawIgnoreConfig {
    /// `paths`.
    pub paths: Option<Vec<String>>,
    /// `rules`.
    pub rules: Option<Vec<String>>,
}

/// The `[only]` table.
#[derive(Debug)]
pub struct RawOnlyConfig {
    /// `categories`.
    pub categories: Option<Vec<RuleCategory>>,
}

/// The `[output]` table.
#[derive(Debug)]
pub struct RawOutputConfig {
    /// `show_help`.
    pub show_help: Option<bool>,
    /// `show_notes`.
    pub show_notes: Option<bool>,
}

/// A decoded configuration file; every table and key may be missing.
#[derive(Debug)]
pub struct RawConfig {
    /// `[audit]`.
    pub audit: Option<RawAuditConfig>,
    /// `[rules]`.
    pub rules: Option<RawRulesConfig>,
    /// `[ignore]`.
    pub ignore: Option<RawIgnoreConfig>,
    /// `[only]`.
    pub only: Option<RawOnlyConfig>,
    /// `[output]`.
    pub output: Option<RawOutputConfig>,
}

/// Byte key of an override, by which overrides are ordered.
pub open spec fn override_key(o: RuleOverride) -> Seq<u8> {
    vstd::utf8::encode_utf8(o.rule_id@)
}

/// Overrides in strictly increasing key order: sorted, no key twice.
pub open spec fn overrides_ordered(s: Seq<RuleOverride>) -> bool {
    forall|i: int, j: int|
        0 <= i < j < s.len() ==> bytes_lt(override_key(#[trigger] s[i]), override_key(#[trigger] s[j]))
}

/// The severity of the first override for rule `id`, if any.
pub open spec fn override_for(s: Seq<RuleOverride>, id: Seq<char>) -> Option<RuleOverrideSeverity>
    decreases s.len(),
{
    if s.len() == 0 {
        None
    } else if s[0].rule_id@ == id {
        Some(s[0].severity)
    } else {
        override_for(s.drop_first(), id)
    }
}

/// The severity of the last entry for rule `id`, if any: a later entry for
/// the same rule replaces an earlier one.
pub open spec fn last_override_for(s: Seq<RuleOverride>, id: Seq<char>) -> Option<
    RuleOverrideSeverity,
>
    decreases s.len(),
{
    if s.len() == 0 {
        None
    } else if s.last().rule_id@ == id {
        Some(s.last().severity)
    } else {
        last_override_for(s.drop_last(), id)
    }
}

proof fn lemma_override_for_concat(a: Seq<RuleOverride>, b: Seq<RuleOverride>, id: Seq<char>)
    ensures
        override_for(a + b, id) == match override_for(a, id) {
            Some(x) => Some(x),
            None => override_for(b, id),
        },
    decreases a.len(),
{
    if a.len() == 0 {
        assert(a + b =~= b);
    } else {
        assert((a + b).drop_first() =~= a.drop_first() + b);
        lemma_override_for_concat(a.drop_first(), b, id);
    }
}

proof fn lemma_override_for_absent(a: Seq<RuleOverride>, id: Seq<char>)
    requires
        forall|j: int| 0 <= j < a.len() ==> (#[trigger] a[j]).rule_id@ != id,
    ensures
        override_for(a, id) is None,
    decreases a.len(),
{
    if a.len() > 0 {
        assert forall|j: int| 0 <= j < a.drop_first().len() implies (
        #[trigger] a.drop_first()[j]).rule_id@ != id by {
            assert(a.drop_first()[j] == a[j + 1]);
        }
        lemma_override_for_absent(a.drop_first(), id);
    }
}

proof fn lemma_override_for_cons(e: RuleOverride, rest: Seq<RuleOverride>, id: Seq<char>)
    ensures
        override_for(seq![e] + rest, id) == if e.rule_id@ == id {
            Some(e.severity)
        } else {
            override_for(rest, id)
        },
{
    assert((seq![e] + rest).drop_first() =~= rest);
}

/// Collects override entries into strictly ordered overrides, the last entry
/// for a rule winning, as a map from rule identifier does.
pub fn collect_overrides(entries: Vec<RuleOverride>) -> (r: Vec<RuleOverride>)
    ensures
        overrides_ordered(r@),
        forall|id: Seq<char>| #[trigger] override_for(r@, id) == last_override_for(entries@, id),
{
    let ghost orig = entries@;
    let n: usize = entries.len();
    let mut rest = entries;
    let mut out: Vec<RuleOverride> = Vec::new();
    let mut i: usize = 0;
    while i < n
        invariant
            i <= n,
            n == orig.len(),
            rest@ =~= orig.subrange(i as int, n as int),
            overrides_ordered(out@),
            forall|id: Seq<char>| #[trigger]
                override_for(out@, id) == last_override_for(orig.subrange(0, i as int), id),
        decreases n - i,
    {
        let e = rest.remove(0);
        assert(e == orig[i as int]);
        let mut k: usize = 0;
        while k < out.len()
            invariant
                k <= out@.len(),
                forall|j: int| 0 <= j < k ==> bytes_lt(override_key(#[trigger] out@[j]), override_key(e)),
            ensures
                k <= out@.len(),
                forall|j: int| 0 <= j < k ==> bytes_lt(override_key(#[trigger] out@[j]), override_key(e)),
                k < out@.len() ==> !bytes_lt(override_key(out@[k as int]), override_key(e)),
            decreases out@.len() - k,
        {
            if !bytes_less(out[k].rule_id.as_str().as_bytes(), e.rule_id.as_str().as_bytes()) {
                break;
            }
            k = k + 1;
        }
        let ghost old_out = out@;
        let ghost pre = old_out.subrange(0, k as int);
        proof {
            assert forall|j: int| 0 <= j < pre.len() implies (#[trigger] pre[j]).rule_id@
                != e.rule_id@ by {
                assert(pre[j] == old_out[j]);
                crate::order::lemma_bytes_lt_irreflexive(override_key(e));
            }
            lemma_override_for_absent(pre, e.rule_id@);
            assert(orig.subrange(0, i + 1).drop_last() =~= orig.subrange(0, i as int));
            assert(orig.subrange(0, i + 1).last() == e);
        }
        let same = k < out.len() && bytes_eq(
            out[k].rule_id.as_str().as_bytes(),
            e.rule_id.as_str().as_bytes(),
        );
        if same {
            let ghost post = old_out.subrange(k + 1, old_out.len() as int);
            proof {
                vstd::utf8::encode_utf8_decode_utf8(out@[k as int].rule_id@);
                vstd::utf8::encode_utf8_decode_utf8(e.rule_id@);
                assert(old_out =~= pre + (seq![old_out[k as int]] + post));
            }
            out.set(k, e);
            proof {
                assert(out@ =~= pre + (seq![e] + post));
                assert forall|id: Seq<char>| #[trigger]
                    override_for(out@, id) == last_override_for(orig.subrange(0, i + 1), id) by {
                    lemma_override_for_concat(pre, seq![e] + post, id);
                    lemma_override_for_concat(pre, seq![old_out[k as int]] + post, id);
                    lemma_override_for_cons(e, post, id);
                    lemma_override_for_cons(old_out[k as int], post, id);
                }
                assert forall|a: int, b: int| 0 <= a < b < out@.len() implies bytes_lt(
                    override_key(#[trigger] out@[a]),
                    override_key(#[trigger] out@[b]),
                ) by {
                    assert(override_key(out@[a]) == override_key(old_out[a]));
                    assert(override_key(out@[b]) == override_key(old_out[b]));
                }
            }
        } else {
            let ghost post = old_out.subrange(k as int, old_out.len() as int);
            proof {
                assert(old_out =~= pre + post);
                if k < old_out.len() {
                    crate::order::lemma_bytes_lt_total(override_key(e), override_key(old_out[k as int]));
                }
            }
            out.insert(k, e);
            proof {
                assert(out@ =~= pre + (seq![e] + post));
                assert forall|id: Seq<char>| #[trigger]
                    override_for(out@, id) == last_override_for(orig.subrange(0, i + 1), id) by {
                    lemma_override_for_concat(pre, seq![e] + post, id);
                    lemma_override_for_concat(pre, post, id);
                    lemma_override_for_cons(e, post, id);
                }
                assert forall|a: int, b: int| 0 <= a < b < out@.len() implies bytes_lt(
                    override_key(#[trigger] out@[a]),
                    override_key(#[trigger] out@[b]),
                ) by {
                    if b < k {
                        assert(out@[a] == old_out[a] && out@[b] == old_out[b]);
                    } else if b == k {
                        assert(out@[a] == old_out[a]);
                    } else if a > k {
                        assert(out@[a] == old_out[a - 1] && out@[b] == old_out[b - 1]);
                    } else if a == k {
                        assert(out@[b] == old_out[b - 1]);
                        if b - 1 > k {
                            crate::order::lemma_bytes_lt_transitive(
                                override_key(e),
                                override_key(old_out[k as int]),
                                override_key(old_out[b - 1]),
                            );
                        }
                    } else {
                        assert(out@[a] == old_out[a] && out@[b] == old_out[b - 1]);
                    }
                }
            }
        }
        i = i + 1;
    }
    assert(orig.subrange(0, n as int) =~= orig);
    out
}

/// The platform the configuration selects; `Auto` when unset.
pub open spec fn merged_platform(raw: &RawConfig) -> PlatformHint {
    match raw.audit {
        Some(a) => match a.platform {
            Some(p) => p,
            None => PlatformHint::Auto,
        },
        None => PlatformHint::Auto,
    }
}

/// `value` when the key is present, `default` otherwise.
pub open spec fn or_default<T>(value: Option<T>, default: T) -> T {
    match value {
        Some(v) => v,
        None => default,
    }
}

/// `r` is the defaults with every key present in `raw` replacing its
/// default; rule overrides are ordered by rule, the last entry for a rule
/// winning.
pub open spec fn merged_from(raw: &RawConfig, r: &AuditConfig) -> bool {
    &&& r.platform == merged_platform(raw)
    &&& r.max_function_lines == (match raw.audit {
        Some(a) => or_default(a.max_function_lines, 60usize),
        None => 60usize,
    })
    &&& r.min_assertions == (match raw.audit {
        Some(a) => or_default(a.min_assertions, 2usize),
        None => 2usize,
    })
    &&& r.ignore_paths@ == (match raw.ignore {
        Some(i) => match i.paths {
            Some(p) => p@,
            None => Seq::empty(),
        },
        None => Seq::empty(),
    })
    &&& r.ignore_rules@ == (match raw.ignore {
        Some(i) => match i.rules {
            Some(p) => p@,
            None => Seq::empty(),
        },
        None => Seq::empty(),
    })
    &&& r.only_categories@ == (match raw.only {
        Some(o) => match o.categories {
            Some(c) => c@,
            None => Seq::empty(),
        },
        None => Seq::empty(),
    })
    &&& r.show_help == (match raw.output {
        Some(o) => or_default(o.show_help, true),
        None => true,
    })
    &&& r.show_notes == (match raw.output {
        Some(o) => or_default(o.show_notes, true),
        None => true,
    })
    &&& overrides_ordered(r.rule_overrides@)
    &&& forall|id: Seq<char>| #[trigger]
        override_for(r.rule_overrides@, id) == (match raw.rules {
            Some(rules) => match rules.overrides {
                Some(entries) => last_override_for(entries@, id),
                None => None,
            },
            None => None,
        })
}

/// Merges a decoded configuration file over the defaults: each key that is
/// present replaces its default, each missing key keeps it.
pub fn merge_config(raw: RawConfig) -> (r: AuditConfig)
    ensures
        merged_from(&raw, &r),
{
    let mut config = AuditConfig::default_config();
    if let Some(audit) = raw.audit {
        if let Some(platform) = audit.platform {
            config.platform = platform;
        }
        if let Some(max_function_lines) = audit.max_function_lines {
            config.max_function_lines = max_function_lines;
        }
        if let Some(min_assertions) = audit.min_assertions {
            config.min_assertions = min_assertions;
        }
    }
    if let Some(ignore) = raw.ignore {
        if let Some(paths) = ignore.paths {
            config.ignore_paths = paths;
        }
        if let Some(rules) = ignore.rules {
            config.ignore_rules = rules;
        }
    }
    if let Some(only) = raw.only {
        if let Some(categories) = only.categories {
            config.only_categories = categories;
        }
    }
    if let Some(output) = raw.output {
        if let Some(show_help) = output.show_help {
            config.show_help = show_help;
        }
        if let Some(show_notes) = output.show_notes {
            config.show_notes = show_notes;
        }
    }
    if let Some(rules) = raw.rules {
        if let Some(overrides) = rules.overrides {
            config.rule_overrides = collect_overrides(overrides);
        }
    }
    proof {
        assert(config.platform == merged_platform(&raw));
        assert(config.max_function_lines == (match raw.audit {
        Some(a) => or_default(a.max_function_lines, 60usize),
        None => 60usize,
    }));
        assert(config.min_assertions == (match raw.audit {
        Some(a) => or_default(a.min_assertions, 2usize),
        None => 2usize,
    }));
        assert(config.ignore_paths@ == (match raw.ignore {
        Some(i) => match i.paths {
            Some(p) => p@,
            None => Seq::empty(),
        },
        None => Seq::empty(),
    }));
        assert(config.ignore_rules@ == (match raw.ignore {
        Some(i) => match i.rules {
            Some(p) => p@,
            None => Seq::empty(),
        },
        None => Seq::empty(),
    }));
        assert(config.only_categories@ == (match raw.only {
        Some(o) => match o.categories {
            Some(c) => c@,
            None => Seq::empty(),
        },
        None => Seq::empty(),
    }));
        assert(config.show_help == (match raw.output {
        Some(o) => or_default(o.show_help, true),
        None => true,
    }));
        assert(config.show_notes == (match raw.output {
        Some(o) => or_default(o.show_notes, true),
        None => true,
    }));
        assert(overrides_ordered(config.rule_overrides@));
        assert forall|id: Seq<char>| #[trigger]
            override_for(config.rule_overrides@, id) == (match raw.rules {
                Some(rules) => match rules.overrides {
                    Some(entries) => last_override_for(entries@, id),
                    None => None,
                },
                None => None,
            }) by {
            if config.rule_overrides@.len() == 0 {
                assert(override_for(config.rule_overrides@, id) is None);
            }
        }
    }
    config
}

/// Effective configuration, with the file that supplied it if one was found.
#[derive(Debug)]
pub struct LoadedConfig {
    /// Effective merged configuration.
    pub config: AuditConfig,
    /// Path of the configuration file, if one was found.
    pub config_path: Option<String>,
}

impl Default for LoadedConfig {
    /// The defaults, from no file.
    fn default() -> (r: LoadedConfig)
        ensures
            r.config.platform == PlatformHint::Auto,
            r.config.max_function_lines == 60,
            r.config.min_assertions == 2,
            r.config.ignore_paths@.len() == 0,
            r.config.ignore_rules@.len() == 0,
            r.config.only_categories@.len() == 0,
            r.config.show_help,
            r.config.show_notes,
            r.config.rule_overrides@.len() == 0,
            r.config_path is None,
    {
        LoadedConfig { config: AuditConfig::default_config(), config_path: None }
    }
}

/// The configuration loaded from the file at `config_path`, whose decoded
/// contents are `raw`.
pub fn loaded_from(config_path: String, raw: RawConfig) -> (r: LoadedConfig)
    ensures
        r.config_path == Some(config_path),
        merged_from(&raw, &r.config),
{
    LoadedConfig { config: merge_config(raw), config_path: Some(config_path) }
}

/// What `std::path::Path::parent` gives for a path written as text.
pub uninterp spec fn path_parent(path: Seq<char>) -> Option<Seq<char>>;

/// What `std::path::Path::join` gives for a directory and a relative name.
pub uninterp spec fn path_join(dir: Seq<char>, name: Seq<char>) -> Seq<char>;

/// `std::path::Path::parent`: the path without its final component, or
/// `None` at a root, a prefix or the empty path. The contract claims the
/// result is named by [`path_parent`] and, having lost a component, is
/// shorter than the input.
#[verifier::external_body]
pub(crate) fn parent_dir(path: &str) -> (r: Option<String>)
    ensures
        match r {
            Some(p) => path_parent(path@) == Some(p@) && p@.len() < path@.len(),
            None => path_parent(path@) is None,
        },
{
    match std::path::Path::new(path).parent() {
        Some(p) => Some(p.to_string_lossy().into_owned()),
        None => None,
    }
}

/// `std::path::Path::join`: `name` appended to `dir`. The contract claims
/// only that the result is named by [`path_join`].
#[verifier::external_body]
fn join_path(dir: &str, name: &str) -> (r: String)
    ensures
        r@ == path_join(dir@, name@),
{
    std::path::Path::new(dir).join(name).to_string_lossy().into_owned()
}

/// `dir` followed by each successive parent directory.
pub open spec fn search_dirs(dir: Seq<char>) -> Seq<Seq<char>>
    decreases dir.len(),
{
    match path_parent(dir) {
        Some(p) => if p.len() < dir.len() {
            seq![dir] + search_dirs(p)
        } else {
            seq![dir]
        },
        None => seq![dir],
    }
}

/// The configuration file paths searched from `start_dir`, nearest first.
pub open spec fn config_search_paths(start_dir: Seq<char>) -> Seq<Seq<char>> {
    search_dirs(start_dir).map_values(|d: Seq<char>| path_join(d, CONFIG_FILENAME@))
}

/// Lists where a configuration file is looked for: in `start_dir`, then in
/// each of its parents up to the root.
pub fn config_candidates(start_dir: &str) -> (r: Vec<String>)
    ensures
        strings_view(r@) == config_search_paths(start_dir@),
{
    let mut out: Vec<String> = Vec::new();
    let mut dir: String = start_dir.to_owned();
    let ghost mut done: Seq<Seq<char>> = Seq::empty();
    loop
        invariant
            done + search_dirs(dir@) == search_dirs(start_dir@),
            strings_view(out@) == done.map_values(|d: Seq<char>| path_join(d, CONFIG_FILENAME@)),
        decreases dir@.len(),
    {
        let file = join_path(dir.as_str(), CONFIG_FILENAME);
        let ghost before = out@;
        out.push(file);
        let next = parent_dir(dir.as_str());
        proof {
            assert(strings_view(out@) =~= strings_view(before).push(path_join(dir@, CONFIG_FILENAME@)));
            assert(done.push(dir@).map_values(|d: Seq<char>| path_join(d, CONFIG_FILENAME@))
                =~= done.map_values(|d: Seq<char>| path_join(d, CONFIG_FILENAME@)).push(
                path_join(dir@, CONFIG_FILENAME@),
            ));
        }
        match next {
            Some(parent) => {
                proof {
                    assert(search_dirs(dir@) == seq![dir@] + search_dirs(parent@));
                    assert(done + search_dirs(dir@) =~= done.push(dir@) + search_dirs(parent@));
                    done = done.push(dir@);
                }
                dir = parent;
            },
            None => {
                proof {
                    assert(search_dirs(dir@) == seq![dir@]);
                    assert(done + seq![dir@] =~= done.push(dir@));
                    done = done.push(dir@);
                }
                return out;
            },
        }
    }
}

/// The first of `candidates` that `present` lists.
pub open spec fn first_present(candidates: Seq<Seq<char>>, present: Seq<Seq<char>>) -> Option<
    Seq<char>,
>
    decreases candidates.len(),
{
    if candidates.len() == 0 {
        None
    } else if present.contains(candidates[0]) {
        Some(candidates[0])
    } else {
        first_present(candidates.drop_first(), present)
    }
}

pub(crate) fn same_text(a: &str, b: &str) -> (r: bool)
    ensures
        r == (a@ == b@),
{
    proof {
        vstd::utf8::encode_utf8_decode_utf8(a@);
        vstd::utf8::encode_utf8_decode_utf8(b@);
    }
    bytes_eq(a.as_bytes(), b.as_bytes())
}

/// Finds the nearest configuration file: the first path searched from
/// `start_dir`, nearest first, that is among the files `existing`.
pub fn find_config_file(start_dir: &str, existing: &Vec<String>) -> (r: Option<String>)
    ensures
        match r {
            Some(p) => first_present(config_search_paths(start_dir@), strings_view(existing@))
                == Some(p@),
            None => first_present(config_search_paths(start_dir@), strings_view(existing@)) is None,
        },
{
    let candidates = config_candidates(start_dir);
    let ghost cands = strings_view(candidates@);
    let ghost present = strings_view(existing@);
    let mut i: usize = 0;
    assert(cands.skip(0) =~= cands);
    while i < candidates.len()
        invariant
            i <= candidates@.len(),
            cands == strings_view(candidates@),
            cands == config_search_paths(start_dir@),
            present == strings_view(existing@),
            first_present(cands, present) == first_present(cands.skip(i as int), present),
        decreases candidates@.len() - i,
    {
        let mut j: usize = 0;
        while j < existing.len()
            invariant
                j <= existing@.len(),
                i < candidates@.len(),
                cands == strings_view(candidates@),
                cands == config_search_paths(start_dir@),
                first_present(cands, present) == first_present(cands.skip(i as int), present),
                present == strings_view(existing@),
                forall|k: int| 0 <= k < j ==> present[k] != cands[i as int],
            decreases existing@.len() - j,
        {
            if same_text(candidates[i].as_str(), existing[j].as_str()) {
                proof {
                    assert(present[j as int] == cands[i as int]);
                    assert(present.contains(cands.skip(i as int)[0]));
                }
                return Some(candidates[i].as_str().to_owned());
            }
            j = j + 1;
        }
        proof {
            assert(!present.contains(cands.skip(i as int)[0]));
            assert(cands.skip(i as int).drop_first() =~= cands.skip(i + 1));
        }
        i = i + 1;
    }
    None
}

/// A configuration file with no keys yields the defaults, no rule
/// overridden.
pub proof fn lemma_empty_file_gives_defaults(raw: &RawConfig, r: &AuditConfig)
    requires
        raw.audit is None,
        raw.rules is None,
        raw.ignore is None,
        raw.only is None,
        raw.output is None,
        merged_from(raw, r),
    ensures
        r.platform == PlatformHint::Auto,
        r.max_function_lines == 60,
        r.min_assertions == 2,
        r.ignore_paths@.len() == 0,
        r.ignore_rules@.len() == 0,
        r.only_categories@.len() == 0,
        r.show_help,
        r.show_notes,
        r.rule_overrides@.len() == 0,
{
    if r.rule_overrides@.len() > 0 {
        let id = r.rule_overrides@[0].rule_id@;
        assert(override_for(r.rule_overrides@, id) is Some);
    }
}

/// Looks up the override configured for rule `id`.
pub fn override_lookup(overrides: &Vec<RuleOverride>, id: &str) -> (r: Option<RuleOverrideSeverity>)
    ensures
        r == override_for(overrides@, id@),
{
    let mut i: usize = 0;
    assert(overrides@.skip(0) =~= overrides@);
    while i < overrides.len()
        invariant
            i <= overrides@.len(),
            override_for(overrides@, id@) == override_for(overrides@.skip(i as int), id@),
        decreases overrides@.len() - i,
    {
        if same_text(overrides[i].rule_id.as_str(), id) {
            return Some(overrides[i].severity);
        }
        assert(overrides@.skip(i as int).drop_first() =~= overrides@.skip(i + 1));
        i = i + 1;
    }
    None
}

} // verus!
