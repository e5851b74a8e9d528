//! Rarity rules and the compiled context of one search job.

use vstd::prelude::*;
use vstd::slice::slice_to_vec;
use vstd::utf8::encode_utf8;

verus! {

/// One rarity entry as it is configured: the text to repeat and how many
/// repetitions make a find.
#[derive(Clone)]
pub struct PatternConfig {
    pub pattern: String,
    pub min_length: usize,
}

/// The repeated unit of a rule: one byte (a run-length rule) or a block of
/// bytes (a repeated-block rule).
pub enum PatternKind {
    Single(u8),
    Sequence(Vec<u8>),
}

/// A compiled rarity rule.
pub struct PatternRule {
    pub kind: PatternKind,
    pub min_length: usize,
}

/// What a search job is compiled to: the bytes an address has to start with
/// and the rarity rules, if rarity checking is on.
pub struct JobContext {
    pub prefix_bytes: Vec<u8>,
    pub pattern_rules: Option<Vec<PatternRule>>,
}

/// Mathematical value of a rule's unit.
pub enum UnitModel {
    Single(u8),
    Sequence(Seq<u8>),
}

/// Mathematical value of a rule.
pub struct RuleModel {
    pub unit: UnitModel,
    pub min_repeat: nat,
}

/// Mathematical value of a job.
pub struct JobModel {
    pub prefix: Seq<u8>,
    pub rules: Option<Seq<RuleModel>>,
}

impl View for PatternKind {
    type V = UnitModel;

    open spec fn view(&self) -> UnitModel {
        match self {
            PatternKind::Single(byte) => UnitModel::Single(*byte),
            PatternKind::Sequence(bytes) => UnitModel::Sequence(bytes@),
        }
    }
}

impl View for PatternRule {
    type V = RuleModel;

    open spec fn view(&self) -> RuleModel {
        RuleModel { unit: self.kind@, min_repeat: self.min_length as nat }
    }
}

/// The rules of a list, each by its value, in the list's order.
pub open spec fn rule_models(rules: Seq<PatternRule>) -> Seq<RuleModel> {
    rules.map_values(|rule: PatternRule| rule@)
}

impl View for JobContext {
    type V = JobModel;

    open spec fn view(&self) -> JobModel {
        JobModel {
            prefix: self.prefix_bytes@,
            rules: match self.pattern_rules {
                Some(rules) => Some(rule_models(rules@)),
                None => None,
            },
        }
    }
}

/// The rule that one configured entry compiles to. An entry with an empty
/// pattern compiles to none; a pattern of one byte gives a run-length rule,
/// a longer one a repeated-block rule.
pub open spec fn compile_rule(config: PatternConfig) -> Option<RuleModel> {
    let bytes = encode_utf8(config.pattern@);
    if config.pattern@.len() == 0 {
        None
    } else if bytes.len() == 1 {
        Some(RuleModel { unit: UnitModel::Single(bytes[0]), min_repeat: config.min_length as nat })
    } else {
        Some(RuleModel { unit: UnitModel::Sequence(bytes), min_repeat: config.min_length as nat })
    }
}

/// The rules that a configured list compiles to, in the list's order.
pub open spec fn compile_rules(configs: Seq<PatternConfig>) -> Seq<RuleModel>
    decreases configs.len(),
{
    if configs.len() == 0 {
        Seq::empty()
    } else {
        let earlier = compile_rules(configs.drop_last());
        match compile_rule(configs.last()) {
            Some(rule) => earlier.push(rule),
            None => earlier,
        }
    }
}

/// The rule set of a job under a configuration: none where there is no
/// configuration or where it compiles to no rule.
pub open spec fn compiled_rule_set(config: Option<Seq<PatternConfig>>) -> Option<Seq<RuleModel>> {
    match config {
        Some(configs) => if compile_rules(configs).len() == 0 {
            None
        } else {
            Some(compile_rules(configs))
        },
        None => None,
    }
}

/// The configured entries behind an optional reference to a list.
pub open spec fn config_entries(config: Option<&Vec<PatternConfig>>) -> Option<Seq<PatternConfig>> {
    match config {
        Some(configs) => Some(configs@),
        None => None,
    }
}

/// The rules of an optional list, each by its value.
pub open spec fn rule_set_models(rules: Option<Vec<PatternRule>>) -> Option<Seq<RuleModel>> {
    match rules {
        Some(list) => Some(rule_models(list@)),
        None => None,
    }
}

/// Compiles the configured rarity entries into rules, dropping entries whose
/// pattern is empty.
pub fn preprocess_patterns(config: Option<&Vec<PatternConfig>>) -> (rules: Option<Vec<PatternRule>>)
    ensures
        rule_set_models(rules) == compiled_rule_set(config_entries(config)),
{
    let patterns = match config {
        Some(p) => p,
        None => {
            return None;
        },
    };
    let mut rules: Vec<PatternRule> = Vec::with_capacity(patterns.len());
    let mut n: usize = 0;
    while n < patterns.len()
        invariant
            n <= patterns.len(),
            rule_models(rules@) == compile_rules(patterns@.take(n as int)),
        decreases patterns.len() - n,
    {
        let pattern = &patterns[n];
        proof {
            assert(patterns@.take(n + 1).drop_last() =~= patterns@.take(n as int));
            assert(patterns@.take(n + 1).last() == *pattern);
        }
        n += 1;
        if pattern.pattern.as_str().is_empty() {
            continue;
        }
        let bytes = pattern.pattern.as_str().as_bytes();
        let kind = if bytes.len() == 1 {
            PatternKind::Single(bytes[0])
        } else {
            PatternKind::Sequence(slice_to_vec(bytes))
        };
        let ghost before = rules@;
        let rule = PatternRule { kind, min_length: pattern.min_length };
        rules.push(rule);
        assert(rule_models(rules@) =~= rule_models(before).push(rule@));
    }
    assert(patterns@.take(n as int) =~= patterns@);
    if rules.is_empty() {
        None
    } else {
        Some(rules)
    }
}

impl JobContext {
    /// Compiles a job from its target prefix and the loaded rarity
    /// configuration.
    pub fn new(prefix: &str, config: Option<&Vec<PatternConfig>>) -> (job: JobContext)
        ensures
            job@.prefix == encode_utf8(prefix@),
            job@.rules == compiled_rule_set(config_entries(config)),
    {
        JobContext {
            prefix_bytes: slice_to_vec(prefix.as_bytes()),
            pattern_rules: preprocess_patterns(config),
        }
    }
}

/// An entry with an empty pattern compiles to no rule, and only such an
/// entry does.
pub proof fn empty_pattern_compiles_to_no_rule(config: PatternConfig)
    ensures
        compile_rule(config) is None <==> config.pattern@.len() == 0,
{
}

/// `rule` is what an entry of `configs` with a non-empty pattern compiles to.
pub open spec fn compiled_from_nonempty_pattern(configs: Seq<PatternConfig>, rule: RuleModel) -> bool {
    exists|j: int|
        0 <= j < configs.len() && configs[j].pattern@.len() > 0 && #[trigger] compile_rule(
            configs[j],
        ) == Some(rule)
}

/// Every compiled rule is the rule of a configured entry whose pattern is
/// not empty, and there are as many rules as such entries.
pub proof fn compiled_rules_come_from_nonempty_patterns(configs: Seq<PatternConfig>)
    ensures
        compile_rules(configs).len() == configs.filter(
            |config: PatternConfig| config.pattern@.len() > 0,
        ).len(),
        forall|i: int|
            0 <= i < compile_rules(configs).len() ==> compiled_from_nonempty_pattern(
                configs,
                #[trigger] compile_rules(configs)[i],
            ),
    decreases configs.len(),
{
    reveal(Seq::filter);
    if configs.len() > 0 {
        let earlier = configs.drop_last();
        compiled_rules_come_from_nonempty_patterns(earlier);
        assert forall|i: int| 0 <= i < compile_rules(configs).len() implies compiled_from_nonempty_pattern(
            configs,
            #[trigger] compile_rules(configs)[i],
        ) by {
            if i < compile_rules(earlier).len() {
                assert(compiled_from_nonempty_pattern(earlier, compile_rules(earlier)[i]));
                let j = choose|j: int|
                    0 <= j < earlier.len() && earlier[j].pattern@.len() > 0
                        && #[trigger] compile_rule(earlier[j]) == Some(compile_rules(earlier)[i]);
                assert(configs[j] == earlier[j]);
            } else {
                let j = configs.len() - 1;
                assert(compile_rule(configs[j]) == Some(compile_rules(configs)[i]));
            }
        }
    }
}

/// Without a configuration, or with an empty one, a job has no rule set.
pub proof fn no_configuration_no_rule_set(config: Option<Seq<PatternConfig>>)
    requires
        config matches Some(entries) ==> entries.len() == 0,
    ensures
        compiled_rule_set(config) is None,
{
}

} // verus!
