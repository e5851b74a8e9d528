//! The rarity scan: the first rule of a job that an address satisfies, and
//! the text it matched.

use vstd::prelude::*;
use vstd::utf8::{encode_utf8, valid_utf8};
use crate::rules::{rule_models, JobContext, JobModel, PatternKind, RuleModel, UnitModel};

verus! {

/// The byte `unit`, `count` times.
pub open spec fn repeat_byte(unit: u8, count: nat) -> Seq<u8> {
    Seq::new(count, |i: int| unit)
}

/// The block `unit`, `count` times in a row.
pub open spec fn repeat_block(unit: Seq<u8>, count: nat) -> Seq<u8>
    decreases count,
{
    if count == 0 {
        Seq::empty()
    } else {
        repeat_block(unit, (count - 1) as nat) + unit
    }
}

/// How many positions from `from` on hold `unit` without a break.
pub open spec fn run_len(address: Seq<u8>, unit: u8, from: int) -> nat
    decreases address.len() - from,
{
    if 0 <= from < address.len() && address[from] == unit {
        1 + run_len(address, unit, from + 1)
    } else {
        0
    }
}

/// A run of `count` times `unit` is reported when it is long enough and can
/// be handed out as text.
pub open spec fn run_qualifies(unit: u8, count: nat, min_repeat: nat) -> bool {
    count >= min_repeat && valid_utf8(repeat_byte(unit, count))
}

/// The run-length rule from position `from` on, where `from` is the start of
/// a run: that run if it qualifies, else the same question behind the byte
/// that broke it.
pub open spec fn single_match_from(address: Seq<u8>, unit: u8, min_repeat: nat, from: int) -> Option<Seq<u8>>
    decreases address.len() - from,
{
    let count = run_len(address, unit, from);
    if run_qualifies(unit, count, min_repeat) {
        Some(repeat_byte(unit, count))
    } else if from < 0 || from + count >= address.len() {
        None
    } else {
        single_match_from(address, unit, min_repeat, from + count + 1)
    }
}

/// What a run-length rule finds in an address: the first maximal run of
/// `unit` that qualifies.
pub open spec fn single_match(address: Seq<u8>, unit: u8, min_repeat: nat) -> Option<Seq<u8>> {
    single_match_from(address, unit, min_repeat, 0)
}

/// The bytes of a found text, where there is one.
pub open spec fn found_bytes(found: Option<String>) -> Option<Seq<u8>> {
    match found {
        Some(text) => Some(encode_utf8(text@)),
        None => None,
    }
}

/// `String::from_utf8` of std: the text whose UTF-8 encoding is `bytes`,
/// and nothing where `bytes` is no valid UTF-8.
#[verifier::external_body]
fn text_from_utf8(bytes: Vec<u8>) -> (text: Option<String>)
    ensures
        text is Some <==> valid_utf8(bytes@),
        text matches Some(t) ==> encode_utf8(t@) == bytes@,
{
    String::from_utf8(bytes).ok()
}

/// A run ends where the unit stops or the address does.
pub proof fn lemma_run_len_ends(address: Seq<u8>, unit: u8, from: int, end: int)
    requires
        0 <= from <= end <= address.len(),
        forall|j: int| from <= j < end ==> address[j] == unit,
        end == address.len() || address[end] != unit,
    ensures
        run_len(address, unit, from) == end - from,
    decreases end - from,
{
    if from < end {
        lemma_run_len_ends(address, unit, from + 1, end);
    }
}

/// Scans `address` once for the first run of `target` that is at least
/// `min_length` long.
pub fn find_single_run(address: &[u8], target: u8, min_length: usize) -> (found: Option<String>)
    ensures
        found_bytes(found) == single_match(address@, target, min_length as nat),
{
    let mut repeat_count: usize = 0;
    let mut i: usize = 0;
    while i < address.len()
        invariant
            repeat_count <= i <= address.len(),
            forall|j: int| i - repeat_count <= j < i ==> address@[j] == target,
            single_match(address@, target, min_length as nat) == single_match_from(
                address@,
                target,
                min_length as nat,
                i - repeat_count,
            ),
        decreases address.len() - i,
    {
        let byte = address[i];
        if byte == target {
            repeat_count += 1;
            i += 1;
            continue;
        }
        proof {
            lemma_run_len_ends(address@, target, i - repeat_count, i as int);
        }
        if repeat_count >= min_length {
            let pattern = vec![target; repeat_count];
            assert(pattern@ =~= repeat_byte(target, repeat_count as nat));
            if let Some(found_pattern) = text_from_utf8(pattern) {
                return Some(found_pattern);
            }
        }
        repeat_count = 0;
        i += 1;
    }
    proof {
        lemma_run_len_ends(address@, target, i - repeat_count, i as int);
    }
    if repeat_count >= min_length {
        let pattern = vec![target; repeat_count];
        assert(pattern@ =~= repeat_byte(target, repeat_count as nat));
        if let Some(found_pattern) = text_from_utf8(pattern) {
            return Some(found_pattern);
        }
    }
    None
}

/// A copy of `unit` stands in `address` at position `from`.
pub open spec fn block_at(address: Seq<u8>, unit: Seq<u8>, from: int) -> bool {
    &&& 0 <= from
    &&& from + unit.len() <= address.len()
    &&& address.subrange(from, from + unit.len()) == unit
}

/// How many copies of `unit` stand one behind the other from `from` on.
pub open spec fn tiles_at(address: Seq<u8>, unit: Seq<u8>, from: int) -> nat
    decreases address.len() - from,
{
    if unit.len() > 0 && block_at(address, unit, from) {
        1 + tiles_at(address, unit, from + unit.len())
    } else {
        0
    }
}

/// A tiling of `count` copies of `unit` is reported when it has enough copies
/// and can be handed out as text.
pub open spec fn tiling_qualifies(unit: Seq<u8>, count: nat, min_repeat: nat) -> bool {
    count >= min_repeat && valid_utf8(repeat_block(unit, count))
}

/// The repeated-block rule from offset `from` on: where no copy of `unit`
/// starts at `from`, the next offset is tried; where a tiling starts there it
/// is the find if it qualifies, else the scan goes on behind it.
pub open spec fn sequence_match_from(address: Seq<u8>, unit: Seq<u8>, min_repeat: nat, from: int) -> Option<Seq<u8>>
    decreases
        (if from <= address.len() {
            address.len() - from
        } else {
            0
        }),
{
    if unit.len() == 0 || from < 0 || from + unit.len() > address.len() {
        None
    } else {
        let count = tiles_at(address, unit, from);
        if count == 0 {
            sequence_match_from(address, unit, min_repeat, from + 1)
        } else if tiling_qualifies(unit, count, min_repeat) {
            Some(repeat_block(unit, count))
        } else {
            proof {
                assert(count * unit.len() >= 1) by (nonlinear_arith)
                    requires
                        count >= 1,
                        unit.len() >= 1,
                ;
            }
            sequence_match_from(address, unit, min_repeat, from + count * unit.len())
        }
    }
}

/// What a repeated-block rule finds in an address. An address too short to
/// hold `min_repeat` copies of `unit` is not scanned.
pub open spec fn sequence_match(address: Seq<u8>, unit: Seq<u8>, min_repeat: nat) -> Option<Seq<u8>> {
    if unit.len() == 0 || address.len() < unit.len() * min_repeat {
        None
    } else {
        sequence_match_from(address, unit, min_repeat, 0)
    }
}

/// Compares the block of `address` at `at` with `unit`.
fn block_matches(address: &[u8], unit: &[u8], at: usize) -> (hit: bool)
    requires
        at + unit.len() <= address.len(),
    ensures
        hit == block_at(address@, unit@, at as int),
{
    let mut k: usize = 0;
    while k < unit.len()
        invariant
            k <= unit.len(),
            at + unit.len() <= address.len(),
            forall|j: int| 0 <= j < k ==> address@[at + j] == unit@[j],
        decreases unit.len() - k,
    {
        if address[at + k] != unit[k] {
            assert(address@.subrange(at as int, at + unit.len())[k as int] != unit@[k as int]);
            return false;
        }
        k += 1;
    }
    assert(address@.subrange(at as int, at + unit.len()) =~= unit@);
    true
}

/// Scans `address` from left to right for the first offset at which at least
/// `min_length` copies of `unit` stand one behind the other.
pub fn find_block_tiling(address: &[u8], unit: &[u8], min_length: usize) -> (found: Option<String>)
    ensures
        found_bytes(found) == sequence_match(address@, unit@, min_length as nat),
{
    let pattern_len = unit.len();
    let address_len = address.len();
    if pattern_len == 0 {
        return None;
    }
    match pattern_len.checked_mul(min_length) {
        Some(needed) => {
            if address_len < needed {
                return None;
            }
        },
        None => {
            assert(address_len < pattern_len * min_length);
            return None;
        },
    }
    if address.len() < pattern_len {
        assert(address@.len() < unit@.len() * min_length || sequence_match_from(
            address@,
            unit@,
            min_length as nat,
            0,
        ) is None);
        return None;
    }
    let last_start = address.len() - pattern_len;
    let mut index: usize = 0;
    while index <= last_start
        invariant
            pattern_len == unit@.len(),
            pattern_len > 0,
            last_start == address.len() - pattern_len,
            index <= address.len(),
            sequence_match(address@, unit@, min_length as nat) == sequence_match_from(
                address@,
                unit@,
                min_length as nat,
                index as int,
            ),
        decreases address@.len() - index,
    {
        if block_matches(address, unit, index) {
            let mut match_count: usize = 1;
            let mut cursor = index + pattern_len;
            while cursor <= last_start && block_matches(address, unit, cursor)
                invariant
                    pattern_len == unit@.len(),
                    pattern_len > 0,
                    last_start == address.len() - pattern_len,
                    1 <= match_count <= cursor <= address.len(),
                    cursor == index + match_count * pattern_len,
                    tiles_at(address@, unit@, index as int) == match_count + tiles_at(
                        address@,
                        unit@,
                        cursor as int,
                    ),
                decreases address@.len() - cursor,
            {
                assert((match_count + 1) * pattern_len == match_count * pattern_len + pattern_len)
                    by (nonlinear_arith);
                match_count += 1;
                cursor += pattern_len;
            }
            assert(tiles_at(address@, unit@, index as int) == match_count);
            if match_count >= min_length {
                let mut repeated: Vec<u8> = Vec::with_capacity(cursor - index);
                let mut copies: usize = 0;
                while copies < match_count
                    invariant
                        copies <= match_count,
                        repeated@ == repeat_block(unit@, copies as nat),
                    decreases match_count - copies,
                {
                    let ghost before = repeated@;
                    repeated.extend_from_slice(unit);
                    assert(repeated@ =~= before + unit@);
                    copies += 1;
                }
                if let Some(found_pattern) = text_from_utf8(repeated) {
                    return Some(found_pattern);
                }
            }
            index = cursor;
            continue;
        }
        index += 1;
    }
    None
}

/// What one rule finds in an address.
pub open spec fn rule_match(address: Seq<u8>, rule: RuleModel) -> Option<Seq<u8>> {
    match rule.unit {
        UnitModel::Single(unit) => single_match(address, unit, rule.min_repeat),
        UnitModel::Sequence(unit) => sequence_match(address, unit, rule.min_repeat),
    }
}

/// The find of the first rule, from position `from` of the list on, that
/// finds anything.
pub open spec fn first_match(address: Seq<u8>, rules: Seq<RuleModel>, from: int) -> Option<Seq<u8>>
    decreases rules.len() - from,
{
    if from < 0 || from >= rules.len() {
        None
    } else {
        match rule_match(address, rules[from]) {
            Some(found) => Some(found),
            None => first_match(address, rules, from + 1),
        }
    }
}

/// The rarity find of a job in an address: that of its first rule that finds
/// anything; none where the job has no rules.
pub open spec fn rarity_match(address: Seq<u8>, job: JobModel) -> Option<Seq<u8>> {
    match job.rules {
        Some(rules) => first_match(address, rules, 0),
        None => None,
    }
}

/// Evaluates the job's rarity rules in order against an address and returns
/// the text matched by the first rule that is satisfied.
pub fn find_rare_pattern(address_bytes: &[u8], job_context: &JobContext) -> (found: Option<String>)
    ensures
        found_bytes(found) == rarity_match(address_bytes@, job_context@),
{
    let rules = match job_context.pattern_rules.as_ref() {
        Some(r) => r,
        None => {
            return None;
        },
    };
    let mut n: usize = 0;
    while n < rules.len()
        invariant
            n <= rules.len(),
            job_context@.rules == Some(rule_models(rules@)),
            rarity_match(address_bytes@, job_context@) == first_match(
                address_bytes@,
                rule_models(rules@),
                n as int,
            ),
        decreases rules.len() - n,
    {
        let rule = &rules[n];
        assert(rule_models(rules@)[n as int] == rule@);
        let found = match &rule.kind {
            PatternKind::Single(target) => find_single_run(address_bytes, *target, rule.min_length),
            PatternKind::Sequence(pattern_bytes) => find_block_tiling(
                address_bytes,
                pattern_bytes.as_slice(),
                rule.min_length,
            ),
        };
        if found.is_some() {
            return found;
        }
        n += 1;
    }
    None
}

} // verus!
