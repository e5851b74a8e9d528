//! What the rarity scan finds, said without reference to how it scans.

use vstd::prelude::*;
use vstd::utf8::{encode_utf8, encode_utf8_valid_utf8, valid_utf8, valid_utf8_concat};
use crate::rarity::{
    block_at, lemma_run_len_ends, repeat_block, repeat_byte, run_len, run_qualifies,
    first_match, rarity_match, rule_match, sequence_match, sequence_match_from, single_match,
    single_match_from, tiles_at, tiling_qualifies,
};
use crate::rules::{compile_rule, JobModel, PatternConfig, RuleModel, UnitModel};

verus! {

/// `count` positions from `start` on hold `unit`, and neither the position
/// before nor the one behind does.
pub open spec fn is_maximal_run(address: Seq<u8>, unit: u8, start: int, count: nat) -> bool {
    &&& 0 <= start
    &&& start + count <= address.len()
    &&& forall|j: int| start <= j < start + count ==> address[j] == unit
    &&& (start == 0 || address[start - 1] != unit)
    &&& (start + count == address.len() || address[start + count] != unit)
}

/// The run counted from `from` is a run, and it ends where the unit stops or
/// the address does.
pub proof fn lemma_run_len_is_run(address: Seq<u8>, unit: u8, from: int)
    requires
        0 <= from <= address.len(),
    ensures
        from + run_len(address, unit, from) <= address.len(),
        forall|j: int| from <= j < from + run_len(address, unit, from) ==> address[j] == unit,
        from + run_len(address, unit, from) == address.len() || address[from + run_len(
            address,
            unit,
            from,
        )] != unit,
    decreases address.len() - from,
{
    if from < address.len() && address[from] == unit {
        lemma_run_len_is_run(address, unit, from + 1);
    }
}

/// A maximal run is as long as the count from its start.
pub proof fn lemma_maximal_run_has_run_len(address: Seq<u8>, unit: u8, start: int, count: nat)
    requires
        is_maximal_run(address, unit, start, count),
    ensures
        count == run_len(address, unit, start),
{
    lemma_run_len_ends(address, unit, start, start + count);
}

proof fn lemma_single_match_from(address: Seq<u8>, unit: u8, min_repeat: nat, from: int)
    requires
        0 <= from <= address.len(),
        from == 0 || address[from - 1] != unit,
    ensures
        match single_match_from(address, unit, min_repeat, from) {
            Some(found) => exists|start: int, count: nat|
                {
                    &&& from <= start
                    &&& #[trigger] is_maximal_run(address, unit, start, count)
                    &&& run_qualifies(unit, count, min_repeat)
                    &&& found == repeat_byte(unit, count)
                    &&& forall|s: int, k: nat|
                        from <= s && #[trigger] is_maximal_run(address, unit, s, k)
                            && run_qualifies(unit, k, min_repeat) ==> start <= s
                },
            None => forall|s: int, k: nat|
                from <= s && #[trigger] is_maximal_run(address, unit, s, k) ==> !run_qualifies(
                    unit,
                    k,
                    min_repeat,
                ),
        },
    decreases address.len() - from,
{
    let count = run_len(address, unit, from);
    lemma_run_len_is_run(address, unit, from);
    assert(is_maximal_run(address, unit, from, count));
    assert forall|s: int, k: nat| from <= s && #[trigger] is_maximal_run(address, unit, s, k) implies s
        == from && k == count || s > from + count by {
        if s == from {
            lemma_maximal_run_has_run_len(address, unit, s, k);
        }
    }
    if run_qualifies(unit, count, min_repeat) {
    } else if from + count >= address.len() {
    } else {
        lemma_single_match_from(address, unit, min_repeat, from + count + 1);
    }
}

/// A run-length rule reports the first maximal run of its unit that
/// qualifies, in its whole length, and nothing where no maximal run
/// qualifies.
pub proof fn single_match_is_first_qualifying_run(address: Seq<u8>, unit: u8, min_repeat: nat)
    ensures
        match single_match(address, unit, min_repeat) {
            Some(found) => exists|start: int, count: nat|
                {
                    &&& #[trigger] is_maximal_run(address, unit, start, count)
                    &&& run_qualifies(unit, count, min_repeat)
                    &&& found == repeat_byte(unit, count)
                    &&& found == address.subrange(start, start + count)
                    &&& forall|s: int, k: nat|
                        #[trigger] is_maximal_run(address, unit, s, k) && run_qualifies(
                            unit,
                            k,
                            min_repeat,
                        ) ==> start <= s
                },
            None => forall|s: int, k: nat| #[trigger]
                is_maximal_run(address, unit, s, k) ==> !run_qualifies(unit, k, min_repeat),
        },
{
    lemma_single_match_from(address, unit, min_repeat, 0);
    match single_match(address, unit, min_repeat) {
        Some(found) => {
            let (start, count) = choose|start: int, count: nat|
                {
                    &&& 0 <= start
                    &&& #[trigger] is_maximal_run(address, unit, start, count)
                    &&& run_qualifies(unit, count, min_repeat)
                    &&& found == repeat_byte(unit, count)
                    &&& forall|s: int, k: nat|
                        0 <= s && #[trigger] is_maximal_run(address, unit, s, k) && run_qualifies(
                            unit,
                            k,
                            min_repeat,
                        ) ==> start <= s
                };
            assert(found =~= address.subrange(start, start + count));
            assert(is_maximal_run(address, unit, start, count));
        },
        None => {},
    }
}

/// A tiling starts at `start` and qualifies for the rule.
pub open spec fn qualifying_tiling_at(address: Seq<u8>, unit: Seq<u8>, min_repeat: nat, start: int) -> bool {
    &&& tiles_at(address, unit, start) >= 1
    &&& tiling_qualifies(unit, tiles_at(address, unit, start), min_repeat)
}

/// `at` lies behind the start of a tiling that does not qualify, and before
/// its end: the scan passes over it.
pub open spec fn inside_failed_tiling(address: Seq<u8>, unit: Seq<u8>, min_repeat: nat, at: int) -> bool {
    exists|t: int|
        {
            &&& 0 <= t < at
            &&& #[trigger] tiles_at(address, unit, t) >= 1
            &&& !tiling_qualifies(unit, tiles_at(address, unit, t), min_repeat)
            &&& at < t + tiles_at(address, unit, t) * unit.len()
        }
}

/// `count` copies of a block are `count` times as long as the block.
pub proof fn lemma_repeat_block_len(unit: Seq<u8>, count: nat)
    ensures
        repeat_block(unit, count).len() == count * unit.len(),
    decreases count,
{
    let len = unit.len();
    if count == 0 {
        assert(count * len == 0) by (nonlinear_arith)
            requires
                count == 0,
        ;
    } else {
        let fewer = (count - 1) as nat;
        lemma_repeat_block_len(unit, fewer);
        assert(count * len == fewer * len + len) by (nonlinear_arith)
            requires
                count == fewer + 1,
        ;
    }
}

/// Copies of a block can be counted from the front as well as from the back.
pub proof fn lemma_repeat_block_front(unit: Seq<u8>, count: nat)
    requires
        count >= 1,
    ensures
        repeat_block(unit, count) == unit + repeat_block(unit, (count - 1) as nat),
    decreases count,
{
    if count == 1 {
        assert(repeat_block(unit, 0) =~= Seq::<u8>::empty());
        assert(repeat_block(unit, 1) =~= unit + repeat_block(unit, 0));
    } else {
        lemma_repeat_block_front(unit, (count - 1) as nat);
        assert(repeat_block(unit, count) =~= unit + repeat_block(unit, (count - 1) as nat));
    }
}

/// A stretch of a sequence is its first part followed by the rest.
pub proof fn lemma_subrange_split(bytes: Seq<u8>, from: int, mid: int, to: int)
    requires
        0 <= from <= mid <= to <= bytes.len(),
    ensures
        bytes.subrange(from, to) == bytes.subrange(from, mid) + bytes.subrange(mid, to),
{
    assert(bytes.subrange(from, to) =~= bytes.subrange(from, mid) + bytes.subrange(mid, to));
}

/// The tiles counted from `from` lie in the address one behind the other,
/// and no further copy of the unit follows them.
pub proof fn lemma_tiles_at_is_tiling(address: Seq<u8>, unit: Seq<u8>, from: int)
    requires
        0 <= from <= address.len(),
        unit.len() > 0,
    ensures
        ({
            let tiling = repeat_block(unit, tiles_at(address, unit, from));
            &&& from + tiling.len() <= address.len()
            &&& address.subrange(from, from + tiling.len()) == tiling
            &&& !block_at(address, unit, from + tiling.len())
        }),
    decreases address.len() - from,
{
    let count = tiles_at(address, unit, from);
    let tiling = repeat_block(unit, count);
    if block_at(address, unit, from) {
        let behind = from + unit.len();
        let fewer = tiles_at(address, unit, behind);
        let rest = repeat_block(unit, fewer);
        assert(count == fewer + 1);
        lemma_tiles_at_is_tiling(address, unit, behind);
        lemma_repeat_block_front(unit, count);
        assert(tiling == unit + rest);
        assert(tiling.len() == unit.len() + rest.len());
        lemma_subrange_split(address, from, behind, behind + rest.len());
    } else {
        assert(count == 0);
        assert(tiling.len() == 0);
        assert(address.subrange(from, from) =~= tiling);
    }
}

proof fn lemma_sequence_match_from(address: Seq<u8>, unit: Seq<u8>, min_repeat: nat, from: int)
    requires
        0 <= from,
        unit.len() > 0,
        forall|s: int|
            0 <= s < from && qualifying_tiling_at(address, unit, min_repeat, s)
                ==> inside_failed_tiling(address, unit, min_repeat, s),
    ensures
        match sequence_match_from(address, unit, min_repeat, from) {
            Some(found) => exists|start: int|
                {
                    &&& 0 <= start
                    &&& #[trigger] qualifying_tiling_at(address, unit, min_repeat, start)
                    &&& found == repeat_block(unit, tiles_at(address, unit, start))
                    &&& forall|s: int|
                        0 <= s < start && qualifying_tiling_at(address, unit, min_repeat, s)
                            ==> inside_failed_tiling(address, unit, min_repeat, s)
                },
            None => forall|s: int|
                0 <= s && qualifying_tiling_at(address, unit, min_repeat, s)
                    ==> inside_failed_tiling(address, unit, min_repeat, s),
        },
    decreases
        (if from <= address.len() {
            address.len() - from
        } else {
            0
        }),
{
    if from + unit.len() > address.len() {
        assert forall|s: int| from <= s implies tiles_at(address, unit, s) == 0 by {}
    } else {
        let count = tiles_at(address, unit, from);
        if count == 0 {
            lemma_sequence_match_from(address, unit, min_repeat, from + 1);
        } else if tiling_qualifies(unit, count, min_repeat) {
            assert(qualifying_tiling_at(address, unit, min_repeat, from));
        } else {
            let next = from + count * unit.len();
            lemma_tiles_at_is_tiling(address, unit, from);
            lemma_repeat_block_len(unit, count);
            lemma_repeat_block_front(unit, count);
            assert(next >= from + 1);
            assert forall|s: int|
                0 <= s < next && qualifying_tiling_at(
                    address,
                    unit,
                    min_repeat,
                    s,
                ) implies inside_failed_tiling(address, unit, min_repeat, s) by {
                if s > from {
                    assert(tiles_at(address, unit, from) >= 1);
                }
            }
            lemma_sequence_match_from(address, unit, min_repeat, next);
        }
    }
}

/// A repeated-block rule reports a whole tiling of its unit that qualifies:
/// all the copies that stand one behind the other from its start. Every
/// qualifying tiling that starts further left starts inside a tiling that
/// failed, where the scan does not look. Where nothing is reported, every
/// qualifying tiling starts in such a place.
pub proof fn sequence_match_is_first_tiling(address: Seq<u8>, unit: Seq<u8>, min_repeat: nat)
    ensures
        match sequence_match(address, unit, min_repeat) {
            Some(found) => exists|start: int|
                {
                    &&& 0 <= start
                    &&& #[trigger] qualifying_tiling_at(address, unit, min_repeat, start)
                    &&& found == repeat_block(unit, tiles_at(address, unit, start))
                    &&& found == address.subrange(start, start + found.len())
                    &&& !block_at(address, unit, start + found.len())
                    &&& forall|s: int|
                        0 <= s < start && qualifying_tiling_at(address, unit, min_repeat, s)
                            ==> inside_failed_tiling(address, unit, min_repeat, s)
                },
            None => forall|s: int|
                qualifying_tiling_at(address, unit, min_repeat, s) ==> inside_failed_tiling(
                    address,
                    unit,
                    min_repeat,
                    s,
                ),
        },
{
    if unit.len() == 0 {
        assert forall|s: int| tiles_at(address, unit, s) == 0 by {}
    } else if address.len() < unit.len() * min_repeat {
        assert forall|s: int| !qualifying_tiling_at(address, unit, min_repeat, s) by {
            let count = tiles_at(address, unit, s);
            if count >= 1 {
                lemma_tiles_at_is_tiling(address, unit, s);
                lemma_repeat_block_len(unit, count);
                if count >= min_repeat {
                    assert(count * unit.len() >= unit.len() * min_repeat) by (nonlinear_arith)
                        requires
                            count >= min_repeat,
                    ;
                }
            }
        }
    } else {
        lemma_sequence_match_from(address, unit, min_repeat, 0);
        match sequence_match(address, unit, min_repeat) {
            Some(found) => {
                let start = choose|start: int|
                    {
                        &&& 0 <= start
                        &&& #[trigger] qualifying_tiling_at(address, unit, min_repeat, start)
                        &&& found == repeat_block(unit, tiles_at(address, unit, start))
                        &&& forall|s: int|
                            0 <= s < start && qualifying_tiling_at(address, unit, min_repeat, s)
                                ==> inside_failed_tiling(address, unit, min_repeat, s)
                    };
                lemma_tiles_at_is_tiling(address, unit, start);
                lemma_repeat_block_len(unit, tiles_at(address, unit, start));
            },
            None => {
                assert forall|s: int|
                    qualifying_tiling_at(
                        address,
                        unit,
                        min_repeat,
                        s,
                    ) implies inside_failed_tiling(address, unit, min_repeat, s) by {
                    assert(0 <= s);
                }
            },
        }
    }
}

/// Where no qualifying tiling starts inside a tiling that failed, a
/// repeated-block rule reports the leftmost qualifying tiling, with all its
/// copies, and reports nothing only where there is none.
pub proof fn sequence_match_is_first_qualifying_tiling(address: Seq<u8>, unit: Seq<u8>, min_repeat: nat)
    requires
        forall|s: int|
            qualifying_tiling_at(address, unit, min_repeat, s) ==> !inside_failed_tiling(
                address,
                unit,
                min_repeat,
                s,
            ),
    ensures
        match sequence_match(address, unit, min_repeat) {
            Some(found) => exists|start: int|
                {
                    &&& #[trigger] qualifying_tiling_at(address, unit, min_repeat, start)
                    &&& found == repeat_block(unit, tiles_at(address, unit, start))
                    &&& forall|s: int|
                        qualifying_tiling_at(address, unit, min_repeat, s) ==> start <= s
                },
            None => forall|s: int| !qualifying_tiling_at(address, unit, min_repeat, s),
        },
{
    sequence_match_is_first_tiling(address, unit, min_repeat);
    match sequence_match(address, unit, min_repeat) {
        Some(found) => {
            let start = choose|start: int|
                {
                    &&& 0 <= start
                    &&& #[trigger] qualifying_tiling_at(address, unit, min_repeat, start)
                    &&& found == repeat_block(unit, tiles_at(address, unit, start))
                    &&& forall|s: int|
                        0 <= s < start && qualifying_tiling_at(address, unit, min_repeat, s)
                            ==> inside_failed_tiling(address, unit, min_repeat, s)
                };
            assert forall|s: int| qualifying_tiling_at(address, unit, min_repeat, s) implies start
                <= s by {
                assert(0 <= s);
            }
        },
        None => {},
    }
}

proof fn lemma_first_match_from(address: Seq<u8>, rules: Seq<RuleModel>, from: int)
    requires
        0 <= from <= rules.len(),
    ensures
        match first_match(address, rules, from) {
            Some(found) => exists|i: int|
                {
                    &&& from <= i < rules.len()
                    &&& #[trigger] rule_match(address, rules[i]) == Some(found)
                    &&& forall|j: int| from <= j < i ==> rule_match(address, rules[j]) is None
                },
            None => forall|i: int| from <= i < rules.len() ==> rule_match(address, rules[i]) is None,
        },
    decreases rules.len() - from,
{
    if from < rules.len() && rule_match(address, rules[from]) is None {
        lemma_first_match_from(address, rules, from + 1);
    }
}

/// The order of the rules decides: the find of a job is that of the first
/// rule in the list that finds anything, whatever later rules would find,
/// and there is none only where no rule finds anything.
pub proof fn first_qualifying_rule_wins(address: Seq<u8>, job: JobModel)
    ensures
        match rarity_match(address, job) {
            Some(found) => job.rules matches Some(rules) && exists|i: int|
                {
                    &&& 0 <= i < rules.len()
                    &&& #[trigger] rule_match(address, rules[i]) == Some(found)
                    &&& forall|j: int| 0 <= j < i ==> rule_match(address, rules[j]) is None
                },
            None => job.rules matches Some(rules) ==> forall|i: int|
                0 <= i < rules.len() ==> rule_match(address, rules[i]) is None,
        },
{
    if let Some(rules) = job.rules {
        lemma_first_match_from(address, rules, 0);
    }
}

/// A job without rules, or with an empty list of them, has no rarity find
/// in any address.
pub proof fn no_rules_no_rare_find(address: Seq<u8>, job: JobModel)
    requires
        job.rules matches Some(rules) ==> rules.len() == 0,
    ensures
        rarity_match(address, job) is None,
{
}

/// The unit is text by itself: its bytes are valid UTF-8.
pub open spec fn unit_is_text(unit: UnitModel) -> bool {
    match unit {
        UnitModel::Single(byte) => valid_utf8(seq![byte]),
        UnitModel::Sequence(bytes) => valid_utf8(bytes),
    }
}

/// The unit of a rule compiled from a configured entry is text.
pub proof fn compiled_unit_is_text(config: PatternConfig)
    ensures
        compile_rule(config) matches Some(rule) ==> unit_is_text(rule.unit),
{
    let bytes = encode_utf8(config.pattern@);
    encode_utf8_valid_utf8(config.pattern@);
    if bytes.len() == 1 {
        assert(seq![bytes[0]] =~= bytes);
    }
}

/// A run of a byte that is text by itself qualifies by its length alone.
pub proof fn text_run_qualifies_by_length(unit: u8, count: nat, min_repeat: nat)
    requires
        valid_utf8(seq![unit]),
    ensures
        run_qualifies(unit, count, min_repeat) <==> count >= min_repeat,
    decreases count,
{
    if count == 0 {
        assert(repeat_byte(unit, 0) =~= Seq::<u8>::empty());
    } else {
        let fewer = (count - 1) as nat;
        text_run_qualifies_by_length(unit, fewer, fewer);
        valid_utf8_concat(repeat_byte(unit, fewer), seq![unit]);
        assert(repeat_byte(unit, count) =~= repeat_byte(unit, fewer) + seq![unit]);
    }
}

/// A tiling of a block that is text by itself qualifies by the number of
/// its copies alone.
pub proof fn text_tiling_qualifies_by_length(unit: Seq<u8>, count: nat, min_repeat: nat)
    requires
        valid_utf8(unit),
    ensures
        tiling_qualifies(unit, count, min_repeat) <==> count >= min_repeat,
    decreases count,
{
    if count > 0 {
        let fewer = (count - 1) as nat;
        text_tiling_qualifies_by_length(unit, fewer, fewer);
        valid_utf8_concat(repeat_block(unit, fewer), unit);
    }
}

} // verus!
