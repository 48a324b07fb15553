//! The population-adjusted preference index.
//!
//! Observed match counts per race are divided by the share the baseline
//! assigns to that race, then all entries are normalized so the weights sum
//! to exactly one.  Weights are exact rationals: every raw weight is an
//! integer computed at a fixed precision, and each normalized weight is that
//! integer over the total of all raw weights.

use vstd::prelude::*;

use crate::baseline::RaceWeightDistribution;
use crate::race::Race;
use crate::race::RaceCounts;
use crate::race::race_order;
use crate::rat::Ratio;

verus! {

/// Raw weights are integers at this fixed precision: a raw weight is the
/// real-valued quotient scaled by this factor and rounded down.  The scale
/// cancels out of the normalized weights.
pub const WEIGHT_SCALE: u128 = 1_000_000;

/// One ranked entry of the preference index.
#[derive(Clone, Copy, PartialEq, Eq, Structural, Debug)]
pub struct RacialPreference {
    pub race: Race,
    /// Whether this entry belongs to the Hispanic sub-race breakdown.
    pub hispanic: bool,
    /// The normalized weight; all entries of one index share a denominator.
    pub weight: Ratio,
    /// The observed match count behind this entry.
    pub count: u32,
}

/// Why no index could be computed.
#[derive(Clone, Copy, PartialEq, Eq, Structural, Debug)]
pub enum PreferenceError {
    /// Every observed count fell below the sample cutoff, so the total raw
    /// weight was zero and nothing can be normalized.
    DegenerateDistribution,
}

/// Everything the preference index is computed from: observed counts from
/// the general and the Hispanic sub-race classifications, the two baseline
/// distributions, and the minimum-sample cutoff.
#[derive(Clone, Copy, PartialEq, Eq, Structural, Debug)]
pub struct PreferenceInputs {
    pub general_counts: RaceCounts,
    pub hispanic_counts: RaceCounts,
    pub general: RaceWeightDistribution,
    pub hispanic_sub: RaceWeightDistribution,
    pub cutoff: u32,
}

/// The keys of the index entries: each race except Hispanic itself, first
/// as the general-population entry, then as the Hispanic-variant entry.
/// Hispanic matches are reported only through the sub-race breakdown.
pub open spec fn key_list() -> Seq<(Race, bool)> {
    seq![
        (Race::WhiteCaucasian, false),
        (Race::BlackAfrican, false),
        (Race::NativeAmerican, false),
        (Race::Asian, false),
        (Race::PacificIslander, false),
        (Race::Multiracial, false),
        (Race::Other, false),
        (Race::WhiteCaucasian, true),
        (Race::BlackAfrican, true),
        (Race::NativeAmerican, true),
        (Race::Asian, true),
        (Race::PacificIslander, true),
        (Race::Multiracial, true),
        (Race::Other, true),
    ]
}

/// The observed count behind a key.
pub open spec fn count_of(inp: PreferenceInputs, key: (Race, bool)) -> u32 {
    if key.1 {
        inp.hispanic_counts.spec_get(key.0)
    } else {
        inp.general_counts.spec_get(key.0)
    }
}

/// The raw weight of a general-population entry: zero when the count falls
/// below the cutoff (or is zero), else the count divided by the race's
/// baseline fraction, at fixed precision:
/// `count * total * WEIGHT_SCALE / population`.
pub open spec fn spec_raw_general(inp: PreferenceInputs, r: Race) -> int {
    let c = inp.general_counts.spec_get(r) as int;
    if c < inp.cutoff as int || c == 0 {
        0
    } else {
        (c * inp.general.total as int * WEIGHT_SCALE as int) / inp.general.spec_get(r) as int
    }
}

/// The raw weight of a Hispanic-variant entry: zero below the cutoff, else
/// the count divided by the product of the overall Hispanic share and the
/// sub-race's share within the Hispanic subpopulation, at fixed precision:
/// `count * general_total * sub_total * WEIGHT_SCALE /
///  (hispanic_population * sub_population)`.
pub open spec fn spec_raw_hispanic(inp: PreferenceInputs, r: Race) -> int {
    let c = inp.hispanic_counts.spec_get(r) as int;
    if c < inp.cutoff as int || c == 0 {
        0
    } else {
        (c * inp.general.total as int * inp.hispanic_sub.total as int * WEIGHT_SCALE as int) / (
        inp.general.hispanic as int * inp.hispanic_sub.spec_get(r) as int)
    }
}

/// The raw weight behind a key.
pub open spec fn raw_of(inp: PreferenceInputs, key: (Race, bool)) -> int {
    if key.1 {
        spec_raw_hispanic(inp, key.0)
    } else {
        spec_raw_general(inp, key.0)
    }
}

/// The sum of the raw weights of a sequence of keys.
pub open spec fn raw_sum(inp: PreferenceInputs, keys: Seq<(Race, bool)>) -> int
    decreases keys.len(),
{
    if keys.len() == 0 {
        0
    } else {
        raw_sum(inp, keys.drop_last()) + raw_of(inp, keys.last())
    }
}

/// The total raw weight over every entry of the index.
pub open spec fn spec_total(inp: PreferenceInputs) -> int {
    raw_sum(inp, key_list())
}

/// The entry the index holds for a key, given the shared denominator.
pub open spec fn spec_entry(inp: PreferenceInputs, key: (Race, bool), den: u128) -> RacialPreference {
    RacialPreference {
        race: key.0,
        hispanic: key.1,
        weight: Ratio { num: raw_of(inp, key) as u128, den },
        count: count_of(inp, key),
    }
}

/// The entries for a sequence of keys, in key order.
pub open spec fn entries_of(inp: PreferenceInputs, keys: Seq<(Race, bool)>, den: u128) -> Seq<
    RacialPreference,
>
    decreases keys.len(),
{
    if keys.len() == 0 {
        Seq::empty()
    } else {
        entries_of(inp, keys.drop_last(), den).push(spec_entry(inp, keys.last(), den))
    }
}

/// The full entry list before ranking: one entry per key, each weighted
/// over the total raw weight.
pub open spec fn spec_entries(inp: PreferenceInputs) -> Seq<RacialPreference> {
    entries_of(inp, key_list(), spec_total(inp) as u128)
}

/// A key's division is well-defined: whenever its count reaches the cutoff
/// and is positive, the baseline shares it is divided by are positive.
pub open spec fn key_admissible(inp: PreferenceInputs, key: (Race, bool)) -> bool {
    if key.1 {
        inp.hispanic_counts.spec_get(key.0) >= inp.cutoff && inp.hispanic_counts.spec_get(key.0)
            > 0 ==> inp.general.hispanic > 0 && inp.hispanic_sub.spec_get(key.0) > 0
    } else {
        inp.general_counts.spec_get(key.0) >= inp.cutoff && inp.general_counts.spec_get(key.0)
            > 0 ==> inp.general.spec_get(key.0) > 0
    }
}

/// What `compute` requires of its inputs: well-formed baselines whose
/// totals fit the fixed-precision arithmetic, and a defined division for
/// every key of the index.
pub open spec fn inputs_admissible(inp: PreferenceInputs) -> bool {
    &&& inp.general.wf()
    &&& inp.hispanic_sub.wf()
    &&& inp.hispanic_sub.hispanic == 0
    &&& inp.general.total <= 0xFFFF_FFFF
    &&& inp.hispanic_sub.total <= 0xFFFF_FFFF
    &&& forall|i: int| 0 <= i < key_list().len() ==> key_admissible(inp, #[trigger] key_list()[i])
}

/// An upper bound on any raw weight.
pub open spec fn max_raw() -> int {
    0xFFFF_FFFF * 0xFFFF_FFFF * 0xFFFF_FFFF * (WEIGHT_SCALE as int)
}

/// The executable keys of the index, in the fixed entry order.
fn key_vec() -> (r: Vec<(Race, bool)>)
    ensures
        r@ == key_list(),
{
    let mut r: Vec<(Race, bool)> = Vec::new();
    r.push((Race::WhiteCaucasian, false));
    r.push((Race::BlackAfrican, false));
    r.push((Race::NativeAmerican, false));
    r.push((Race::Asian, false));
    r.push((Race::PacificIslander, false));
    r.push((Race::Multiracial, false));
    r.push((Race::Other, false));
    r.push((Race::WhiteCaucasian, true));
    r.push((Race::BlackAfrican, true));
    r.push((Race::NativeAmerican, true));
    r.push((Race::Asian, true));
    r.push((Race::PacificIslander, true));
    r.push((Race::Multiracial, true));
    r.push((Race::Other, true));
    proof {
        assert(r@ =~= key_list());
    }
    r
}

/// Runtime check of `inputs_admissible`, for callers outside the verified
/// world.
pub fn inputs_ok(inp: &PreferenceInputs) -> (b: bool)
    ensures
        b == inputs_admissible(*inp),
{
    let g = &inp.general;
    let h = &inp.hispanic_sub;
    let g_sum = g.white_caucasian as u128 + g.black_african as u128 + g.native_american as u128
        + g.asian as u128 + g.pacific_islander as u128 + g.multiracial as u128 + g.hispanic as u128
        + g.other as u128;
    let h_sum = h.white_caucasian as u128 + h.black_african as u128 + h.native_american as u128
        + h.asian as u128 + h.pacific_islander as u128 + h.multiracial as u128 + h.hispanic as u128
        + h.other as u128;
    let mut ok = g.total as u128 == g_sum && g.total > 0 && h.total as u128 == h_sum && h.total > 0
        && h.hispanic == 0 && g.total <= 0xFFFF_FFFF && h.total <= 0xFFFF_FFFF;
    let keys = key_vec();
    let mut i: usize = 0;
    while i < keys.len()
        invariant
            keys@ == key_list(),
            i <= keys@.len(),
            ok == {
                &&& inp.general.wf()
                &&& inp.hispanic_sub.wf()
                &&& inp.hispanic_sub.hispanic == 0
                &&& inp.general.total <= 0xFFFF_FFFF
                &&& inp.hispanic_sub.total <= 0xFFFF_FFFF
                &&& forall|j: int| 0 <= j < i ==> key_admissible(*inp, #[trigger] key_list()[j])
            },
        decreases keys@.len() - i,
    {
        let (race, hispanic_variant) = keys[i];
        let key_ok = if hispanic_variant {
            let c = inp.hispanic_counts.get(race);
            !(c >= inp.cutoff && c > 0) || (inp.general.hispanic > 0 && inp.hispanic_sub.get(race)
                > 0)
        } else {
            let c = inp.general_counts.get(race);
            !(c >= inp.cutoff && c > 0) || inp.general.get(race) > 0
        };
        proof {
            assert(key_ok == key_admissible(*inp, key_list()[i as int]));
        }
        ok = ok && key_ok;
        i = i + 1;
    }
    ok
}

/// The raw weight of one entry, as `raw_of` states it.
fn raw_weight(inputs: &PreferenceInputs, key: (Race, bool)) -> (w: u128)
    requires
        inputs.general.wf(),
        inputs.hispanic_sub.wf(),
        inputs.general.total <= 0xFFFF_FFFF,
        inputs.hispanic_sub.total <= 0xFFFF_FFFF,
        key_admissible(*inputs, key),
    ensures
        w as int == raw_of(*inputs, key),
        0 <= w as int <= max_raw(),
{
    let (race, hispanic_variant) = key;
    if hispanic_variant {
        let c = inputs.hispanic_counts.get(race);
        if c < inputs.cutoff || c == 0 {
            0
        } else {
            let gh = inputs.general.hispanic;
            let p = inputs.hispanic_sub.get(race);
            proof {
                assert(gh > 0 && p > 0);
                vstd::arithmetic::mul::lemma_mul_upper_bound(
                    c as int,
                    0xFFFF_FFFF,
                    inputs.general.total as int,
                    0xFFFF_FFFF,
                );
                vstd::arithmetic::mul::lemma_mul_upper_bound(
                    c as int * inputs.general.total as int,
                    0xFFFF_FFFFint * 0xFFFF_FFFFint,
                    inputs.hispanic_sub.total as int,
                    0xFFFF_FFFF,
                );
                vstd::arithmetic::mul::lemma_mul_inequality(
                    c as int * inputs.general.total as int * inputs.hispanic_sub.total as int,
                    0xFFFF_FFFFint * 0xFFFF_FFFFint * 0xFFFF_FFFFint,
                    WEIGHT_SCALE as int,
                );
                vstd::arithmetic::mul::lemma_mul_nonnegative(
                    c as int * inputs.general.total as int,
                    inputs.hispanic_sub.total as int,
                );
                vstd::arithmetic::mul::lemma_mul_nonnegative(
                    c as int * inputs.general.total as int * inputs.hispanic_sub.total as int,
                    WEIGHT_SCALE as int,
                );
                vstd::arithmetic::mul::lemma_mul_upper_bound(
                    gh as int,
                    0xFFFF_FFFF,
                    p as int,
                    0xFFFF_FFFF,
                );
                vstd::arithmetic::mul::lemma_mul_strictly_positive(gh as int, p as int);
            }
            let num = c as u128 * inputs.general.total as u128 * inputs.hispanic_sub.total as u128
                * WEIGHT_SCALE;
            let den = gh as u128 * p as u128;
            let w = num / den;
            proof {
                vstd::arithmetic::div_mod::lemma_div_pos_is_pos(num as int, den as int);
                vstd::arithmetic::div_mod::lemma_div_nonincreasing(num as int, den as int);
            }
            w
        }
    } else {
        let c = inputs.general_counts.get(race);
        if c < inputs.cutoff || c == 0 {
            0
        } else {
            let p = inputs.general.get(race);
            proof {
                assert(p > 0);
                vstd::arithmetic::mul::lemma_mul_upper_bound(
                    c as int,
                    0xFFFF_FFFF,
                    inputs.general.total as int,
                    0xFFFF_FFFF,
                );
                vstd::arithmetic::mul::lemma_mul_inequality(
                    c as int * inputs.general.total as int,
                    0xFFFF_FFFFint * 0xFFFF_FFFFint,
                    WEIGHT_SCALE as int,
                );
                vstd::arithmetic::mul::lemma_mul_nonnegative(
                    c as int * inputs.general.total as int,
                    WEIGHT_SCALE as int,
                );
                assert(0xFFFF_FFFF * 0xFFFF_FFFF * (WEIGHT_SCALE as int) <= max_raw())
                    by (nonlinear_arith);
            }
            let num = c as u128 * inputs.general.total as u128 * WEIGHT_SCALE;
            let w = num / (p as u128);
            proof {
                vstd::arithmetic::div_mod::lemma_div_pos_is_pos(num as int, p as int);
                vstd::arithmetic::div_mod::lemma_div_nonincreasing(num as int, p as int);
            }
            w
        }
    }
}

/// The ranking order: descending by weight; ties broken by race
/// declaration order, then non-Hispanic before the Hispanic variant.
/// `pref_le(a, b)` says `a` may stand before `b`.
pub open spec fn pref_le(a: RacialPreference, b: RacialPreference) -> bool {
    ||| a.weight.num > b.weight.num
    ||| (a.weight.num == b.weight.num && race_order(a.race) < race_order(b.race))
    ||| (a.weight.num == b.weight.num && race_order(a.race) == race_order(b.race) && (!a.hispanic
        || b.hispanic))
}

/// The sequence is ranked: every earlier entry may stand before every later
/// one.
pub open spec fn sorted_prefs(s: Seq<RacialPreference>) -> bool {
    forall|i: int, j: int| 0 <= i < j < s.len() ==> pref_le(#[trigger] s[i], #[trigger] s[j])
}

/// The ranking order is total.
proof fn lemma_pref_le_total(a: RacialPreference, b: RacialPreference)
    ensures
        pref_le(a, b) || pref_le(b, a),
{
}

/// The ranking order is transitive.
proof fn lemma_pref_le_trans(a: RacialPreference, b: RacialPreference, c: RacialPreference)
    requires
        pref_le(a, b),
        pref_le(b, c),
    ensures
        pref_le(a, c),
{
}

/// The sum of the weight numerators of a sequence of entries.
pub open spec fn wsum(s: Seq<RacialPreference>) -> int
    decreases s.len(),
{
    if s.len() == 0 {
        0
    } else {
        wsum(s.drop_last()) + s.last().weight.num as int
    }
}

/// Inserting an entry anywhere adds its numerator to the sum.
proof fn lemma_wsum_insert(s: Seq<RacialPreference>, pos: int, x: RacialPreference)
    requires
        0 <= pos <= s.len(),
    ensures
        wsum(s.insert(pos, x)) == wsum(s) + x.weight.num,
    decreases s.len(),
{
    let t = s.insert(pos, x);
    s.insert_ensures(pos, x);
    if pos == s.len() {
        assert(t =~= s.push(x));
        assert(t.drop_last() =~= s);
    } else {
        assert(t.last() == s.last());
        s.drop_last().insert_ensures(pos, x);
        assert(t.drop_last() =~= s.drop_last().insert(pos, x));
        lemma_wsum_insert(s.drop_last(), pos, x);
    }
}

/// The ranking comparison.
fn pref_before(a: &RacialPreference, b: &RacialPreference) -> (r: bool)
    ensures
        r == pref_le(*a, *b),
{
    if a.weight.num > b.weight.num {
        true
    } else if a.weight.num == b.weight.num {
        let oa = a.race.order();
        let ob = b.race.order();
        if oa < ob {
            true
        } else if oa == ob {
            !a.hispanic || b.hispanic
        } else {
            false
        }
    } else {
        false
    }
}

/// Ranks the entries by insertion, keeping exactly the same entries and the
/// same weight sum.
fn sort_prefs(input: Vec<RacialPreference>) -> (r: Vec<RacialPreference>)
    ensures
        r@.len() == input@.len(),
        sorted_prefs(r@),
        r@.to_multiset() == input@.to_multiset(),
        wsum(r@) == wsum(input@),
{
    broadcast use vstd::seq_lib::group_to_multiset_ensures;
    broadcast use vstd::seq_lib::to_multiset_insert;

    let mut r: Vec<RacialPreference> = Vec::new();
    let n = input.len();
    proof {
        assert(r@.to_multiset() =~= input@.take(0).to_multiset());
        assert(wsum(r@) == wsum(input@.take(0)));
    }
    for idx in 0..n
        invariant
            n == input@.len(),
            r@.len() == idx,
            sorted_prefs(r@),
            r@.to_multiset() == input@.take(idx as int).to_multiset(),
            wsum(r@) == wsum(input@.take(idx as int)),
    {
        let x = input[idx];
        let mut pos: usize = 0;
        while pos < r.len() && pref_before(&r[pos], &x)
            invariant
                pos <= r@.len(),
                forall|k: int| 0 <= k < pos ==> pref_le(#[trigger] r@[k], x),
            decreases r@.len() - pos,
        {
            pos = pos + 1;
        }
        let ghost old_r = r@;
        r.insert(pos, x);
        proof {
            old_r.insert_ensures(pos as int, x);
            // the same entries, extended by x
            assert(input@.take(idx + 1).drop_last() =~= input@.take(idx as int));
            assert(input@.take(idx + 1).last() == input@[idx as int]);
            assert(input@.take(idx as int).push(x) =~= input@.take(idx + 1));
            vstd::seq_lib::to_multiset_insert(old_r, pos as int, x);
            vstd::seq_lib::to_multiset_build(input@.take(idx as int), x);
            assert(r@.to_multiset() == input@.take(idx + 1).to_multiset());
            // the weight sum, extended by x's numerator
            lemma_wsum_insert(old_r, pos as int, x);
            // still ranked
            assert forall|i: int, j: int| 0 <= i < j < r@.len() implies pref_le(
                #[trigger] r@[i],
                #[trigger] r@[j],
            ) by {
                if j < pos {
                } else if i < pos && j == pos {
                } else if i == pos {
                    lemma_pref_le_total(old_r[pos as int], x);
                    assert(pref_le(x, old_r[pos as int]));
                    if j > pos + 1 {
                        lemma_pref_le_trans(x, old_r[pos as int], old_r[j - 1]);
                    }
                } else if i < pos && j > pos {
                } else {
                    // pos < i < j: both are shifted old entries
                    assert(r@[i] == old_r[i - 1] && r@[j] == old_r[j - 1]);
                }
            }
        }
    }
    proof {
        assert(input@.take(n as int) =~= input@);
    }
    r
}

/// Each position of the entry list holds the entry of its key.
proof fn lemma_entries_index(inp: PreferenceInputs, keys: Seq<(Race, bool)>, den: u128)
    ensures
        entries_of(inp, keys, den).len() == keys.len(),
        forall|j: int| 0 <= j < keys.len() ==> entries_of(inp, keys, den)[j] == spec_entry(
            inp,
            #[trigger] keys[j],
            den,
        ),
    decreases keys.len(),
{
    if keys.len() > 0 {
        lemma_entries_index(inp, keys.drop_last(), den);
        let e = entries_of(inp, keys, den);
        assert forall|j: int| 0 <= j < keys.len() implies e[j] == spec_entry(
            inp,
            #[trigger] keys[j],
            den,
        ) by {
            if j < keys.len() - 1 {
                assert(keys.drop_last()[j] == keys[j]);
                assert(e[j] == entries_of(inp, keys.drop_last(), den)[j]);
            } else {
                assert(e[j] == spec_entry(inp, keys.last(), den));
            }
        }
    }
}

/// Computes the ranked preference index.
///
/// Every key of `key_list` contributes exactly one entry; each entry's
/// weight numerator is its raw weight and every entry shares the total raw
/// weight as denominator, so the weights sum to exactly one.  An entry
/// whose count falls below the cutoff has weight exactly zero.  The result
/// is ranked by `pref_le`.  When every raw weight is zero the index is
/// meaningless and `DegenerateDistribution` is returned instead.
pub fn compute(inputs: &PreferenceInputs) -> (r: Result<Vec<RacialPreference>, PreferenceError>)
    requires
        inputs_admissible(*inputs),
    ensures
        r is Ok <==> spec_total(*inputs) > 0,
        r is Err ==> r == Err::<Vec<RacialPreference>, PreferenceError>(
            PreferenceError::DegenerateDistribution,
        ),
        r matches Ok(v) ==> {
            &&& v@.len() == key_list().len()
            &&& sorted_prefs(v@)
            &&& v@.to_multiset() == spec_entries(*inputs).to_multiset()
            &&& wsum(v@) == spec_total(*inputs)
            &&& forall|i: int| 0 <= i < v@.len() ==> (#[trigger] v@[i]).weight.den as int
                == spec_total(*inputs)
            &&& forall|i: int| 0 <= i < v@.len() ==> ((#[trigger] v@[i]).count < inputs.cutoff
                ==> v@[i].weight.num == 0)
        },
{
    broadcast use vstd::seq_lib::group_to_multiset_ensures;

    let keys = key_vec();
    let n = keys.len();
    let mut total: u128 = 0;
    for i in 0..n
        invariant
            n == keys@.len(),
            keys@ == key_list(),
            inputs_admissible(*inputs),
            total as int == raw_sum(*inputs, keys@.take(i as int)),
            total as int <= i as int * max_raw(),
    {
        proof {
            assert(keys@.take(i + 1).drop_last() =~= keys@.take(i as int));
            assert(keys@.take(i + 1).last() == keys@[i as int]);
            assert(key_admissible(*inputs, keys@[i as int]));
            vstd::arithmetic::mul::lemma_mul_inequality(i as int, 13, max_raw());
            assert((i as int + 1) * max_raw() == i as int * max_raw() + max_raw())
                by (nonlinear_arith);
        }
        let w = raw_weight(inputs, keys[i]);
        total = total + w;
    }
    proof {
        assert(keys@.take(n as int) =~= keys@);
    }
    if total == 0 {
        return Err(PreferenceError::DegenerateDistribution);
    }
    let mut v: Vec<RacialPreference> = Vec::new();
    for i in 0..n
        invariant
            n == keys@.len(),
            keys@ == key_list(),
            inputs_admissible(*inputs),
            total as int == spec_total(*inputs),
            v@ == entries_of(*inputs, keys@.take(i as int), total),
            wsum(v@) == raw_sum(*inputs, keys@.take(i as int)),
    {
        proof {
            assert(keys@.take(i + 1).drop_last() =~= keys@.take(i as int));
            assert(keys@.take(i + 1).last() == keys@[i as int]);
            assert(key_admissible(*inputs, keys@[i as int]));
        }
        let key = keys[i];
        let w = raw_weight(inputs, key);
        let count = if key.1 {
            inputs.hispanic_counts.get(key.0)
        } else {
            inputs.general_counts.get(key.0)
        };
        let entry = RacialPreference {
            race: key.0,
            hispanic: key.1,
            weight: Ratio { num: w, den: total },
            count,
        };
        let ghost old_v = v@;
        v.push(entry);
        proof {
            assert(entry == spec_entry(*inputs, keys@[i as int], total));
            assert(v@ =~= entries_of(*inputs, keys@.take(i + 1), total));
            assert(v@.drop_last() =~= old_v);
        }
    }
    proof {
        assert(keys@.take(n as int) =~= keys@);
        assert(total == spec_total(*inputs) as u128);
        assert(v@ == spec_entries(*inputs));
    }
    let sorted = sort_prefs(v);
    proof {
        let entries = spec_entries(*inputs);
        lemma_entries_index(*inputs, key_list(), spec_total(*inputs) as u128);
        assert forall|i: int| 0 <= i < sorted@.len() implies (#[trigger] sorted@[i]).weight.den
            as int == spec_total(*inputs) && (sorted@[i].count < inputs.cutoff
            ==> sorted@[i].weight.num == 0) by {
            assert(sorted@.contains(sorted@[i]));
            assert(sorted@.to_multiset().count(sorted@[i]) > 0);
            assert(entries.contains(sorted@[i]));
            let j = choose|j: int| 0 <= j < entries.len() && entries[j] == sorted@[i];
            assert(entries[j] == spec_entry(*inputs, key_list()[j], spec_total(*inputs) as u128));
        }
    }
    Ok(sorted)
}

/// The normalized weights of a computed index sum to exactly one: each
/// weight is its entry's numerator over the shared total, the numerators
/// sum to that total, and the total is positive.
pub proof fn lemma_weights_sum_to_one(s: Seq<RacialPreference>, d: int)
    requires
        d > 0,
        forall|i: int| 0 <= i < s.len() ==> (#[trigger] s[i]).weight.den == d,
        wsum(s) == d,
    ensures
        crate::rat::rat_eq(crate::rat::rat_sum(weight_rats(s)), (1int, 1int)),
{
    lemma_weight_rats_align(s);
    crate::rat::lemma_rat_sum_is_one(weight_rats(s), d);
}

/// The weights of the entries, as rationals.
pub open spec fn weight_rats(s: Seq<RacialPreference>) -> Seq<(int, int)> {
    s.map_values(|p: RacialPreference| p.weight.view_rat())
}

/// The numerator sum of the weight rationals is the weight sum.
proof fn lemma_weight_rats_align(s: Seq<RacialPreference>)
    ensures
        crate::rat::num_sum(weight_rats(s)) == wsum(s),
    decreases s.len(),
{
    if s.len() == 0 {
        assert(weight_rats(s) =~= Seq::<(int, int)>::empty());
    } else {
        lemma_weight_rats_align(s.drop_last());
        assert(weight_rats(s).drop_last() =~= weight_rats(s.drop_last()));
        assert(weight_rats(s).last() == (s.last().weight.num as int, s.last().weight.den as int));
    }
}

} // verus!
