//! The laws of the combinator algebra, proved once and for all over the
//! ghost interpreter [`p_run`]: consumed input is a prefix, alternation is
//! left-biased, sequencing threads the remaining input, repetition respects
//! its bounds and is greedy, mapping touches only the value, and relabeling
//! touches only the reported expectation.

use crate::sem::apply_t;
use crate::sem::label_of;
use crate::sem::many_label;
use crate::sem::p_run;
use crate::sem::rep_run;
use crate::sem::Transform;
use crate::sem::ES;
use crate::sem::PV;
use crate::sem::RR;
use crate::value::VS;
use vstd::prelude::*;

verus! {

/// `r` is an unconsumed tail of `s`.
pub open spec fn suffix_of(r: Seq<char>, s: Seq<char>) -> bool {
    r.len() <= s.len() && r == s.skip(s.len() - r.len())
}

/// A suffix decomposes its string into consumed prefix and tail.
proof fn lemma_suffix_concat(r: Seq<char>, s: Seq<char>)
    requires
        suffix_of(r, s),
    ensures
        s == s.take(s.len() - r.len()) + r,
{
    assert(s =~= s.take(s.len() - r.len()) + s.skip(s.len() - r.len()));
}

/// Suffixes compose.
proof fn lemma_suffix_trans(r2: Seq<char>, r1: Seq<char>, s: Seq<char>)
    requires
        suffix_of(r2, r1),
        suffix_of(r1, s),
    ensures
        suffix_of(r2, s),
{
    assert(s.skip(s.len() - r2.len()) =~= r1.skip(r1.len() - r2.len()));
}

/// Whatever a parser leaves unconsumed is a tail of what it was given.
proof fn lemma_run_suffix(rules: Seq<PV>, p: PV, s: Seq<char>, fuel: nat)
    ensures
        p_run(rules, p, s, fuel) matches RR::Good(v, r) ==> suffix_of(r, s),
    decreases fuel, p, 0nat,
{
    assert(suffix_of(s, s)) by {
        assert(s.skip(0) =~= s);
    }
    if s.len() > 0 {
        assert(suffix_of(s.skip(1), s));
    }
    match p {
        PV::Text(l) => {
            if l.is_prefix_of(s) {
                assert(suffix_of(s.skip(l.len() as int), s));
            }
        },
        PV::Apply(q, _) => {
            lemma_run_suffix(rules, *q, s, fuel);
        },
        PV::Both(a, b) => {
            lemma_run_suffix(rules, *a, s, fuel);
            if let RR::Good(_, r1) = p_run(rules, *a, s, fuel) {
                lemma_run_suffix(rules, *b, r1, fuel);
                if let RR::Good(_, r2) = p_run(rules, *b, r1, fuel) {
                    lemma_suffix_trans(r2, r1, s);
                }
            }
        },
        PV::Either(a, b) => {
            lemma_run_suffix(rules, *a, s, fuel);
            lemma_run_suffix(rules, *b, s, fuel);
        },
        PV::SkipLeft(a, b) => {
            lemma_run_suffix(rules, *a, s, fuel);
            if let RR::Good(_, r1) = p_run(rules, *a, s, fuel) {
                lemma_run_suffix(rules, *b, r1, fuel);
                if let RR::Good(_, r2) = p_run(rules, *b, r1, fuel) {
                    lemma_suffix_trans(r2, r1, s);
                }
            }
        },
        PV::SkipRight(a, b) => {
            lemma_run_suffix(rules, *a, s, fuel);
            if let RR::Good(_, r1) = p_run(rules, *a, s, fuel) {
                lemma_run_suffix(rules, *b, r1, fuel);
                if let RR::Good(_, r2) = p_run(rules, *b, r1, fuel) {
                    lemma_suffix_trans(r2, r1, s);
                }
            }
        },
        PV::Many(q, lo, hi) => {
            let cnt: nat = match hi {
                Some(h) => h as nat,
                None => usize::MAX as nat,
            };
            lemma_rep_suffix(rules, *q, s, cnt, fuel);
        },
        PV::Perhaps(q) => {
            lemma_run_suffix(rules, *q, s, fuel);
        },
        PV::IntoInt(q) => {
            lemma_run_suffix(rules, *q, s, fuel);
        },
        PV::Tag(q, _) => {
            lemma_run_suffix(rules, *q, s, fuel);
        },
        PV::Rule(n) => {
            if fuel > 0 && n < rules.len() {
                lemma_run_suffix(rules, rules[n as int], s, (fuel - 1) as nat);
            }
        },
        _ => {},
    }
}

/// What repetition leaves unconsumed is a tail of what it was given.
proof fn lemma_rep_suffix(rules: Seq<PV>, p: PV, s: Seq<char>, count: nat, fuel: nat)
    ensures
        suffix_of(rep_run(rules, p, s, count, fuel).rest, s),
    decreases fuel, p, count,
{
    assert(suffix_of(s, s)) by {
        assert(s.skip(0) =~= s);
    }
    if count > 0 {
        lemma_run_suffix(rules, p, s, fuel);
        if let RR::Good(_, r) = p_run(rules, p, s, fuel) {
            lemma_rep_suffix(rules, p, r, (count - 1) as nat, fuel);
            lemma_suffix_trans(rep_run(rules, p, r, (count - 1) as nat, fuel).rest, r, s);
        }
    }
}

/// When a parser succeeds, its input is exactly the consumed prefix
/// concatenated with the remaining input it reports.
pub proof fn lemma_consumed_prefix(rules: Seq<PV>, p: PV, s: Seq<char>, fuel: nat)
    ensures
        p_run(rules, p, s, fuel) matches RR::Good(v, r) ==> r.len() <= s.len() && s == s.take(
            s.len() - r.len(),
        ) + r,
{
    lemma_run_suffix(rules, p, s, fuel);
    if let RR::Good(_, r) = p_run(rules, p, s, fuel) {
        lemma_suffix_concat(r, s);
    }
}

/// Alternation is left-biased: when the left side succeeds its outcome is
/// the whole outcome, and when it fails the right side is run against the
/// original input and its outcome, success or failure, is the whole one.
pub proof fn lemma_alternation_left_bias(rules: Seq<PV>, a: PV, b: PV, s: Seq<char>, fuel: nat)
    ensures
        p_run(rules, a, s, fuel) matches RR::Good(v, r) ==> p_run(
            rules,
            PV::Either(Box::new(a), Box::new(b)),
            s,
            fuel,
        ) == RR::Good(v, r),
        p_run(rules, a, s, fuel) is Bad ==> p_run(
            rules,
            PV::Either(Box::new(a), Box::new(b)),
            s,
            fuel,
        ) == p_run(rules, b, s, fuel),
{
}

/// Sequencing threads the remaining input: the pair succeeds exactly when
/// the left side succeeds and the right side succeeds on what the left
/// side leaves, the value is the pair of both values, and the failure is
/// whichever side failed first.
pub proof fn lemma_sequence_threading(rules: Seq<PV>, a: PV, b: PV, s: Seq<char>, fuel: nat)
    ensures
        ({
            let out = p_run(rules, PV::Both(Box::new(a), Box::new(b)), s, fuel);
            &&& (p_run(rules, a, s, fuel) matches RR::Bad(e) ==> out == RR::Bad(e))
            &&& (p_run(rules, a, s, fuel) matches RR::Good(va, r1) ==> (match p_run(
                rules,
                b,
                r1,
                fuel,
            ) {
                RR::Good(vb, r2) => out == RR::Good(VS::Pair(Box::new(va), Box::new(vb)), r2),
                RR::Bad(e) => out == RR::Bad(e),
            }))
            &&& (out is Good <==> (p_run(rules, a, s, fuel) matches RR::Good(va, r1) && p_run(
                rules,
                b,
                r1,
                fuel,
            ) is Good))
        }),
{
}

/// How many repetitions a bound allows: the upper bound, or the largest
/// machine count when it is unbounded.
pub open spec fn rep_count(hi: Option<usize>) -> nat {
    match hi {
        Some(h) => h as nat,
        None => usize::MAX as nat,
    }
}

/// The collected items, remaining input and stopping error of the greedy
/// repetition loop.
proof fn lemma_rep_props(rules: Seq<PV>, p: PV, s: Seq<char>, count: nat, fuel: nat)
    ensures
        rep_run(rules, p, s, count, fuel).items.len() <= count,
        rep_run(rules, p, s, count, fuel).stop is None ==> rep_run(
            rules,
            p,
            s,
            count,
            fuel,
        ).items.len() == count,
        rep_run(rules, p, s, count, fuel).stop matches Some(e) ==> p_run(
            rules,
            p,
            rep_run(rules, p, s, count, fuel).rest,
            fuel,
        ) == RR::Bad(e),
    decreases count,
{
    if count > 0 {
        if let RR::Good(_, r) = p_run(rules, p, s, fuel) {
            lemma_rep_props(rules, p, r, (count - 1) as nat, fuel);
        }
    }
}

/// Bounded repetition: a successful repetition returns between `lo` and
/// `hi` items; it is greedy, stopping only at the bound or at the first
/// failure of the inner parser on what remains; and when fewer than `lo`
/// repetitions can be matched, the whole repetition fails.
pub proof fn lemma_repetition_bounds(
    rules: Seq<PV>,
    q: PV,
    lo: usize,
    hi: Option<usize>,
    s: Seq<char>,
    fuel: nat,
)
    requires
        lo as nat <= rep_count(hi),
    ensures
        ({
            let out = p_run(rules, PV::Many(Box::new(q), lo, hi), s, fuel);
            let ro = rep_run(rules, q, s, rep_count(hi), fuel);
            &&& (out matches RR::Good(v, r) ==> v == VS::List(ro.items) && r == ro.rest
                && lo as nat <= ro.items.len() <= rep_count(hi))
            &&& (out matches RR::Good(v, r) ==> (ro.items.len() < rep_count(hi) ==> p_run(
                rules,
                q,
                r,
                fuel,
            ) is Bad))
            &&& (ro.items.len() < lo as nat ==> out is Bad)
        }),
{
    lemma_rep_props(rules, q, s, rep_count(hi), fuel);
}

/// Mapping touches only the value: mapping a failing parser yields the
/// identical failure, and mapping a successful one transforms the value
/// and never the remaining input.
pub proof fn lemma_map_semantics(rules: Seq<PV>, q: PV, t: Transform, s: Seq<char>, fuel: nat)
    ensures
        p_run(rules, q, s, fuel) matches RR::Bad(e) ==> p_run(
            rules,
            PV::Apply(Box::new(q), t),
            s,
            fuel,
        ) == RR::Bad(e),
        p_run(rules, q, s, fuel) matches RR::Good(v, r) ==> p_run(
            rules,
            PV::Apply(Box::new(q), t),
            s,
            fuel,
        ) == RR::Good(apply_t(t, v), r),
{
}

/// Relabeling changes only the reported expectation on failure, never the
/// matching behaviour: successes are untouched, and a failure keeps its
/// found text and remaining input.
pub proof fn lemma_relabel(rules: Seq<PV>, q: PV, l: Seq<char>, s: Seq<char>, fuel: nat)
    ensures
        p_run(rules, q, s, fuel) matches RR::Good(v, r) ==> p_run(
            rules,
            PV::Tag(Box::new(q), l),
            s,
            fuel,
        ) == RR::Good(v, r),
        p_run(rules, q, s, fuel) matches RR::Bad(e) ==> p_run(
            rules,
            PV::Tag(Box::new(q), l),
            s,
            fuel,
        ) == RR::Bad(ES { actual: e.actual, expected: l, remaining: e.remaining }),
{
}

} // verus!
