//! What holds of every style sheet that the parser makes.

use crate::renderer::css::cssom::drop_at_rule;
use crate::renderer::css::cssom::is_suffix_of;
use crate::renderer::css::cssom::lemma_drop_at_rule;
use crate::renderer::css::cssom::lemma_parse_rule_from_rest;
use crate::renderer::css::cssom::parse_qualified_rule;
use crate::renderer::css::cssom::parse_rules;
use crate::renderer::css::cssom::SelectorView;
use crate::renderer::css::token::CssTokenView;
use vstd::prelude::*;

verus! {

/// Every place of `offsets` moved on by `by`.
pub open spec fn shifted(offsets: Seq<int>, by: int) -> Seq<int> {
    Seq::new(offsets.len(), |i: int| offsets[i] + by)
}

/// Where in `ts` the rules of the style sheet start: for each rule of
/// `parse_rules(ts)`, in the same order, the number of tokens before the
/// first token of the rule.
pub open spec fn rule_starts(ts: Seq<CssTokenView>) -> Seq<int>
    decreases ts.len(),
    via rule_starts_decreases
{
    if ts.len() == 0 {
        Seq::empty()
    } else if ts[0] is AtKeyword {
        shifted(rule_starts(drop_at_rule(ts)), ts.len() - drop_at_rule(ts).len())
    } else {
        match parse_qualified_rule(ts) {
            Some(p) => seq![0int] + shifted(rule_starts(p.rest), ts.len() - p.rest.len()),
            None => Seq::empty(),
        }
    }
}

#[via_fn]
proof fn rule_starts_decreases(ts: Seq<CssTokenView>) {
    if ts.len() > 0 {
        lemma_drop_at_rule(ts);
        lemma_parse_rule_from_rest(ts, SelectorView::TypeSelector(Seq::empty()));
    }
}

/// The rules of a style sheet stand in the order in which they are
/// written: rule `i` of the sheet is the rule that is read at the place
/// `rule_starts(ts)[i]`, and these places go up with `i`.
pub proof fn lemma_rules_in_source_order(ts: Seq<CssTokenView>)
    ensures
        rule_starts(ts).len() == parse_rules(ts).len(),
        forall|i: int|
            0 <= i < rule_starts(ts).len() ==> 0 <= #[trigger] rule_starts(ts)[i] < ts.len(),
        forall|i: int, j: int|
            0 <= i < j < rule_starts(ts).len() ==> rule_starts(ts)[i] < rule_starts(ts)[j],
        forall|i: int|
            0 <= i < rule_starts(ts).len() ==> (parse_qualified_rule(
                ts.skip(#[trigger] rule_starts(ts)[i]),
            ) matches Some(p) && p.value == parse_rules(ts)[i]),
    decreases ts.len(),
{
    if ts.len() == 0 {
    } else if ts[0] is AtKeyword {
        let rest = drop_at_rule(ts);
        lemma_drop_at_rule(ts);
        lemma_rules_in_source_order(rest);
        lemma_shifted_starts(ts, rest);
    } else {
        lemma_parse_rule_from_rest(ts, SelectorView::TypeSelector(Seq::empty()));
        match parse_qualified_rule(ts) {
            Some(p) => {
                lemma_rules_in_source_order(p.rest);
                lemma_shifted_starts(ts, p.rest);
                let by = ts.len() - p.rest.len();
                let starts = rule_starts(ts);
                let inner = rule_starts(p.rest);
                assert(ts.skip(0) =~= ts);
                assert forall|i: int| 0 <= i < starts.len() implies 0 <= #[trigger] starts[i]
                    < ts.len() by {
                    if i > 0 {
                        assert(starts[i] == inner[i - 1] + by);
                    }
                }
                assert forall|i: int, j: int| 0 <= i < j < starts.len() implies starts[i]
                    < starts[j] by {
                    assert(starts[j] == inner[j - 1] + by);
                    if i > 0 {
                        assert(starts[i] == inner[i - 1] + by);
                    }
                }
                assert forall|i: int| 0 <= i < starts.len() implies (parse_qualified_rule(
                    ts.skip(#[trigger] starts[i]),
                ) matches Some(q) && q.value == parse_rules(ts)[i]) by {
                    if i > 0 {
                        assert(starts[i] == inner[i - 1] + by);
                        assert(ts.skip(starts[i]) =~= p.rest.skip(inner[i - 1]));
                        assert(parse_rules(ts)[i] == parse_rules(p.rest)[i - 1]);
                    }
                }
            },
            None => {},
        }
    }
}

/// Where `rest` is what remains of `ts`, and the law holds of `rest`, it
/// holds of the places of `rest` moved on by what stands before `rest`.
proof fn lemma_shifted_starts(ts: Seq<CssTokenView>, rest: Seq<CssTokenView>)
    requires
        is_suffix_of(rest, ts),
        rest.len() < ts.len(),
        rule_starts(rest).len() == parse_rules(rest).len(),
        forall|i: int|
            0 <= i < rule_starts(rest).len() ==> 0 <= #[trigger] rule_starts(rest)[i] < rest.len(),
        forall|i: int, j: int|
            0 <= i < j < rule_starts(rest).len() ==> rule_starts(rest)[i] < rule_starts(rest)[j],
        forall|i: int|
            0 <= i < rule_starts(rest).len() ==> (parse_qualified_rule(
                rest.skip(#[trigger] rule_starts(rest)[i]),
            ) matches Some(p) && p.value == parse_rules(rest)[i]),
    ensures
        ({
            let moved = shifted(rule_starts(rest), ts.len() - rest.len());
            &&& moved.len() == parse_rules(rest).len()
            &&& forall|i: int| 0 <= i < moved.len() ==> 0 < #[trigger] moved[i] < ts.len()
            &&& forall|i: int, j: int| 0 <= i < j < moved.len() ==> moved[i] < moved[j]
            &&& forall|i: int|
                0 <= i < moved.len() ==> (parse_qualified_rule(ts.skip(#[trigger] moved[i]))
                    matches Some(p) && p.value == parse_rules(rest)[i])
        }),
{
    let by = ts.len() - rest.len();
    let inner = rule_starts(rest);
    let moved = shifted(inner, by);
    assert forall|i: int| 0 <= i < moved.len() implies (parse_qualified_rule(
        ts.skip(#[trigger] moved[i]),
    ) matches Some(p) && p.value == parse_rules(rest)[i]) by {
        assert(moved[i] == inner[i] + by);
        assert(ts.skip(moved[i]) =~= rest.skip(inner[i]));
    }
    assert forall|i: int, j: int| 0 <= i < j < moved.len() implies moved[i] < moved[j] by {
        assert(moved[i] == inner[i] + by);
        assert(moved[j] == inner[j] + by);
    }
    assert forall|i: int| 0 <= i < moved.len() implies 0 < #[trigger] moved[i] < ts.len() by {
        assert(moved[i] == inner[i] + by);
    }
}

} // verus!
