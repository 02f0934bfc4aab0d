//! Substitution in type-level expressions. An arm of a `match` is a scope: the
//! parameters of its selectors hide outer parameters of the same name, and are
//! renamed where the argument would be captured by them.

use vstd::prelude::*;
use crate::binder::{
    generics_substituted, hidden_substituted, substitute_generics, substitute_hidden,
    substitute_list,
};
use crate::conflict::params_conflict;
use crate::expr::{
    arm_occurrences, arms_view, collect_arm, depth, lemma_arms_depth, lemma_arms_depth_equal,
    lemma_view_match, selector_hides, selector_shadows, SelectorView, TypeLevelArm,
    TypeLevelArmSelector, TypeLevelArmView, TypeLevelExpr, TypeLevelExprMatchView,
    TypeLevelExprView,
};
use crate::generics::{GenericParam, GenericParamView};
use crate::occurrence::Occurrence;
use crate::rename::{
    rename_params, renamed_generics, renames, renames_view, Conflict, ConflictView, RenameView,
};
use crate::subst::{list_substituted, substitute_node, substituted, ArgView, ParamSubstArg};
use crate::syntax::nodes_view;

verus! {

/// The names that the parameters of a scope must stay clear of when `a` is
/// brought into the scope.
pub open spec fn conflict_of(a: ArgView) -> ConflictView {
    match a {
        ArgView::Param(q) => ConflictView::Param(q),
        ArgView::Arg(m) => ConflictView::Node(m),
        ArgView::TestOnly => ConflictView::Params(Seq::empty()),
    }
}

/// The expression `e` with `a` in the place of every occurrence of `p` that no
/// arm hides, for `match` nested up to `fuel` deep.
pub open spec fn expr_substituted_fuel(
    e: TypeLevelExprView,
    p: GenericParamView,
    a: ArgView,
    fuel: nat,
) -> TypeLevelExprView
    decreases fuel, 0nat, 0nat,
{
    match e {
        TypeLevelExprView::Expr(n) => TypeLevelExprView::Expr(substituted(n, p, a, false)),
        TypeLevelExprView::Match(m) => if fuel == 0 {
            e
        } else {
            TypeLevelExprView::Match(
                TypeLevelExprMatchView {
                    types: list_substituted(m.types, p, a, false),
                    arms: Seq::new(
                        m.arms.len(),
                        |i: int| arm_substituted(m.arms[i], p, a, (fuel - 1) as nat),
                    ),
                },
            )
        },
    }
}

/// The expression `body` after the renamings `rs`, one after the other.
pub open spec fn renamed_expr(body: TypeLevelExprView, rs: Seq<RenameView>, fuel: nat) -> TypeLevelExprView
    decreases fuel, 1nat, rs.len(),
{
    if rs.len() == 0 {
        body
    } else {
        expr_substituted_fuel(
            renamed_expr(body, rs.drop_last(), fuel),
            rs.last().from,
            ArgView::Param(rs.last().to),
            fuel,
        )
    }
}

/// An arm whose selectors before `i` are done, with the rest rewritten.
///
/// The selectors are taken in order. One that hides `p` ends the work: the
/// selectors behind it and the body stay as they are, and of the selector
/// itself only the bounds of the lifetime parameters that hide `p` are
/// rewritten, which are read in the scope round the arm. Of any other, the
/// parameters that the argument would be captured by are renamed, in the
/// selector and in the body, and then `a` takes the place of `p` in what the
/// selector's parameters carry. Behind the last selector, `a` takes the place
/// of `p` in the body.
pub open spec fn arm_rewritten(
    selectors: Seq<SelectorView>,
    body: TypeLevelExprView,
    p: GenericParamView,
    a: ArgView,
    fuel: nat,
    i: int,
) -> TypeLevelArmView
    decreases fuel, 2nat, selectors.len() - i,
{
    if i < 0 || i >= selectors.len() {
        TypeLevelArmView { selectors, body: expr_substituted_fuel(body, p, a, fuel) }
    } else {
        match selectors[i] {
            SelectorView::Default { .. } => arm_rewritten(selectors, body, p, a, fuel, i + 1),
            SelectorView::Specific { ident, generics } => if params_conflict(p, generics.params) {
                TypeLevelArmView {
                    selectors: selectors.update(
                        i,
                        SelectorView::Specific { ident, generics: hidden_substituted(generics, p, a) },
                    ),
                    body,
                }
            } else {
                let c = conflict_of(a);
                let n = generics.params.len();
                let g = generics_substituted(renamed_generics(c, generics, n), p, a);
                arm_rewritten(
                    selectors.update(i, SelectorView::Specific { ident, generics: g }),
                    renamed_expr(body, renames(c, generics, n), fuel),
                    p,
                    a,
                    fuel,
                    i + 1,
                )
            },
        }
    }
}

/// The arm with `a` in the place of `p`. An arm that does not refer to `p`
/// stays as it is: none of its parameters is renamed.
pub open spec fn arm_substituted(arm: TypeLevelArmView, p: GenericParamView, a: ArgView, fuel: nat) -> TypeLevelArmView
    decreases fuel, 3nat, 0nat,
{
    if arm_occurrences(arm, p).len() == 0 {
        arm
    } else {
        arm_rewritten(arm.selectors, arm.body, p, a, fuel, 0)
    }
}

/// The expression `e` with `a` in the place of every occurrence of `p` that no
/// arm hides.
pub open spec fn expr_substituted(e: TypeLevelExprView, p: GenericParamView, a: ArgView) -> TypeLevelExprView {
    expr_substituted_fuel(e, p, a, depth(e))
}

/// Renamings taken one further are the earlier ones and then that one.
pub proof fn lemma_renamed_expr_step(body: TypeLevelExprView, rs: Seq<RenameView>, fuel: nat, k: int)
    requires
        0 <= k < rs.len(),
    ensures
        renamed_expr(body, rs.take(k + 1), fuel) == expr_substituted_fuel(
            renamed_expr(body, rs.take(k), fuel),
            rs[k].from,
            ArgView::Param(rs[k].to),
            fuel,
        ),
{
    assert(rs.take(k + 1).drop_last() =~= rs.take(k));
    assert(rs.take(k + 1).last() == rs[k]);
}

/// Puts `a` in the place of every occurrence of `p` in `e` that no arm hides.
pub fn substitute_expr(e: &mut TypeLevelExpr, p: &GenericParam, a: ParamSubstArg)
    ensures
        depth(final(e)@) == depth(old(e)@),
        forall|fuel: nat|
            fuel >= depth(old(e)@) ==> final(e)@ == #[trigger] expr_substituted_fuel(
                old(e)@,
                p@,
                a@,
                fuel,
            ),
    decreases depth(old(e)@), 0nat,
{
    let ghost before = e@;
    let ghost old_arms = if *e is Match {
        e->Match_0.arms@
    } else {
        Seq::empty()
    };
    proof {
        if *e is Match {
            lemma_view_match(e);
        }
    }
    match e {
        TypeLevelExpr::Expr(n) => {
            substitute_node(n, p, a, false);
        },
        TypeLevelExpr::Match(m) => {
            let ghost d = depth(before);
            substitute_list(&mut m.types, p, a, false);
            let mut i: usize = 0;
            while i < m.arms.len()
                invariant
                    i <= m.arms@.len(),
                    m.arms@.len() == old_arms.len(),
                    before is Match,
                    before == old(e)@,
                    before->Match_0.arms == arms_view(old_arms),
                    nodes_view(m.types@) == list_substituted(before->Match_0.types, p@, a@, false),
                    d == depth(before),
                    forall|j: int|
                        0 <= j < m.arms@.len() ==> depth((#[trigger] m.arms@[j])@.body) == depth(
                            old_arms[j]@.body,
                        ),
                    forall|j: int, fuel: nat|
                        0 <= j < i && fuel + 1 >= d ==> m.arms@[j]@ == #[trigger] arm_substituted(
                            old_arms[j]@,
                            p@,
                            a@,
                            fuel,
                        ),
                    forall|j: int| i <= j < old_arms.len() ==> m.arms@[j] == old_arms[j],
                decreases m.arms@.len() - i,
            {
                proof {
                    lemma_arms_depth(arms_view(old_arms), i as int);
                }
                substitute_arm(&mut m.arms[i], p, a);
                i += 1;
            }
            proof {
                lemma_arms_depth_equal(arms_view(m.arms@), arms_view(old_arms));
            }
        },
    }
    proof {
        if *e is Match {
            lemma_view_match(e);
            assert forall|fuel: nat| fuel >= depth(before) implies e@ == #[trigger] expr_substituted_fuel(
                before,
                p@,
                a@,
                fuel,
            ) by {
                let after = expr_substituted_fuel(before, p@, a@, fuel);
                assert forall|j: int| 0 <= j < e@->Match_0.arms.len() implies e@->Match_0.arms[j]
                    == after->Match_0.arms[j] by {
                    let f = (fuel - 1) as nat;
                    assert(before->Match_0.arms[j] == old_arms[j]@);
                    assert(e->Match_0.arms@[j]@ == arm_substituted(old_arms[j]@, p@, a@, f));
                }
                assert(e@->Match_0.arms =~= after->Match_0.arms);
            }
        }
    }
}

/// Puts `a` in the place of `p` in an arm, unless the arm does not refer to
/// `p`.
pub fn substitute_arm(arm: &mut TypeLevelArm, p: &GenericParam, a: ParamSubstArg)
    ensures
        depth(final(arm)@.body) == depth(old(arm)@.body),
        forall|fuel: nat|
            fuel >= depth(old(arm)@.body) ==> final(arm)@ == #[trigger] arm_substituted(
                old(arm)@,
                p@,
                a@,
                fuel,
            ),
    decreases depth(old(arm)@.body), 1nat,
{
    let mut found: Vec<Occurrence> = Vec::new();
    collect_arm(arm, p, &mut found);
    if found.len() == 0 {
        return ;
    }
    let none: Vec<GenericParam> = Vec::new();
    let conflict = match a {
        ParamSubstArg::Param(q) => Conflict::Param(q),
        ParamSubstArg::Arg(m) => Conflict::Node(m),
        ParamSubstArg::TestOnly => Conflict::Params(&none),
    };
    assert(conflict@ == conflict_of(a@)) by {
        if a is TestOnly {
            assert(crate::generics::params_view(none@) =~= Seq::empty());
        }
    }
    let ghost sels0 = arm@.selectors;
    let ghost body0 = arm@.body;
    let ghost d = depth(body0);
    let mut i: usize = 0;
    while i < arm.selectors.len()
        invariant
            i <= arm.selectors@.len(),
            arm@.selectors.len() == sels0.len(),
            arm.selectors@.len() == sels0.len(),
            conflict@ == conflict_of(a@),
            depth(arm@.body) == d,
            d == depth(old(arm)@.body),
            sels0 == old(arm)@.selectors,
            body0 == old(arm)@.body,
            arm_occurrences(old(arm)@, p@).len() > 0,
            forall|fuel: nat|
                fuel >= d ==> arm_rewritten(arm@.selectors, arm@.body, p@, a@, fuel, i as int)
                    == #[trigger] arm_rewritten(sels0, body0, p@, a@, fuel, 0),
        decreases arm.selectors@.len() - i,
    {
        if selector_hides(&arm.selectors[i], p) {
            let ghost sels1 = arm@.selectors;
            let ghost body1 = arm@.body;
            let ghost raw1 = arm.selectors@;
            assert(selector_shadows(sels1[i as int], p@));
            match &mut arm.selectors[i] {
                TypeLevelArmSelector::Specific { generics, .. } => {
                    substitute_hidden(generics, p, a);
                },
                TypeLevelArmSelector::Default { .. } => {},
            }
            proof {
                assert(raw1[i as int]@ == sels1[i as int]);
                assert forall|j: int| 0 <= j < sels1.len() && j != i implies arm@.selectors[j]
                    == sels1[j] by {
                    assert(arm.selectors@[j] == raw1[j]);
                }
                let after = arm_rewritten(sels1, body1, p@, a@, d, i as int);
                assert(arm@.selectors =~= after.selectors);
                assert forall|fuel: nat| fuel >= d implies arm@ == #[trigger] arm_substituted(
                    old(arm)@,
                    p@,
                    a@,
                    fuel,
                ) by {
                    assert(arm_rewritten(sels1, body1, p@, a@, fuel, i as int) == arm@);
                    assert(arm_rewritten(sels0, body0, p@, a@, fuel, 0) == arm@);
                }
            }
            return ;
        }
        let ghost sels1 = arm@.selectors;
        let ghost body1 = arm@.body;
        let ghost raw1 = arm.selectors@;
        let rs = match &mut arm.selectors[i] {
            TypeLevelArmSelector::Specific { generics, .. } => rename_params(generics, &conflict),
            TypeLevelArmSelector::Default { .. } => Vec::new(),
        };
        let ghost raw2 = arm.selectors@;
        let ghost rviews = renames_view(rs@);
        let mut k: usize = 0;
        while k < rs.len()
            invariant
                k <= rs@.len(),
                rviews == renames_view(rs@),
                arm.selectors@ == raw2,
                depth(arm.body@) == d,
                d == depth(old(arm)@.body),
                forall|fuel: nat|
                    fuel >= d ==> arm.body@ == #[trigger] renamed_expr(body1, rviews.take(k as int), fuel),
            decreases rs@.len() - k,
        {
            let ghost body2 = arm.body@;
            substitute_expr(&mut arm.body, &rs[k].from, ParamSubstArg::Param(&rs[k].to));
            proof {
                assert forall|fuel: nat| fuel >= d implies arm.body@ == #[trigger] renamed_expr(
                    body1,
                    rviews.take(k + 1),
                    fuel,
                ) by {
                    lemma_renamed_expr_step(body1, rviews, fuel, k as int);
                    assert(body2 == renamed_expr(body1, rviews.take(k as int), fuel));
                    assert(arm.body@ == expr_substituted_fuel(
                        body2,
                        rviews[k as int].from,
                        ArgView::Param(rviews[k as int].to),
                        fuel,
                    ));
                }
            }
            k += 1;
        }
        assert(rviews.take(k as int) =~= rviews);
        match &mut arm.selectors[i] {
            TypeLevelArmSelector::Specific { generics, .. } => {
                substitute_generics(generics, p, a);
            },
            TypeLevelArmSelector::Default { .. } => {},
        }
        proof {
            assert(raw1[i as int]@ == sels1[i as int]);
            assert forall|j: int| 0 <= j < sels1.len() && j != i implies arm@.selectors[j]
                == sels1[j] by {
                assert(arm.selectors@[j] == raw1[j]);
            }
            assert forall|fuel: nat| fuel >= d implies arm_rewritten(
                arm@.selectors,
                arm@.body,
                p@,
                a@,
                fuel,
                i + 1,
            ) == #[trigger] arm_rewritten(sels0, body0, p@, a@, fuel, 0) by {
                assert(arm_rewritten(sels1, body1, p@, a@, fuel, i as int) == arm_rewritten(
                    sels0,
                    body0,
                    p@,
                    a@,
                    fuel,
                    0,
                ));
                match sels1[i as int] {
                    SelectorView::Default { .. } => {
                        assert(rviews.len() == 0);
                        assert(arm.selectors@[i as int]@ == sels1[i as int]);
                        assert(arm@.selectors =~= sels1);
                        assert(arm@.body == renamed_expr(body1, rviews, fuel));
                    },
                    SelectorView::Specific { ident, generics } => {
                        let c = conflict_of(a@);
                        let n = generics.params.len();
                        let g = generics_substituted(renamed_generics(c, generics, n), p@, a@);
                        assert(arm.selectors@[i as int]@ == SelectorView::Specific { ident, generics: g });
                        assert(arm@.selectors =~= sels1.update(
                            i as int,
                            SelectorView::Specific { ident, generics: g },
                        ));
                        assert(arm@.body == renamed_expr(body1, renames(c, generics, n), fuel));
                    },
                }
            }
        }
        i += 1;
    }
    let ghost sels3 = arm@.selectors;
    let ghost body3 = arm@.body;
    substitute_expr(&mut arm.body, p, a);
    proof {
        assert forall|fuel: nat| fuel >= d implies arm@ == #[trigger] arm_substituted(
            old(arm)@,
            p@,
            a@,
            fuel,
        ) by {
            assert(arm_rewritten(sels3, body3, p@, a@, fuel, i as int) == arm_rewritten(
                sels0,
                body0,
                p@,
                a@,
                fuel,
                0,
            ));
            assert(arm@.body == expr_substituted_fuel(body3, p@, a@, fuel));
        }
    }
}

/// Substitution in an expression that does not refer to the parameter gives
/// the expression back: no occurrence is replaced and no parameter of an arm
/// is renamed.
pub proof fn lemma_expr_absent_unchanged(e: TypeLevelExprView, p: GenericParamView, a: ArgView)
    requires
        crate::expr::expr_occurrences(e, p).len() == 0,
    ensures
        expr_substituted(e, p, a) == e,
{
    match e {
        TypeLevelExprView::Expr(n) => {
            crate::laws::lemma_absent_unchanged(n, p, a, false);
        },
        TypeLevelExprView::Match(m) => {
            crate::laws::lemma_list_absent_unchanged(m.types, p, a, false);
            crate::expr::lemma_arms_absent(m.arms, p);
            let after = expr_substituted(e, p, a);
            assert forall|i: int| 0 <= i < m.arms.len() implies after->Match_0.arms[i]
                == m.arms[i] by {
                assert(arm_occurrences(m.arms[i], p).len() == 0);
            }
            assert(after->Match_0.arms =~= m.arms);
        },
    }
}

} // verus!
