//! Type-level expressions: a plain tree, or a `match` on types whose arms
//! bring parameters of their own into scope.

use vstd::prelude::*;
use crate::binder::{collect_generics, collect_hidden, generics_occurrences, hidden_occurrences};
use crate::conflict::{param_generics_name_conflict, params_conflict};
use crate::generics::{GenericParam, GenericParamView, Generics, GenericsView};
use crate::occurrence::{
    collect_list, collect_occurrences, list_occurrences, occurrences, Occurrence,
};
use crate::syntax::{clone_node, clone_nodes, nodes_view, Ident, IdentView, Node, NodeView, Span};

verus! {

#[derive(Debug, PartialEq, Eq, Hash)]
pub enum TypeLevelExpr {
    Expr(Node),
    Match(TypeLevelExprMatch),
}

/// `match <types> { arms }`.
#[derive(Debug, PartialEq, Eq, Hash)]
pub struct TypeLevelExprMatch {
    pub types: Vec<Node>,
    pub arms: Vec<TypeLevelArm>,
}

/// `selectors => body`, one selector for each matched type.
#[derive(Debug, PartialEq, Eq, Hash)]
pub struct TypeLevelArm {
    pub selectors: Vec<TypeLevelArmSelector>,
    pub body: TypeLevelExpr,
}

#[derive(Debug, PartialEq, Eq, Hash)]
pub enum TypeLevelArmSelector {
    /// A variant by name, with the parameters that it brings into scope.
    Specific { ident: Ident, generics: Generics },
    /// `_`, which brings nothing into scope.
    Default { span: Span },
}

pub enum TypeLevelExprView {
    Expr(NodeView),
    Match(TypeLevelExprMatchView),
}

pub struct TypeLevelExprMatchView {
    pub types: Seq<NodeView>,
    pub arms: Seq<TypeLevelArmView>,
}

pub struct TypeLevelArmView {
    pub selectors: Seq<SelectorView>,
    pub body: TypeLevelExprView,
}

pub enum SelectorView {
    Specific { ident: IdentView, generics: GenericsView },
    Default { span: Span },
}

impl View for TypeLevelArmSelector {
    type V = SelectorView;

    open spec fn view(&self) -> SelectorView {
        match self {
            TypeLevelArmSelector::Specific { ident, generics } => SelectorView::Specific {
                ident: ident@,
                generics: generics@,
            },
            TypeLevelArmSelector::Default { span } => SelectorView::Default { span: *span },
        }
    }
}

/// The views of a list of selectors, in order.
pub open spec fn selectors_view(selectors: Seq<TypeLevelArmSelector>) -> Seq<SelectorView> {
    Seq::new(selectors.len(), |i: int| selectors[i]@)
}

pub open spec fn expr_view(e: &TypeLevelExpr) -> TypeLevelExprView
    decreases e,
{
    match e {
        TypeLevelExpr::Expr(n) => TypeLevelExprView::Expr(n@),
        TypeLevelExpr::Match(m) => TypeLevelExprView::Match(
            TypeLevelExprMatchView {
                types: nodes_view(m.types@),
                arms: Seq::new(
                    m.arms@.len(),
                    |i: int|
                        if 0 <= i < m.arms@.len() {
                            TypeLevelArmView {
                                selectors: selectors_view(m.arms@[i].selectors@),
                                body: expr_view(&m.arms@[i].body),
                            }
                        } else {
                            arbitrary()
                        },
                ),
            },
        ),
    }
}

impl View for TypeLevelExpr {
    type V = TypeLevelExprView;

    open spec fn view(&self) -> TypeLevelExprView {
        expr_view(self)
    }
}

impl View for TypeLevelArm {
    type V = TypeLevelArmView;

    open spec fn view(&self) -> TypeLevelArmView {
        TypeLevelArmView { selectors: selectors_view(self.selectors@), body: self.body@ }
    }
}

/// The views of a list of arms, in order.
pub open spec fn arms_view(arms: Seq<TypeLevelArm>) -> Seq<TypeLevelArmView> {
    Seq::new(arms.len(), |i: int| arms[i]@)
}

impl View for TypeLevelExprMatch {
    type V = TypeLevelExprMatchView;

    open spec fn view(&self) -> TypeLevelExprMatchView {
        TypeLevelExprMatchView { types: nodes_view(self.types@), arms: arms_view(self.arms@) }
    }
}

/// What the view of a `match` is, over the views of its parts.
pub proof fn lemma_view_match(e: &TypeLevelExpr)
    requires
        e is Match,
    ensures
        e@ == TypeLevelExprView::Match(e->Match_0@),
{
    assert(e@->Match_0.arms =~= arms_view(e->Match_0.arms@));
}

/// How deep `match` stands in `match` in an expression.
pub open spec fn depth(e: TypeLevelExprView) -> nat
    decreases e,
{
    match e {
        TypeLevelExprView::Expr(_) => 0,
        TypeLevelExprView::Match(m) => 1 + arms_depth(m.arms),
    }
}

/// The greatest depth of the bodies of a list of arms.
pub open spec fn arms_depth(arms: Seq<TypeLevelArmView>) -> nat
    decreases arms,
{
    if arms.len() == 0 {
        0
    } else {
        let rest = arms_depth(arms.drop_last());
        let last = depth(arms.last().body);
        if rest < last {
            last
        } else {
            rest
        }
    }
}

/// No body of an arm is deeper than the arms together.
pub proof fn lemma_arms_depth(arms: Seq<TypeLevelArmView>, i: int)
    requires
        0 <= i < arms.len(),
    ensures
        depth(arms[i].body) <= arms_depth(arms),
    decreases arms.len(),
{
    if i < arms.len() - 1 {
        lemma_arms_depth(arms.drop_last(), i);
        assert(arms.drop_last()[i] == arms[i]);
    }
}

/// Arms that are as deep one by one are as deep together.
pub proof fn lemma_arms_depth_equal(a: Seq<TypeLevelArmView>, b: Seq<TypeLevelArmView>)
    requires
        a.len() == b.len(),
        forall|i: int| 0 <= i < a.len() ==> depth(#[trigger] a[i].body) == depth(b[i].body),
    ensures
        arms_depth(a) == arms_depth(b),
    decreases a.len(),
{
    if a.len() > 0 {
        assert forall|i: int| 0 <= i < a.drop_last().len() implies depth(
            #[trigger] a.drop_last()[i].body,
        ) == depth(b.drop_last()[i].body) by {
            assert(a.drop_last()[i] == a[i]);
            assert(b.drop_last()[i] == b[i]);
        }
        lemma_arms_depth_equal(a.drop_last(), b.drop_last());
        assert(depth(a[a.len() - 1].body) == depth(b[a.len() - 1].body));
    }
}

/// Whether a selector brings a parameter into scope that hides `p`.
pub open spec fn selector_shadows(s: SelectorView, p: GenericParamView) -> bool {
    match s {
        SelectorView::Specific { generics, .. } => params_conflict(p, generics.params),
        SelectorView::Default { .. } => false,
    }
}

/// Whether one of the selectors of an arm hides `p`.
pub open spec fn shadowed(selectors: Seq<SelectorView>, p: GenericParamView) -> bool {
    exists|i: int| 0 <= i < selectors.len() && selector_shadows(#[trigger] selectors[i], p)
}

/// The occurrences of `p` in the parameters of one selector.
pub open spec fn selector_occurrences(s: SelectorView, p: GenericParamView) -> Seq<Occurrence> {
    match s {
        SelectorView::Specific { generics, .. } => generics_occurrences(generics, p),
        SelectorView::Default { .. } => Seq::empty(),
    }
}

/// The occurrences of `p` in what a selector that hides `p` carries in the
/// scope round the arm: the bounds of its lifetime parameters that hide `p`.
pub open spec fn selector_hidden_occurrences(s: SelectorView, p: GenericParamView) -> Seq<Occurrence> {
    match s {
        SelectorView::Specific { generics, .. } => hidden_occurrences(generics.params, p),
        SelectorView::Default { .. } => Seq::empty(),
    }
}

/// The occurrences of `p` in the selectors from `from` on, up to the first
/// one that hides `p`: of that one only the bounds of the hiding lifetime
/// parameters count, and nothing behind it.
pub open spec fn selectors_occurrences(
    selectors: Seq<SelectorView>,
    p: GenericParamView,
    from: int,
) -> Seq<Occurrence>
    decreases selectors.len() - from,
{
    if from < 0 || from >= selectors.len() {
        Seq::empty()
    } else if selector_shadows(selectors[from], p) {
        selector_hidden_occurrences(selectors[from], p)
    } else {
        selector_occurrences(selectors[from], p) + selectors_occurrences(selectors, p, from + 1)
    }
}

/// The occurrences of `p` in an expression, in source order. What a parameter
/// of an arm hides is not counted.
pub open spec fn expr_occurrences(e: TypeLevelExprView, p: GenericParamView) -> Seq<Occurrence>
    decreases e, 0nat,
{
    match e {
        TypeLevelExprView::Expr(n) => occurrences(n, p, false),
        TypeLevelExprView::Match(m) => list_occurrences(m.types, p, false) + arms_occurrences(
            m.arms,
            p,
        ),
    }
}

/// The occurrences of `p` in a list of arms, in order.
pub open spec fn arms_occurrences(arms: Seq<TypeLevelArmView>, p: GenericParamView) -> Seq<Occurrence>
    decreases arms, 1nat,
{
    if arms.len() == 0 {
        Seq::empty()
    } else {
        arms_occurrences(arms.drop_last(), p) + arm_occurrences(arms.last(), p)
    }
}

/// The occurrences of `p` in an arm: those in the selectors up to the first
/// that hides `p`, and, where none hides it, those in the body.
pub open spec fn arm_occurrences(arm: TypeLevelArmView, p: GenericParamView) -> Seq<Occurrence>
    decreases arm, 1nat,
{
    selectors_occurrences(arm.selectors, p, 0) + if shadowed(arm.selectors, p) {
        Seq::empty()
    } else {
        expr_occurrences(arm.body, p)
    }
}

/// A list of arms taken one further has the occurrences of that arm added.
pub proof fn lemma_arms_occurrences_step(arms: Seq<TypeLevelArmView>, p: GenericParamView, i: int)
    requires
        0 <= i < arms.len(),
    ensures
        arms_occurrences(arms.take(i + 1), p) == arms_occurrences(arms.take(i), p) + arm_occurrences(
            arms[i],
            p,
        ),
{
    assert(arms.take(i + 1).drop_last() =~= arms.take(i));
    assert(arms.take(i + 1).last() == arms[i]);
}

/// A list of arms holds no occurrence only if none of them does.
pub proof fn lemma_arms_absent(arms: Seq<TypeLevelArmView>, p: GenericParamView)
    requires
        arms_occurrences(arms, p).len() == 0,
    ensures
        forall|i: int| 0 <= i < arms.len() ==> (#[trigger] arm_occurrences(arms[i], p)).len() == 0,
    decreases arms.len(),
{
    if arms.len() > 0 {
        lemma_arms_absent(arms.drop_last(), p);
        assert forall|i: int| 0 <= i < arms.len() implies (#[trigger] arm_occurrences(
            arms[i],
            p,
        )).len() == 0 by {
            if i < arms.len() - 1 {
                assert(arms[i] == arms.drop_last()[i]);
            } else {
                assert(arms[i] == arms.last());
            }
        }
    }
}

/// Whether a selector brings a parameter into scope that hides `p`.
pub fn selector_hides(s: &TypeLevelArmSelector, p: &GenericParam) -> (res: bool)
    ensures
        res == selector_shadows(s@, p@),
{
    match s {
        TypeLevelArmSelector::Specific { generics, .. } => param_generics_name_conflict(p, generics),
        TypeLevelArmSelector::Default { .. } => false,
    }
}

/// Appends to `out` the occurrences of `p` in the selectors up to the first
/// one that hides `p`. Returns whether one hides it.
pub fn collect_selectors(
    selectors: &Vec<TypeLevelArmSelector>,
    p: &GenericParam,
    out: &mut Vec<Occurrence>,
) -> (hidden: bool)
    ensures
        final(out)@ == old(out)@ + selectors_occurrences(selectors_view(selectors@), p@, 0),
        hidden == shadowed(selectors_view(selectors@), p@),
{
    let ghost views = selectors_view(selectors@);
    let mut i: usize = 0;
    assert(out@ + selectors_occurrences(views, p@, 0) =~= old(out)@ + selectors_occurrences(
        views,
        p@,
        0,
    ));
    while i < selectors.len()
        invariant
            i <= selectors@.len(),
            views == selectors_view(selectors@),
            out@ + selectors_occurrences(views, p@, i as int) == old(out)@ + selectors_occurrences(
                views,
                p@,
                0,
            ),
            forall|j: int| 0 <= j < i ==> !selector_shadows(#[trigger] views[j], p@),
        decreases selectors@.len() - i,
    {
        if selector_hides(&selectors[i], p) {
            assert(selector_shadows(views[i as int], p@));
            let ghost before = out@;
            match &selectors[i] {
                TypeLevelArmSelector::Specific { generics, .. } => {
                    collect_hidden(&generics.params, p, out);
                },
                TypeLevelArmSelector::Default { .. } => {},
            }
            assert(out@ =~= before + selectors_occurrences(views, p@, i as int));
            return true;
        }
        let ghost before = out@;
        match &selectors[i] {
            TypeLevelArmSelector::Specific { generics, .. } => {
                collect_generics(generics, p, out);
            },
            TypeLevelArmSelector::Default { .. } => {
                assert(out@ =~= before + selector_occurrences(views[i as int], p@));
            },
        }
        proof {
            assert(out@ == before + selector_occurrences(views[i as int], p@));
            assert(out@ + selectors_occurrences(views, p@, i + 1) =~= before + selectors_occurrences(
                views,
                p@,
                i as int,
            ));
        }
        i += 1;
    }
    assert(out@ =~= out@ + selectors_occurrences(views, p@, i as int));
    false
}

/// Appends the occurrences of `p` in an expression to `out`, in source order.
pub fn collect_expr(e: &TypeLevelExpr, p: &GenericParam, out: &mut Vec<Occurrence>)
    ensures
        final(out)@ == old(out)@ + expr_occurrences(e@, p@),
    decreases e, 0nat,
{
    match e {
        TypeLevelExpr::Expr(n) => {
            collect_occurrences(n, p, false, out);
        },
        TypeLevelExpr::Match(m) => {
            proof {
                lemma_view_match(e);
            }
            collect_list(&m.types, p, false, out);
            let ghost start = out@;
            let ghost views = arms_view(m.arms@);
            let mut i: usize = 0;
            assert(out@ =~= start + arms_occurrences(views.take(0), p@));
            while i < m.arms.len()
                invariant
                    i <= m.arms@.len(),
                    e is Match,
                    e->Match_0 == m,
                    views == arms_view(m.arms@),
                    out@ == start + arms_occurrences(views.take(i as int), p@),
                decreases m.arms@.len() - i,
            {
                collect_arm(&m.arms[i], p, out);
                proof {
                    lemma_arms_occurrences_step(views, p@, i as int);
                    assert(out@ =~= start + arms_occurrences(views.take(i + 1), p@));
                }
                i += 1;
            }
            proof {
                assert(views.take(i as int) =~= views);
                assert(out@ =~= old(out)@ + expr_occurrences(e@, p@));
            }
        },
    }
}

/// Appends the occurrences of `p` in an arm to `out`, in source order.
pub fn collect_arm(arm: &TypeLevelArm, p: &GenericParam, out: &mut Vec<Occurrence>)
    ensures
        final(out)@ == old(out)@ + arm_occurrences(arm@, p@),
    decreases arm, 1nat,
{
    let hidden = collect_selectors(&arm.selectors, p, out);
    if !hidden {
        collect_expr(&arm.body, p, out);
    }
    assert(out@ =~= old(out)@ + arm_occurrences(arm@, p@));
}

impl Clone for TypeLevelArmSelector {
    fn clone(&self) -> (res: TypeLevelArmSelector)
        ensures
            res@ == self@,
    {
        match self {
            TypeLevelArmSelector::Specific { ident, generics } => TypeLevelArmSelector::Specific {
                ident: ident.clone(),
                generics: generics.clone(),
            },
            TypeLevelArmSelector::Default { span } => TypeLevelArmSelector::Default { span: *span },
        }
    }
}

/// A deep copy of an expression.
pub fn clone_expr(e: &TypeLevelExpr) -> (res: TypeLevelExpr)
    ensures
        res@ == e@,
    decreases e,
{
    match e {
        TypeLevelExpr::Expr(n) => TypeLevelExpr::Expr(clone_node(n)),
        TypeLevelExpr::Match(m) => {
            proof {
                lemma_view_match(e);
            }
            let mut arms: Vec<TypeLevelArm> = Vec::new();
            let mut i: usize = 0;
            while i < m.arms.len()
                invariant
                    i <= m.arms@.len(),
                    e is Match,
                    e->Match_0 == m,
                    arms@.len() == i,
                    forall|j: int| 0 <= j < i ==> (#[trigger] arms@[j])@ == m.arms@[j]@,
                decreases m.arms@.len() - i,
            {
                let arm = &m.arms[i];
                let mut selectors: Vec<TypeLevelArmSelector> = Vec::new();
                let mut k: usize = 0;
                while k < arm.selectors.len()
                    invariant
                        k <= arm.selectors@.len(),
                        selectors@.len() == k,
                        forall|j: int| 0 <= j < k ==> (#[trigger] selectors@[j])@ == arm.selectors@[j]@,
                    decreases arm.selectors@.len() - k,
                {
                    selectors.push(arm.selectors[k].clone());
                    k += 1;
                }
                assert(selectors_view(selectors@) =~= selectors_view(arm.selectors@));
                arms.push(TypeLevelArm { selectors, body: clone_expr(&arm.body) });
                i += 1;
            }
            let res = TypeLevelExpr::Match(TypeLevelExprMatch { types: clone_nodes(&m.types), arms });
            proof {
                lemma_view_match(&res);
                assert(arms_view(res->Match_0.arms@) =~= arms_view(m.arms@));
            }
            res
        },
    }
}

impl Clone for TypeLevelExpr {
    fn clone(&self) -> (res: TypeLevelExpr)
        ensures
            res@ == self@,
    {
        clone_expr(self)
    }
}

} // verus!
