//! What can have a generic parameter substituted in it.

use vstd::prelude::*;
use crate::arms::{
    arm_substituted, expr_substituted, lemma_expr_absent_unchanged, substitute_arm,
    substitute_expr,
};
use crate::binder::{
    collect_generics, collect_param, generics_occurrences, generics_substituted,
    lemma_generics_absent_unchanged, lemma_param_absent_unchanged, param_occurrences,
    param_substituted, substitute_generics, substitute_param,
};
use crate::error::{mismatch_reason, plain_error, Error, ErrorView, Reason};
use crate::expr::{
    arm_occurrences, collect_arm, collect_expr, depth, expr_occurrences, lemma_view_match,
    TypeLevelArm, TypeLevelArmView, TypeLevelExpr, TypeLevelExprMatch, TypeLevelExprMatchView,
    TypeLevelExprView,
};
use crate::generics::{GenericParam, GenericParamView, Generics, GenericsView};
use crate::laws::lemma_absent_unchanged;
use crate::occurrence::{
    any_bare, collect_list, collect_occurrences, occurrences, spans_of, Occurrence,
};
use crate::subst::{arg_kind, arg_span, substitute_node, substituted, ArgView, ParamSubstArg};
use crate::syntax::{Node, NodeView, Span};

verus! {

/// One substitution: the parameter, and what is put in its place.
#[derive(Clone, Copy, Debug)]
pub struct ParamSubst<'a, 'b> {
    pub param: &'a GenericParam,
    pub arg: ParamSubstArg<'b>,
}

impl<'a, 'b> ParamSubst<'a, 'b> {
    pub fn new(param: &'a GenericParam, arg: ParamSubstArg<'b>) -> (subst: Self)
        ensures
            subst.param == param,
            subst.arg == arg,
    {
        ParamSubst { param, arg }
    }
}

/// The locations of a list of occurrences, in order.
pub fn occurrence_spans(found: &Vec<Occurrence>) -> (spans: Vec<Span>)
    ensures
        spans@ == spans_of(found@),
{
    let mut spans: Vec<Span> = Vec::new();
    let mut i: usize = 0;
    while i < found.len()
        invariant
            i <= found@.len(),
            spans@.len() == i,
            forall|j: int| 0 <= j < i ==> spans@[j] == found@[j].span,
        decreases found@.len() - i,
    {
        spans.push(found[i].span);
        i += 1;
    }
    assert(spans@ =~= spans_of(found@));
    spans
}

/// Whether one of the occurrences is a bare path.
pub fn has_bare(found: &Vec<Occurrence>) -> (res: bool)
    ensures
        res == any_bare(found@),
{
    let mut i: usize = 0;
    while i < found.len()
        invariant
            i <= found@.len(),
            forall|j: int| 0 <= j < i ==> !(#[trigger] found@[j]).bare,
        decreases found@.len() - i,
    {
        if found[i].bare {
            return true;
        }
        i += 1;
    }
    false
}

/// Why `a` cannot take the place of a parameter `p` that occurs at `found`, if
/// it cannot: it is of another kind than `p`, or it is a type and one of the
/// occurrences is a path that consists of the parameter alone.
pub open spec fn refusal(found: Seq<Occurrence>, p: GenericParamView, a: ArgView) -> Option<ErrorView> {
    if a is TestOnly || found.len() == 0 {
        None
    } else if arg_kind(a) != Some(p.kind()) {
        Some(plain_error(mismatch_reason(p.kind()), arg_span(a)))
    } else if a is Arg && any_bare(found) {
        Some(plain_error(Reason::SingleSegmentPath, arg_span(a)))
    } else {
        None
    }
}

/// Why `a` cannot take the place of `p` at the occurrences `found`, if it
/// cannot.
pub fn check_argument(found: &Vec<Occurrence>, p: &GenericParam, a: ParamSubstArg) -> (res: Result<
    (),
    Error,
>)
    ensures
        match res {
            Ok(_) => refusal(found@, p@, a@) is None,
            Err(e) => refusal(found@, p@, a@) == Some(e@),
        },
{
    match a {
        ParamSubstArg::TestOnly => {
            return Ok(());
        },
        _ => {},
    }
    if found.len() == 0 {
        return Ok(());
    }
    if !a.fits(p.kind()) {
        return Err(Error::mismatch(p.kind(), a.span()));
    }
    match a {
        ParamSubstArg::Arg(_) => {
            if has_bare(found) {
                return Err(Error::new(Reason::SingleSegmentPath, a.span()));
            }
        },
        _ => {},
    }
    Ok(())
}

/// A syntax fragment in which a generic parameter can occur and be replaced.
pub trait Substitutable: View + Sized {
    /// The reason for which the fragment cannot be searched or rewritten at
    /// all, if there is one.
    spec fn unsupported(v: Self::V) -> Option<ErrorView>;

    /// The occurrences of `p` in the fragment, in source order.
    spec fn occurrences_in(v: Self::V, p: GenericParamView) -> Seq<Occurrence>;

    /// The fragment with `a` in the place of every occurrence of `p`.
    spec fn substituted_in(v: Self::V, p: GenericParamView, a: ArgView) -> Self::V;

    /// Substitution in a fragment that does not refer to the parameter gives
    /// the fragment back.
    proof fn lemma_absent(v: Self::V, p: GenericParamView, a: ArgView)
        requires
            Self::occurrences_in(v, p).len() == 0,
        ensures
            Self::substituted_in(v, p, a) == v,
    ;

    /// Fails where the fragment cannot be searched or rewritten.
    fn check_supported(&self) -> (res: Result<(), Error>)
        ensures
            match res {
                Ok(_) => Self::unsupported(self@) is None,
                Err(e) => Self::unsupported(self@) == Some(e@),
            },
    ;

    /// Appends the occurrences of `param` to `out`.
    fn collect_references(&self, param: &GenericParam, out: &mut Vec<Occurrence>)
        ensures
            final(out)@ == old(out)@ + Self::occurrences_in(self@, param@),
    ;

    /// Rewrites the fragment. What the argument cannot replace stays as it is.
    fn substitute_impl(&mut self, subst: &ParamSubst)
        ensures
            final(self)@ == Self::substituted_in(old(self)@, subst.param@, subst.arg@),
            Self::unsupported(final(self)@) == Self::unsupported(old(self)@),
    ;
}

/// Why a substitution in `v` fails, if it does.
pub open spec fn substitution_error<S: Substitutable>(
    v: S::V,
    p: GenericParamView,
    a: ArgView,
) -> Option<ErrorView> {
    if S::unsupported(v) is Some {
        S::unsupported(v)
    } else {
        refusal(S::occurrences_in(v, p), p, a)
    }
}

/// What a substitution that does not fail leaves: the fragment itself for a
/// mere search, else the fragment with the argument in the parameter's place.
pub open spec fn substitution_result<S: Substitutable>(
    v: S::V,
    p: GenericParamView,
    a: ArgView,
) -> S::V {
    if a is TestOnly {
        v
    } else {
        S::substituted_in(v, p, a)
    }
}

/// Puts `arg` in the place of every occurrence of `param` in `node`, and says
/// whether there was one. On failure `node` is left as it was.
pub fn substitute<S: Substitutable>(node: &mut S, param: &GenericParam, arg: ParamSubstArg) -> (res:
    Result<bool, Error>)
    ensures
        match res {
            Ok(found) => {
                &&& substitution_error::<S>(old(node)@, param@, arg@) is None
                &&& found == (S::occurrences_in(old(node)@, param@).len() > 0)
                &&& final(node)@ == substitution_result::<S>(old(node)@, param@, arg@)
            },
            Err(e) => {
                &&& substitution_error::<S>(old(node)@, param@, arg@) == Some(e@)
                &&& final(node)@ == old(node)@
            },
        },
        S::unsupported(final(node)@) == S::unsupported(old(node)@),
{
    match node.check_supported() {
        Err(e) => {
            return Err(e);
        },
        Ok(_) => {},
    }
    let mut found: Vec<Occurrence> = Vec::new();
    node.collect_references(param, &mut found);
    assert(found@ =~= S::occurrences_in(node@, param@));
    match check_argument(&found, param, arg) {
        Err(e) => {
            return Err(e);
        },
        Ok(_) => {},
    }
    if found.len() == 0 {
        proof {
            S::lemma_absent(node@, param@, arg@);
        }
        return Ok(false);
    }
    match arg {
        ParamSubstArg::TestOnly => {},
        _ => {
            let subst = ParamSubst::new(param, arg);
            node.substitute_impl(&subst);
        },
    }
    Ok(true)
}

/// The locations at which `param` occurs in `node`, in source order.
pub fn get_param_references<S: Substitutable>(node: &S, param: &GenericParam) -> (res: Result<
    Vec<Span>,
    Error,
>)
    ensures
        match res {
            Ok(spans) => S::unsupported(node@) is None && spans@ == spans_of(
                S::occurrences_in(node@, param@),
            ),
            Err(e) => S::unsupported(node@) == Some(e@),
        },
{
    match node.check_supported() {
        Err(e) => {
            return Err(e);
        },
        Ok(_) => {},
    }
    let mut found: Vec<Occurrence> = Vec::new();
    node.collect_references(param, &mut found);
    assert(found@ =~= S::occurrences_in(node@, param@));
    Ok(occurrence_spans(&found))
}

/// Whether `param` occurs in `node`.
pub fn references_param<S: Substitutable>(node: &S, param: &GenericParam) -> (res: Result<
    bool,
    Error,
>)
    ensures
        match res {
            Ok(found) => S::unsupported(node@) is None && found == (S::occurrences_in(
                node@,
                param@,
            ).len() > 0),
            Err(e) => S::unsupported(node@) == Some(e@),
        },
{
    match get_param_references(node, param) {
        Ok(spans) => Ok(spans.len() > 0),
        Err(e) => Err(e),
    }
}

impl Substitutable for Node {
    open spec fn unsupported(v: NodeView) -> Option<ErrorView> {
        None
    }

    open spec fn occurrences_in(v: NodeView, p: GenericParamView) -> Seq<Occurrence> {
        occurrences(v, p, false)
    }

    open spec fn substituted_in(v: NodeView, p: GenericParamView, a: ArgView) -> NodeView {
        substituted(v, p, a, false)
    }

    proof fn lemma_absent(v: NodeView, p: GenericParamView, a: ArgView) {
        lemma_absent_unchanged(v, p, a, false);
    }

    fn check_supported(&self) -> (res: Result<(), Error>) {
        Ok(())
    }

    fn collect_references(&self, param: &GenericParam, out: &mut Vec<Occurrence>) {
        collect_occurrences(self, param, false, out);
    }

    fn substitute_impl(&mut self, subst: &ParamSubst) {
        substitute_node(self, subst.param, subst.arg, false);
    }
}

impl Substitutable for Generics {
    open spec fn unsupported(v: GenericsView) -> Option<ErrorView> {
        None
    }

    open spec fn occurrences_in(v: GenericsView, p: GenericParamView) -> Seq<Occurrence> {
        generics_occurrences(v, p)
    }

    open spec fn substituted_in(v: GenericsView, p: GenericParamView, a: ArgView) -> GenericsView {
        generics_substituted(v, p, a)
    }

    proof fn lemma_absent(v: GenericsView, p: GenericParamView, a: ArgView) {
        lemma_generics_absent_unchanged(v, p, a);
    }

    fn check_supported(&self) -> (res: Result<(), Error>) {
        Ok(())
    }

    fn collect_references(&self, param: &GenericParam, out: &mut Vec<Occurrence>) {
        collect_generics(self, param, out);
    }

    fn substitute_impl(&mut self, subst: &ParamSubst) {
        substitute_generics(self, subst.param, subst.arg);
    }
}

impl Substitutable for GenericParam {
    open spec fn unsupported(v: GenericParamView) -> Option<ErrorView> {
        None
    }

    open spec fn occurrences_in(v: GenericParamView, p: GenericParamView) -> Seq<Occurrence> {
        param_occurrences(v, p)
    }

    open spec fn substituted_in(v: GenericParamView, p: GenericParamView, a: ArgView) -> GenericParamView {
        param_substituted(v, p, a)
    }

    proof fn lemma_absent(v: GenericParamView, p: GenericParamView, a: ArgView) {
        lemma_param_absent_unchanged(v, p, a);
    }

    fn check_supported(&self) -> (res: Result<(), Error>) {
        Ok(())
    }

    fn collect_references(&self, param: &GenericParam, out: &mut Vec<Occurrence>) {
        collect_param(self, param, out);
    }

    fn substitute_impl(&mut self, subst: &ParamSubst) {
        substitute_param(self, subst.param, subst.arg);
    }
}

impl Substitutable for TypeLevelExpr {
    open spec fn unsupported(v: TypeLevelExprView) -> Option<ErrorView> {
        None
    }

    open spec fn occurrences_in(v: TypeLevelExprView, p: GenericParamView) -> Seq<Occurrence> {
        expr_occurrences(v, p)
    }

    open spec fn substituted_in(v: TypeLevelExprView, p: GenericParamView, a: ArgView) -> TypeLevelExprView {
        expr_substituted(v, p, a)
    }

    proof fn lemma_absent(v: TypeLevelExprView, p: GenericParamView, a: ArgView) {
        lemma_expr_absent_unchanged(v, p, a);
    }

    fn check_supported(&self) -> (res: Result<(), Error>) {
        Ok(())
    }

    fn collect_references(&self, param: &GenericParam, out: &mut Vec<Occurrence>) {
        collect_expr(self, param, out);
    }

    fn substitute_impl(&mut self, subst: &ParamSubst) {
        substitute_expr(self, subst.param, subst.arg);
    }
}

/// Nothing: the fragment of a caller that has nothing to rewrite.
impl Substitutable for () {
    open spec fn unsupported(v: ()) -> Option<ErrorView> {
        None
    }

    open spec fn occurrences_in(v: (), p: GenericParamView) -> Seq<Occurrence> {
        Seq::empty()
    }

    open spec fn substituted_in(v: (), p: GenericParamView, a: ArgView) -> () {
        ()
    }

    proof fn lemma_absent(v: (), p: GenericParamView, a: ArgView) {
    }

    fn check_supported(&self) -> (res: Result<(), Error>) {
        Ok(())
    }

    fn collect_references(&self, param: &GenericParam, out: &mut Vec<Occurrence>) {
        assert(out@ =~= old(out)@ + Seq::<Occurrence>::empty());
    }

    fn substitute_impl(&mut self, subst: &ParamSubst) {
    }
}

/// Two fragments, the first before the second.
impl<E: Substitutable, F: Substitutable> Substitutable for (E, F) {
    open spec fn unsupported(v: (E::V, F::V)) -> Option<ErrorView> {
        if E::unsupported(v.0) is Some {
            E::unsupported(v.0)
        } else {
            F::unsupported(v.1)
        }
    }

    open spec fn occurrences_in(v: (E::V, F::V), p: GenericParamView) -> Seq<Occurrence> {
        E::occurrences_in(v.0, p) + F::occurrences_in(v.1, p)
    }

    open spec fn substituted_in(v: (E::V, F::V), p: GenericParamView, a: ArgView) -> (E::V, F::V) {
        (E::substituted_in(v.0, p, a), F::substituted_in(v.1, p, a))
    }

    proof fn lemma_absent(v: (E::V, F::V), p: GenericParamView, a: ArgView) {
        E::lemma_absent(v.0, p, a);
        F::lemma_absent(v.1, p, a);
    }

    fn check_supported(&self) -> (res: Result<(), Error>) {
        match self.0.check_supported() {
            Err(e) => Err(e),
            Ok(_) => self.1.check_supported(),
        }
    }

    fn collect_references(&self, param: &GenericParam, out: &mut Vec<Occurrence>) {
        self.0.collect_references(param, out);
        self.1.collect_references(param, out);
        assert(out@ =~= old(out)@ + Self::occurrences_in(self@, param@));
    }

    fn substitute_impl(&mut self, subst: &ParamSubst) {
        self.0.substitute_impl(subst);
        self.1.substitute_impl(subst);
    }
}

impl Substitutable for TypeLevelArm {
    open spec fn unsupported(v: TypeLevelArmView) -> Option<ErrorView> {
        None
    }

    open spec fn occurrences_in(v: TypeLevelArmView, p: GenericParamView) -> Seq<Occurrence> {
        arm_occurrences(v, p)
    }

    open spec fn substituted_in(v: TypeLevelArmView, p: GenericParamView, a: ArgView) -> TypeLevelArmView {
        arm_substituted(v, p, a, depth(v.body))
    }

    proof fn lemma_absent(v: TypeLevelArmView, p: GenericParamView, a: ArgView) {
    }

    fn check_supported(&self) -> (res: Result<(), Error>) {
        Ok(())
    }

    fn collect_references(&self, param: &GenericParam, out: &mut Vec<Occurrence>) {
        collect_arm(self, param, out);
    }

    fn substitute_impl(&mut self, subst: &ParamSubst) {
        substitute_arm(self, subst.param, subst.arg);
    }
}

impl Substitutable for TypeLevelExprMatch {
    open spec fn unsupported(v: TypeLevelExprMatchView) -> Option<ErrorView> {
        None
    }

    open spec fn occurrences_in(v: TypeLevelExprMatchView, p: GenericParamView) -> Seq<Occurrence> {
        expr_occurrences(TypeLevelExprView::Match(v), p)
    }

    open spec fn substituted_in(v: TypeLevelExprMatchView, p: GenericParamView, a: ArgView) -> TypeLevelExprMatchView {
        match expr_substituted(TypeLevelExprView::Match(v), p, a) {
            TypeLevelExprView::Match(after) => after,
            TypeLevelExprView::Expr(_) => v,
        }
    }

    proof fn lemma_absent(v: TypeLevelExprMatchView, p: GenericParamView, a: ArgView) {
        lemma_expr_absent_unchanged(TypeLevelExprView::Match(v), p, a);
    }

    fn check_supported(&self) -> (res: Result<(), Error>) {
        Ok(())
    }

    fn collect_references(&self, param: &GenericParam, out: &mut Vec<Occurrence>) {
        collect_list(&self.types, param, false, out);
        let ghost start = out@;
        let ghost views = crate::expr::arms_view(self.arms@);
        let mut i: usize = 0;
        assert(out@ =~= start + crate::expr::arms_occurrences(views.take(0), param@));
        while i < self.arms.len()
            invariant
                i <= self.arms@.len(),
                views == crate::expr::arms_view(self.arms@),
                out@ == start + crate::expr::arms_occurrences(views.take(i as int), param@),
            decreases self.arms@.len() - i,
        {
            collect_arm(&self.arms[i], param, out);
            proof {
                crate::expr::lemma_arms_occurrences_step(views, param@, i as int);
                assert(out@ =~= start + crate::expr::arms_occurrences(views.take(i + 1), param@));
            }
            i += 1;
        }
        proof {
            assert(views.take(i as int) =~= views);
            assert(out@ =~= old(out)@ + Self::occurrences_in(self@, param@));
        }
    }

    fn substitute_impl(&mut self, subst: &ParamSubst) {
        let mut own = TypeLevelExprMatch { types: Vec::new(), arms: Vec::new() };
        core::mem::swap(self, &mut own);
        let mut e = TypeLevelExpr::Match(own);
        proof {
            lemma_view_match(&e);
        }
        substitute_expr(&mut e, subst.param, subst.arg);
        match e {
            TypeLevelExpr::Match(after) => {
                proof {
                    lemma_view_match(&e);
                }
                *self = after;
            },
            TypeLevelExpr::Expr(_) => {},
        }
    }
}

} // verus!
