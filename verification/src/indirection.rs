//! Closure conversion: which parameters of the scopes round an expression the
//! expression depends on, so that it can stand alone with those parameters as
//! its own.

use vstd::prelude::*;
use crate::binder::{
    collect_param, param_occurrences, param_substituted, params_substituted, substitute_param,
    substitute_params,
};
use crate::conflict::{name_conflict, param_name_conflict, scopes_conflict};
use crate::error::{Error, ErrorView, Reason};
use crate::generics::{
    clone_params, generic_param_arg, param_arg, params_view, self_param, self_type_param,
    GenericParam, GenericParamView, Generics, GenericsContext, ParamKind, ScopeView,
};
use crate::occurrence::Occurrence;
use crate::rename::{
    add_underscores_if_conflicting, conflicts, fresh, scopes_view, Conflict, ConflictView,
};
use crate::subst::{ArgView, ParamSubstArg};
use crate::substitutable::{ParamSubst, Substitutable};
use crate::syntax::{clone_nodes, nodes_view, Ident, Node, NodeView, Span};

verus! {

/// The views of all the scopes of a list.
pub open spec fn stack_view(scopes: Seq<Vec<GenericParam>>) -> Seq<Seq<GenericParamView>> {
    Seq::new(scopes.len(), |i: int| params_view(scopes[i]@))
}

/// The number of parameters in a list of scopes.
pub open spec fn stack_size(scopes: Seq<Seq<GenericParamView>>) -> nat
    decreases scopes.len(),
{
    if scopes.len() == 0 {
        0
    } else {
        stack_size(scopes.drop_last()) + scopes.last().len()
    }
}

/// How long a chain of parameters is followed at most: as long as there are
/// parameters, within what a machine number holds.
pub open spec fn chain_limit(scopes: Seq<Seq<GenericParamView>>) -> nat {
    if stack_size(scopes) > usize::MAX {
        usize::MAX as nat
    } else {
        stack_size(scopes)
    }
}

/// Where the expression `e` first refers to `p`, or else to a parameter that
/// needs `p`: one whose bounds, type or default refer to `p`, or which is
/// needed in this way by another. The parameters of `scopes` are tried in
/// order, and chains of at most `fuel` such steps are followed.
pub open spec fn first_reference<S: Substitutable>(
    e: S::V,
    scopes: Seq<Seq<GenericParamView>>,
    p: GenericParamView,
    fuel: nat,
) -> Option<Span>
    decreases fuel, 0nat, 0nat, 0nat,
{
    let found = S::occurrences_in(e, p);
    if found.len() > 0 {
        Some(found[0].span)
    } else if fuel == 0 {
        None
    } else {
        reference_through::<S>(e, scopes, p, (fuel - 1) as nat, 0, 0)
    }
}

/// Where `e` first refers to a parameter that needs `p`, among the parameters
/// of `scopes` from the parameter `j` of the scope `i` on.
pub open spec fn reference_through<S: Substitutable>(
    e: S::V,
    scopes: Seq<Seq<GenericParamView>>,
    p: GenericParamView,
    fuel: nat,
    i: int,
    j: int,
) -> Option<Span>
    decreases fuel, 1nat, scopes.len() - i, (if 0 <= i < scopes.len() {
        scopes[i].len() - j
    } else {
        0
    }),
{
    if i < 0 || j < 0 || i >= scopes.len() {
        None
    } else if j >= scopes[i].len() {
        reference_through::<S>(e, scopes, p, fuel, i + 1, 0)
    } else {
        let q = scopes[i][j];
        if !name_conflict(q, p) && param_occurrences(q, p).len() > 0 {
            match first_reference::<S>(e, scopes, q, fuel) {
                Some(span) => Some(span),
                None => reference_through::<S>(e, scopes, p, fuel, i, j + 1),
            }
        } else {
            reference_through::<S>(e, scopes, p, fuel, i, j + 1)
        }
    }
}

/// The number of parameters in a list of scopes, as far as a machine number
/// holds it.
pub fn count_params(scopes: &Vec<Vec<GenericParam>>) -> (count: usize)
    ensures
        count == chain_limit(stack_view(scopes@)),
{
    let ghost views = stack_view(scopes@);
    let mut count: usize = 0;
    let mut i: usize = 0;
    while i < scopes.len()
        invariant
            i <= scopes@.len(),
            views == stack_view(scopes@),
            count == chain_limit(views.take(i as int)),
        decreases scopes@.len() - i,
    {
        let len = scopes[i].len();
        proof {
            assert(views.take(i + 1).drop_last() =~= views.take(i as int));
            assert(views.take(i + 1).last().len() == len);
        }
        if len > usize::MAX - count {
            count = usize::MAX;
        } else {
            count = count + len;
        }
        i += 1;
    }
    assert(views.take(i as int) =~= views);
    count
}

/// Where `expr` first refers to `param`, or else to a parameter that needs
/// `param`, following chains of at most `fuel` steps.
pub fn get_first_param_reference<S: Substitutable>(
    expr_params: &Vec<Vec<GenericParam>>,
    expr: &S,
    param: &GenericParam,
    fuel: usize,
) -> (res: Option<Span>)
    ensures
        res == first_reference::<S>(expr@, stack_view(expr_params@), param@, fuel as nat),
    decreases fuel, 0nat, 0nat, 0nat,
{
    let mut found: Vec<Occurrence> = Vec::new();
    expr.collect_references(param, &mut found);
    assert(found@ =~= S::occurrences_in(expr@, param@));
    if found.len() > 0 {
        return Some(found[0].span);
    }
    if fuel == 0 {
        return None;
    }
    let ghost scopes = stack_view(expr_params@);
    let mut i: usize = 0;
    while i < expr_params.len()
        invariant
            i <= expr_params@.len(),
            fuel > 0,
            scopes == stack_view(expr_params@),
            reference_through::<S>(expr@, scopes, param@, (fuel - 1) as nat, i as int, 0)
                == first_reference::<S>(expr@, scopes, param@, fuel as nat),
        decreases expr_params@.len() - i,
    {
        let scope = &expr_params[i];
        let mut j: usize = 0;
        while j < scope.len()
            invariant
                j <= scope@.len(),
                i < expr_params@.len(),
                scope == expr_params@[i as int],
                fuel > 0,
                scopes == stack_view(expr_params@),
                reference_through::<S>(expr@, scopes, param@, (fuel - 1) as nat, i as int, j as int)
                    == first_reference::<S>(expr@, scopes, param@, fuel as nat),
            decreases scope@.len() - j,
        {
            let candidate = &scope[j];
            assert(scopes[i as int][j as int] == candidate@);
            if !param_name_conflict(candidate, param) {
                let mut inner: Vec<Occurrence> = Vec::new();
                collect_param(candidate, param, &mut inner);
                assert(inner@ =~= param_occurrences(candidate@, param@));
                if inner.len() > 0 {
                    match get_first_param_reference(expr_params, expr, candidate, fuel - 1) {
                        Some(span) => {
                            return Some(span);
                        },
                        None => {},
                    }
                }
            }
            j += 1;
        }
        assert(scopes[i as int].len() == scope@.len());
        i += 1;
    }
    None
}

/// The views of a list of captured parameters with their arguments.
pub open spec fn captures_view(captures: Seq<(GenericParam, Node)>) -> Seq<
    (GenericParamView, NodeView),
> {
    Seq::new(captures.len(), |i: int| (captures[i].0@, captures[i].1@))
}

/// The first `count` scopes of a list.
pub open spec fn inner_scopes(scopes: Seq<Seq<GenericParamView>>, count: int) -> Seq<
    Seq<GenericParamView>,
> {
    Seq::new(
        if count < scopes.len() {
            count as nat
        } else {
            scopes.len()
        },
        |i: int| scopes[i],
    )
}

/// The parameters among the first `n` of the last scope that `e` depends on,
/// each with the argument that passes it on, in order. A parameter that one of
/// an earlier scope hides is left out: `e` cannot refer to it.
pub open spec fn referenced<S: Substitutable>(
    e: S::V,
    scopes: Seq<Seq<GenericParamView>>,
    fuel: nat,
    n: nat,
) -> Seq<(GenericParamView, NodeView)>
    decreases n,
{
    if n == 0 || scopes.len() == 0 {
        Seq::empty()
    } else {
        let earlier = referenced::<S>(e, scopes, fuel, (n - 1) as nat);
        let this = scopes.last();
        if n - 1 < this.len() && !scopes_conflict(this[n - 1], scopes.drop_last()) {
            match first_reference::<S>(e, scopes, this[n - 1], fuel) {
                Some(span) => earlier.push((this[n - 1], param_arg(this[n - 1], Some(span)))),
                None => earlier,
            }
        } else {
            earlier
        }
    }
}

/// An expression on its way out of its scopes: what was captured so far, the
/// expression as it reads now, and the scopes as they read now, the innermost
/// first.
pub struct Lifted<V> {
    pub captured: Seq<(GenericParamView, NodeView)>,
    pub expr: V,
    pub scopes: Seq<Seq<GenericParamView>>,
}

/// The state after the captured parameter `k` was looked at: where its name
/// is among those of the first `count` scopes it has a fresh name, and the
/// expression, the captured parameters and all scopes but the last refer to
/// it by that name.
pub open spec fn settle_step<S: Substitutable>(st: Lifted<S::V>, count: int, k: int) -> Lifted<S::V> {
    let c = ConflictView::Scopes(inner_scopes(st.scopes, count));
    if 0 <= k < st.captured.len() && conflicts(c, st.captured[k].0) {
        let q = st.captured[k].0;
        let r = fresh(c, q);
        let a = ArgView::Param(r);
        Lifted {
            captured: Seq::new(
                st.captured.len(),
                |x: int|
                    (
                        param_substituted(
                            if x == k {
                                r
                            } else {
                                st.captured[x].0
                            },
                            q,
                            a,
                        ),
                        st.captured[x].1,
                    ),
            ),
            expr: S::substituted_in(st.expr, q, a),
            scopes: Seq::new(
                st.scopes.len(),
                |x: int|
                    if x < st.scopes.len() - 1 {
                        params_substituted(st.scopes[x], q, a)
                    } else {
                        st.scopes[x]
                    },
            ),
        }
    } else {
        st
    }
}

/// The state after the first `n` captured parameters were looked at in order.
pub open spec fn settled<S: Substitutable>(st: Lifted<S::V>, count: int, n: nat) -> Lifted<S::V>
    decreases n,
{
    if n == 0 {
        st
    } else {
        settle_step::<S>(settled::<S>(st, count, (n - 1) as nat), count, n - 1)
    }
}

/// What the last scope adds to an expression on its way out: the parameters
/// of that scope that the expression depends on, settled against the names of
/// the first `count` scopes.
pub open spec fn scope_lifted<S: Substitutable>(
    e: S::V,
    scopes: Seq<Seq<GenericParamView>>,
    count: int,
) -> Lifted<S::V> {
    let found = referenced::<S>(
        e,
        scopes,
        chain_limit(scopes),
        if scopes.len() > 0 {
            scopes.last().len()
        } else {
            0
        },
    );
    settled::<S>(Lifted { captured: found, expr: e, scopes }, count, found.len())
}

/// Whether lifting out of the last scope looks at the expression: whether the
/// scope has a parameter that no scope inside it hides.
pub open spec fn scope_searches(scopes: Seq<Seq<GenericParamView>>) -> bool {
    scopes.len() > 0 && exists|j: int|
        0 <= j < scopes.last().len() && !scopes_conflict(#[trigger] scopes.last()[j], scopes.drop_last())
}

/// Where no parameter of the last scope is looked for, none is referenced.
pub proof fn lemma_unsearched_referenced<S: Substitutable>(
    e: S::V,
    scopes: Seq<Seq<GenericParamView>>,
    fuel: nat,
    n: nat,
)
    requires
        !scope_searches(scopes),
    ensures
        referenced::<S>(e, scopes, fuel, n).len() == 0,
    decreases n,
{
    if n > 0 && scopes.len() > 0 {
        lemma_unsearched_referenced::<S>(e, scopes, fuel, (n - 1) as nat);
        if n - 1 < scopes.last().len() {
            assert(scopes_conflict(scopes.last()[n - 1], scopes.drop_last()));
        }
    }
}

/// A scope that is not searched adds nothing and changes nothing.
pub proof fn lemma_unsearched_scope<S: Substitutable>(
    e: S::V,
    scopes: Seq<Seq<GenericParamView>>,
    count: int,
)
    requires
        !scope_searches(scopes),
    ensures
        scope_lifted::<S>(e, scopes, count) == (Lifted::<S::V> {
            captured: Seq::empty(),
            expr: e,
            scopes,
        }),
{
    let n = if scopes.len() > 0 {
        scopes.last().len()
    } else {
        0
    };
    lemma_unsearched_referenced::<S>(e, scopes, chain_limit(scopes), n);
    let found = referenced::<S>(e, scopes, chain_limit(scopes), n);
    assert(found =~= Seq::empty());
}

/// Whether the last scope has a parameter that no scope inside it hides.
fn scope_is_searched(expr_params: &Vec<Vec<GenericParam>>) -> (res: bool)
    ensures
        res == scope_searches(stack_view(expr_params@)),
{
    if expr_params.len() == 0 {
        return false;
    }
    let last = expr_params.len() - 1;
    let ghost scopes = stack_view(expr_params@);
    assert(scopes.last() == params_view(expr_params@[last as int]@));
    assert(scopes_view(expr_params@, last as int) =~= scopes.drop_last());
    let conflict = Conflict::Scopes(expr_params, last);
    let mut j: usize = 0;
    while j < expr_params[last].len()
        invariant
            last == expr_params@.len() - 1,
            scopes == stack_view(expr_params@),
            scopes.len() > 0,
            scopes.last() == params_view(expr_params@[last as int]@),
            conflict@ == ConflictView::Scopes(scopes.drop_last()),
            j <= expr_params@[last as int]@.len(),
            forall|k: int| 0 <= k < j ==> scopes_conflict(#[trigger] scopes.last()[k], scopes.drop_last()),
        decreases expr_params@[last as int]@.len() - j,
    {
        let param = &expr_params[last][j];
        assert(scopes.last()[j as int] == param@);
        if !conflict.holds(param) {
            return true;
        }
        j += 1;
    }
    false
}

/// Captures the parameters of the last scope of `expr_params` that `expr`
/// depends on, and puts them with their arguments in front of `params`,
/// which holds what the scopes further out gave.
///
/// Fails, and changes nothing, where the scope has a parameter to look for
/// and `expr` cannot be searched.
pub fn add_param_indirections<S: Substitutable>(
    expr_params: &mut Vec<Vec<GenericParam>>,
    expr: &mut S,
    conflicting_expr_params: usize,
    params: &mut Vec<(GenericParam, Node)>,
) -> (res: Result<(), Error>)
    requires
        old(expr_params)@.len() >= 1,
    ensures
        match res {
            Ok(_) => {
                let st = scope_lifted::<S>(
                    old(expr)@,
                    stack_view(old(expr_params)@),
                    conflicting_expr_params as int,
                );
                &&& !(S::unsupported(old(expr)@) is Some && scope_searches(
                    stack_view(old(expr_params)@),
                ))
                &&& final(expr)@ == st.expr
                &&& stack_view(final(expr_params)@) == st.scopes
                &&& captures_view(final(params)@) == st.captured + captures_view(old(params)@)
            },
            Err(e) => {
                &&& S::unsupported(old(expr)@) == Some(e@)
                &&& scope_searches(stack_view(old(expr_params)@))
                &&& final(expr)@ == old(expr)@
                &&& stack_view(final(expr_params)@) == stack_view(old(expr_params)@)
                &&& captures_view(final(params)@) == captures_view(old(params)@)
            },
        },
        S::unsupported(old(expr)@) is Some ==> {
            &&& final(expr)@ == old(expr)@
            &&& stack_view(final(expr_params)@) == stack_view(old(expr_params)@)
            &&& captures_view(final(params)@) == captures_view(old(params)@)
        },
        final(expr_params)@.len() == old(expr_params)@.len(),
        forall|x: int|
            0 <= x < old(expr_params)@.len() ==> (#[trigger] final(expr_params)@[x])@.len() == old(
                expr_params,
            )@[x]@.len(),
        S::unsupported(final(expr)@) == S::unsupported(old(expr)@),
{
    if !scope_is_searched(expr_params) {
        proof {
            lemma_unsearched_scope::<S>(
                expr@,
                stack_view(expr_params@),
                conflicting_expr_params as int,
            );
            assert(captures_view(params@) =~= Seq::empty() + captures_view(params@));
        }
        return Ok(());
    }
    match expr.check_supported() {
        Err(e) => {
            return Err(e);
        },
        Ok(_) => {},
    }
    capture_scope(expr_params, expr, conflicting_expr_params, params);
    Ok(())
}

/// Captures the parameters of the last scope of `expr_params` that `expr`
/// depends on, and puts them with their arguments in front of `params`.
fn capture_scope<S: Substitutable>(
    expr_params: &mut Vec<Vec<GenericParam>>,
    expr: &mut S,
    conflicting_expr_params: usize,
    params: &mut Vec<(GenericParam, Node)>,
)
    requires
        old(expr_params)@.len() >= 1,
    ensures
        ({
            let st = scope_lifted::<S>(
                old(expr)@,
                stack_view(old(expr_params)@),
                conflicting_expr_params as int,
            );
            &&& final(expr)@ == st.expr
            &&& stack_view(final(expr_params)@) == st.scopes
            &&& captures_view(final(params)@) == st.captured + captures_view(old(params)@)
        }),
        final(expr_params)@.len() == old(expr_params)@.len(),
        forall|x: int|
            0 <= x < old(expr_params)@.len() ==> (#[trigger] final(expr_params)@[x])@.len() == old(
                expr_params,
            )@[x]@.len(),
        S::unsupported(final(expr)@) == S::unsupported(old(expr)@),
{
    let indir_idx = expr_params.len() - 1;
    let fuel = count_params(expr_params);
    let ghost scopes0 = stack_view(expr_params@);
    let ghost e0 = expr@;
    let mut referenced_params: Vec<(GenericParam, Node)> = Vec::new();
    let mut param_idx: usize = 0;
    assert(scopes0.last() == params_view(expr_params@[indir_idx as int]@));
    assert(captures_view(referenced_params@) =~= referenced::<S>(e0, scopes0, fuel as nat, 0));
    while param_idx < expr_params[indir_idx].len()
        invariant
            indir_idx == expr_params@.len() - 1,
            scopes0 == stack_view(expr_params@),
            scopes0.len() >= 1,
            e0 == expr@,
            fuel == chain_limit(scopes0),
            param_idx <= expr_params@[indir_idx as int]@.len(),
            scopes0.last().len() == expr_params@[indir_idx as int]@.len(),
            captures_view(referenced_params@) == referenced::<S>(
                e0,
                scopes0,
                fuel as nat,
                param_idx as nat,
            ),
        decreases expr_params@[indir_idx as int]@.len() - param_idx,
    {
        let param = &expr_params[indir_idx][param_idx];
        assert(scopes0.last()[param_idx as int] == param@);
        let conflict = Conflict::Scopes(expr_params, indir_idx);
        assert(scopes_view(expr_params@, indir_idx as int) =~= scopes0.drop_last());
        if !conflict.holds(param) {
            let param = param.clone();
            match get_first_param_reference(expr_params, expr, &param, fuel) {
                Some(first_ref_span) => {
                    let arg = generic_param_arg(&param, Some(first_ref_span));
                    referenced_params.push((param, arg));
                    assert(captures_view(referenced_params@) =~= referenced::<S>(
                        e0,
                        scopes0,
                        fuel as nat,
                        (param_idx + 1) as nat,
                    ));
                },
                None => {},
            }
        }
        param_idx += 1;
    }
    let ghost found = captures_view(referenced_params@);
    let ghost st0 = Lifted::<S::V> { captured: found, expr: e0, scopes: scopes0 };
    let ghost count = conflicting_expr_params as int;
    let mut k: usize = 0;
    while k < referenced_params.len()
        invariant
            k <= referenced_params@.len(),
            referenced_params@.len() == found.len(),
            indir_idx == expr_params@.len() - 1,
            expr_params@.len() == old(expr_params)@.len(),
            count == conflicting_expr_params as int,
            S::unsupported(expr@) == S::unsupported(old(expr)@),
            forall|x: int|
                0 <= x < expr_params@.len() ==> (#[trigger] expr_params@[x])@.len() == old(
                    expr_params,
                )@[x]@.len(),
            settled::<S>(st0, count, k as nat) == (Lifted::<S::V> {
                captured: captures_view(referenced_params@),
                expr: expr@,
                scopes: stack_view(expr_params@),
            }),
        decreases referenced_params@.len() - k,
    {
        let ghost st1 = settled::<S>(st0, count, k as nat);
        let conflict = Conflict::Scopes(expr_params, conflicting_expr_params);
        assert(scopes_view(expr_params@, count) =~= inner_scopes(st1.scopes, count));
        let ghost raw1 = referenced_params@;
        match add_underscores_if_conflicting(&mut referenced_params[k].0, &conflict) {
            Some(old_param) => {
                let new_param = referenced_params[k].0.clone();
                let ghost q = old_param@;
                let ghost r = new_param@;
                let ghost a = ArgView::Param(r);
                let arg = ParamSubstArg::Param(&new_param);
                let ghost raw2 = referenced_params@;
                assert(raw2.len() == raw1.len());
                assert(raw2[k as int].1 == raw1[k as int].1);
                let ghost old_scopes = expr_params@;
                let mut i: usize = 0;
                while i < indir_idx
                    invariant
                        i <= indir_idx,
                        indir_idx == expr_params@.len() - 1,
                        expr_params@.len() == old_scopes.len(),
                        arg@ == a,
                        old_param@ == q,
                        forall|x: int|
                            0 <= x < i ==> params_view((#[trigger] expr_params@[x])@)
                                == params_substituted(params_view(old_scopes[x]@), q, a),
                        forall|x: int| i <= x < old_scopes.len() ==> expr_params@[x] == old_scopes[x],
                        forall|x: int|
                            0 <= x < old_scopes.len() ==> (#[trigger] expr_params@[x])@.len()
                                == old_scopes[x]@.len(),
                    decreases indir_idx - i,
                {
                    let ghost len_before = expr_params@[i as int]@.len();
                    substitute_params(&mut expr_params[i], &old_param, arg);
                    assert(params_view(expr_params@[i as int]@).len() == len_before);
                    i += 1;
                }
                let mut x: usize = 0;
                while x < referenced_params.len()
                    invariant
                        x <= referenced_params@.len(),
                        referenced_params@.len() == raw2.len(),
                        arg@ == a,
                        old_param@ == q,
                        forall|y: int|
                            0 <= y < x ==> (#[trigger] referenced_params@[y]).0@ == param_substituted(
                                raw2[y].0@,
                                q,
                                a,
                            ) && referenced_params@[y].1 == raw2[y].1,
                        forall|y: int| x <= y < raw2.len() ==> referenced_params@[y] == raw2[y],
                    decreases referenced_params@.len() - x,
                {
                    substitute_param(&mut referenced_params[x].0, &old_param, arg);
                    x += 1;
                }
                let subst = ParamSubst::new(&old_param, arg);
                expr.substitute_impl(&subst);
                proof {
                    let st2 = settle_step::<S>(st1, count, k as int);
                    assert(raw1[k as int].0@ == st1.captured[k as int].0);
                    assert(captures_view(referenced_params@) =~= st2.captured) by {
                        assert forall|y: int| 0 <= y < raw2.len() implies captures_view(
                            referenced_params@,
                        )[y] == st2.captured[y] by {
                            if y != k {
                                assert(raw2[y] == raw1[y]);
                            }
                        }
                    }
                    assert(stack_view(expr_params@) =~= st2.scopes);
                }
            },
            None => {
                proof {
                    assert(raw1[k as int].0@ == st1.captured[k as int].0);
                    assert(captures_view(referenced_params@) =~= st1.captured);
                }
            },
        }
        k += 1;
    }
    let ghost before = params@;
    let ghost added = referenced_params@;
    referenced_params.append(params);
    core::mem::swap(params, &mut referenced_params);
    assert(captures_view(params@) =~= captures_view(added) + captures_view(before));
}

/// How many of the scopes on the stack the parameters captured from `scope`
/// must stay clear of: those inside it, and for a dispatch subject its own
/// scope too, since its name cannot be that of a parameter.
pub open spec fn clear_of(scope: ScopeView, inside: nat) -> int {
    match scope {
        ScopeView::SelfParam(_) => inside as int + 1,
        ScopeView::Generics(_) => inside as int,
    }
}

/// The expression `e` lifted out of the scopes of `context`, which lie round
/// the scopes of `stack`.
///
/// The scopes are worked on from the outermost inwards, and each adds those
/// of its parameters that the expression, as it reads by then, depends on.
/// In the result the parameters of an inner scope stand before those of the
/// scopes round it; within one scope they keep the order of their
/// declaration.
pub open spec fn lifted<S: Substitutable>(
    e: S::V,
    stack: Seq<Seq<GenericParamView>>,
    context: Seq<ScopeView>,
) -> Lifted<S::V>
    decreases context.len(),
{
    if context.len() == 0 {
        Lifted { captured: Seq::empty(), expr: e, scopes: stack }
    } else {
        let outer = lifted::<S>(
            e,
            stack.push(context[0].params()),
            context.subrange(1, context.len() as int),
        );
        let here = scope_lifted::<S>(outer.expr, outer.scopes, clear_of(context[0], stack.len()));
        Lifted {
            captured: here.captured + outer.captured,
            expr: here.expr,
            scopes: here.scopes.drop_last(),
        }
    }
}

/// A context is its first scope and the context round it.
pub proof fn lemma_context_split(context: &GenericsContext)
    ensures
        match context {
            GenericsContext::Empty => context@.len() == 0,
            GenericsContext::WithSelf(param, next) => {
                &&& context@.len() > 0
                &&& context@[0] == ScopeView::SelfParam(param@)
                &&& context@.subrange(1, context@.len() as int) == next@
            },
            GenericsContext::WithGenerics(generics, next) => {
                &&& context@.len() > 0
                &&& context@[0] == ScopeView::Generics(generics@)
                &&& context@.subrange(1, context@.len() as int) == next@
            },
        },
{
    match context {
        GenericsContext::Empty => {},
        GenericsContext::WithSelf(param, next) => {
            assert(context@.subrange(1, context@.len() as int) =~= next@);
        },
        GenericsContext::WithGenerics(generics, next) => {
            assert(context@.subrange(1, context@.len() as int) =~= next@);
        },
    }
}

/// Whether lifting out of the scopes of `context` looks at the expression:
/// whether one of the scopes has a parameter that no scope inside it hides.
pub open spec fn searches(stack: Seq<Seq<GenericParamView>>, context: Seq<ScopeView>) -> bool
    decreases context.len(),
{
    if context.len() == 0 {
        false
    } else {
        let pushed = stack.push(context[0].params());
        searches(pushed, context.subrange(1, context.len() as int)) || scope_searches(pushed)
    }
}

/// Lifting that does not look at the expression captures nothing and changes
/// nothing.
pub proof fn law_unsearched_lifting_is_idle<S: Substitutable>(
    e: S::V,
    stack: Seq<Seq<GenericParamView>>,
    context: Seq<ScopeView>,
)
    requires
        !searches(stack, context),
    ensures
        lifted::<S>(e, stack, context) == (Lifted::<S::V> {
            captured: Seq::empty(),
            expr: e,
            scopes: stack,
        }),
    decreases context.len(),
{
    if context.len() > 0 {
        let pushed = stack.push(context[0].params());
        let rest = context.subrange(1, context.len() as int);
        law_unsearched_lifting_is_idle::<S>(e, pushed, rest);
        lemma_unsearched_scope::<S>(e, pushed, clear_of(context[0], stack.len()));
        assert(pushed.drop_last() =~= stack);
        assert(lifted::<S>(e, stack, context).captured =~= Seq::empty());
    }
}

/// Captures, scope by scope, the parameters of `context` that `expr` depends
/// on, and rewrites `expr` to refer to the captured parameters.
///
/// Fails, and changes nothing, where a scope has a parameter to look for and
/// `expr` cannot be searched.
pub fn build_indirection_contents<S: Substitutable>(
    expr_params: &mut Vec<Vec<GenericParam>>,
    expr: &mut S,
    context: &GenericsContext,
) -> (res: Result<Vec<(GenericParam, Node)>, Error>)
    ensures
        match res {
            Ok(params) => {
                let st = lifted::<S>(old(expr)@, stack_view(old(expr_params)@), context@);
                &&& !(S::unsupported(old(expr)@) is Some && searches(
                    stack_view(old(expr_params)@),
                    context@,
                ))
                &&& captures_view(params@) == st.captured
                &&& final(expr)@ == st.expr
                &&& stack_view(final(expr_params)@) == st.scopes
            },
            Err(e) => {
                &&& S::unsupported(old(expr)@) == Some(e@)
                &&& searches(stack_view(old(expr_params)@), context@)
                &&& final(expr)@ == old(expr)@
                &&& stack_view(final(expr_params)@) == stack_view(old(expr_params)@)
            },
        },
        S::unsupported(old(expr)@) is Some ==> {
            &&& final(expr)@ == old(expr)@
            &&& stack_view(final(expr_params)@) == stack_view(old(expr_params)@)
            &&& res is Ok ==> res->Ok_0@.len() == 0
        },
        final(expr_params)@.len() == old(expr_params)@.len(),
        forall|x: int|
            0 <= x < old(expr_params)@.len() ==> (#[trigger] final(expr_params)@[x])@.len() == old(
                expr_params,
            )@[x]@.len(),
        S::unsupported(final(expr)@) == S::unsupported(old(expr)@),
    decreases context,
{
    proof {
        lemma_context_split(context);
    }
    let ghost stack = stack_view(expr_params@);
    let conflicting = match context {
        GenericsContext::Empty => {
            let res: Vec<(GenericParam, Node)> = Vec::new();
            assert(captures_view(res@) =~= Seq::empty());
            return Ok(res);
        },
        GenericsContext::WithSelf(param, _) => {
            let mut scope: Vec<GenericParam> = Vec::new();
            scope.push((*param).clone());
            assert(params_view(scope@) =~= context@[0].params());
            expr_params.push(scope);
            expr_params.len()
        },
        GenericsContext::WithGenerics(generics, _) => {
            let inside = expr_params.len();
            expr_params.push(clone_params(&generics.params));
            inside
        },
    };
    let next_context = match context {
        GenericsContext::WithSelf(_, next) => *next,
        GenericsContext::WithGenerics(_, next) => *next,
        GenericsContext::Empty => context,
    };
    let ghost pushed = stack.push(context@[0].params());
    assert(stack_view(expr_params@) =~= pushed);
    assert(conflicting as int == clear_of(context@[0], stack.len()));
    let mut params = match build_indirection_contents(expr_params, expr, next_context) {
        Err(e) => {
            let ghost here = stack_view(expr_params@);
            expr_params.pop();
            assert(stack_view(expr_params@) =~= here.drop_last());
            assert(here.drop_last() =~= stack);
            return Err(e);
        },
        Ok(params) => params,
    };
    let ghost outer = captures_view(params@);
    match add_param_indirections(expr_params, expr, conflicting, &mut params) {
        Err(e) => {
            let ghost here = stack_view(expr_params@);
            expr_params.pop();
            assert(stack_view(expr_params@) =~= here.drop_last());
            assert(here.drop_last() =~= stack);
            return Err(e);
        },
        Ok(_) => {},
    }
    let ghost here = stack_view(expr_params@);
    expr_params.pop();
    assert(stack_view(expr_params@) =~= here.drop_last());
    proof {
        if S::unsupported(old(expr)@) is Some {
            assert(here.drop_last() =~= stack);
            assert(outer.len() == 0);
            assert(captures_view(params@).len() == 0);
        }
    }
    Ok(params)
}

/// What an expression needs from the scopes round it to stand alone.
///
/// For every parameter of `context` that `expr` depends on, itself or through
/// the bounds of another such parameter, the result holds a parameter for the
/// new declaration and the argument that passes the old parameter on at the
/// place of use. The parameters of an inner scope stand before those of the
/// scopes round it. `expr` is rewritten to refer to the returned parameters.
///
/// Fails, and changes nothing, where a scope has a parameter to look for and
/// `expr` cannot be searched. Where there is nothing to look for, `expr` is
/// not looked at.
pub fn build_indirection<S: Substitutable>(expr: &mut S, context: &GenericsContext) -> (res: Result<
    Vec<(GenericParam, Node)>,
    Error,
>)
    ensures
        match res {
            Ok(params) => {
                let st = lifted::<S>(old(expr)@, Seq::empty(), context@);
                &&& !(S::unsupported(old(expr)@) is Some && searches(Seq::empty(), context@))
                &&& captures_view(params@) == st.captured
                &&& final(expr)@ == st.expr
            },
            Err(e) => {
                &&& S::unsupported(old(expr)@) == Some(e@)
                &&& searches(Seq::empty(), context@)
                &&& final(expr)@ == old(expr)@
            },
        },
{
    let mut expr_params: Vec<Vec<GenericParam>> = Vec::new();
    assert(stack_view(expr_params@) =~= Seq::empty());
    build_indirection_contents(&mut expr_params, expr, context)
}

/// What a parameter list holds under a name.
pub enum Named {
    /// A type parameter, at this position.
    Type(int),
    /// A const parameter, at this position.
    Const(int),
    Absent,
}

/// The first type or const parameter of the given name from position `i` on.
pub open spec fn find_named(params: Seq<GenericParamView>, name: Seq<char>, i: int) -> Named
    decreases params.len() - i,
{
    if i < 0 || i >= params.len() {
        Named::Absent
    } else if params[i].kind() == ParamKind::Type && params[i].name() == name {
        Named::Type(i)
    } else if params[i].kind() == ParamKind::Const && params[i].name() == name {
        Named::Const(i)
    } else {
        find_named(params, name, i + 1)
    }
}

/// The bounds of a type parameter; none for another parameter.
pub open spec fn type_bounds(q: GenericParamView) -> Seq<NodeView> {
    match q {
        GenericParamView::Type { bounds, .. } => bounds,
        _ => Seq::empty(),
    }
}

/// The failure that speaks of the name that was looked for.
pub open spec fn named_error(reason: Reason, ident: crate::syntax::IdentView) -> ErrorView {
    ErrorView { reason, span: ident.span, name: ident.name }
}

/// The expression `e` lifted out of the scopes of `context` with the type
/// parameter named by `ident` set apart, or the reason for which that cannot
/// be done.
///
/// The innermost scope that holds a type or const parameter of that name
/// decides. A type parameter is returned, is not captured, and `Self` takes
/// its place in the expression once the other parameters of its scope are
/// captured; a dispatch subject of that name is returned as it is. A const
/// parameter is refused, and so is a context that holds no such name.
pub open spec fn isolated<S: Substitutable>(
    e: S::V,
    stack: Seq<Seq<GenericParamView>>,
    context: Seq<ScopeView>,
    ident: crate::syntax::IdentView,
) -> Result<(GenericParamView, Lifted<S::V>), ErrorView>
    decreases context.len(),
{
    if context.len() == 0 {
        Err(named_error(Reason::TypeParamNotFound, ident))
    } else {
        let scope = context[0];
        let rest = context.subrange(1, context.len() as int);
        let pushed = stack.push(scope.params());
        let here_named = match scope {
            ScopeView::SelfParam(q) => if q.kind() == ParamKind::Type && q.name() == ident.name {
                Named::Type(0)
            } else {
                Named::Absent
            },
            ScopeView::Generics(g) => find_named(g.params, ident.name, 0),
        };
        match here_named {
            Named::Const(_) => Err(named_error(Reason::ConstParamFound, ident)),
            Named::Type(idx) => {
                let q = scope.params()[idx];
                let outer = lifted::<S>(e, pushed, rest);
                match scope {
                    ScopeView::SelfParam(_) => Ok(
                        (
                            q,
                            Lifted {
                                captured: outer.captured,
                                expr: outer.expr,
                                scopes: outer.scopes.drop_last(),
                            },
                        ),
                    ),
                    ScopeView::Generics(_) => {
                        let others = outer.scopes.update(
                            outer.scopes.len() - 1,
                            outer.scopes.last().remove(idx),
                        );
                        let here = scope_lifted::<S>(outer.expr, others, stack.len() as int);
                        Ok(
                            (
                                q,
                                Lifted {
                                    captured: here.captured + outer.captured,
                                    expr: S::substituted_in(
                                        here.expr,
                                        q,
                                        ArgView::Param(self_param(Span::spec_call_site(), type_bounds(q))),
                                    ),
                                    scopes: here.scopes.drop_last(),
                                },
                            ),
                        )
                    },
                }
            },
            Named::Absent => match isolated::<S>(e, pushed, rest, ident) {
                Err(x) => Err(x),
                Ok((q, outer)) => {
                    let here = scope_lifted::<S>(outer.expr, outer.scopes, clear_of(scope, stack.len()));
                    Ok(
                        (
                            q,
                            Lifted {
                                captured: here.captured + outer.captured,
                                expr: here.expr,
                                scopes: here.scopes.drop_last(),
                            },
                        ),
                    )
                },
            },
        }
    }
}

/// What `find_param` found.
enum Found {
    Type(usize),
    Const,
    Absent,
}

/// The first type or const parameter of the given name.
fn find_param(params: &Vec<GenericParam>, name: &String) -> (res: Found)
    ensures
        match res {
            Found::Type(idx) => find_named(params_view(params@), name@, 0) == Named::Type(idx as int)
                && idx < params@.len(),
            Found::Const => find_named(params_view(params@), name@, 0) is Const,
            Found::Absent => find_named(params_view(params@), name@, 0) is Absent,
        },
{
    let ghost views = params_view(params@);
    let mut i: usize = 0;
    while i < params.len()
        invariant
            i <= params@.len(),
            views == params_view(params@),
            find_named(views, name@, i as int) == find_named(views, name@, 0),
        decreases params@.len() - i,
    {
        let param = &params[i];
        assert(views[i as int] == param@);
        if param.ident().name == *name {
            match param.kind() {
                ParamKind::Type => {
                    return Found::Type(i);
                },
                ParamKind::Const => {
                    return Found::Const;
                },
                ParamKind::Lifetime => {},
            }
        }
        i += 1;
    }
    Found::Absent
}

/// A copy of the bounds of a type parameter; none for another parameter.
fn clone_bounds(param: &GenericParam) -> (bounds: Vec<Node>)
    ensures
        nodes_view(bounds@) == type_bounds(param@),
{
    match param {
        GenericParam::Type { bounds, .. } => clone_nodes(bounds),
        _ => {
            let bounds: Vec<Node> = Vec::new();
            assert(nodes_view(bounds@) =~= Seq::empty());
            bounds
        },
    }
}

/// Whether setting the parameter named by `ident` apart looks at the
/// expression or rewrites it, once the parameter is found: a scope on the way
/// has a parameter to look for, or the parameter stands in a parameter list,
/// so that `Self` has to take its place.
pub open spec fn isolation_searches(
    stack: Seq<Seq<GenericParamView>>,
    context: Seq<ScopeView>,
    ident: crate::syntax::IdentView,
) -> bool
    decreases context.len(),
{
    if context.len() == 0 {
        false
    } else {
        let scope = context[0];
        let rest = context.subrange(1, context.len() as int);
        let pushed = stack.push(scope.params());
        match scope {
            ScopeView::SelfParam(q) => if q.kind() == ParamKind::Type && q.name() == ident.name {
                searches(pushed, rest)
            } else {
                isolation_searches(pushed, rest, ident) || scope_searches(pushed)
            },
            ScopeView::Generics(g) => match find_named(g.params, ident.name, 0) {
                Named::Const(_) => false,
                Named::Type(_) => true,
                Named::Absent => isolation_searches(pushed, rest, ident) || scope_searches(pushed),
            },
        }
    }
}

/// Whether an expression that cannot be searched stands in the way of
/// setting the parameter apart.
pub open spec fn isolation_blocked<S: Substitutable>(
    e: S::V,
    stack: Seq<Seq<GenericParamView>>,
    context: Seq<ScopeView>,
    ident: crate::syntax::IdentView,
) -> bool {
    S::unsupported(e) is Some && isolation_searches(stack, context, ident)
}

/// Lifts `expr` out of the scopes of `context` and sets the type parameter
/// named by `param_ident` apart.
fn isolate<'a, S: Substitutable>(
    expr_params: &mut Vec<Vec<GenericParam>>,
    expr: &mut S,
    context: &'a GenericsContext<'a>,
    param_ident: &Ident,
) -> (res: Result<(&'a GenericParam, Vec<(GenericParam, Node)>), Error>)
    ensures
        match isolated::<S>(old(expr)@, stack_view(old(expr_params)@), context@, param_ident@) {
            Err(x) => res is Err && res->Err_0@ == x,
            Ok(found) => if isolation_blocked::<S>(
                old(expr)@,
                stack_view(old(expr_params)@),
                context@,
                param_ident@,
            ) {
                res is Err && S::unsupported(old(expr)@) == Some(res->Err_0@)
            } else {
                &&& res is Ok
                &&& found == (
                    res->Ok_0.0@,
                    Lifted::<S::V> {
                        captured: captures_view(res->Ok_0.1@),
                        expr: final(expr)@,
                        scopes: stack_view(final(expr_params)@),
                    },
                )
            },
        },
        res is Err || S::unsupported(old(expr)@) is Some ==> {
            &&& final(expr)@ == old(expr)@
            &&& stack_view(final(expr_params)@) == stack_view(old(expr_params)@)
            &&& res is Ok ==> res->Ok_0.1@.len() == 0
        },
        final(expr_params)@.len() == old(expr_params)@.len(),
        forall|x: int|
            0 <= x < old(expr_params)@.len() ==> (#[trigger] final(expr_params)@[x])@.len() == old(
                expr_params,
            )@[x]@.len(),
        S::unsupported(final(expr)@) == S::unsupported(old(expr)@),
    decreases context,
{
    proof {
        lemma_context_split(context);
    }
    let ghost stack = stack_view(expr_params@);
    let ghost e0 = expr@;
    match context {
        GenericsContext::Empty => Err(
            Error::named(Reason::TypeParamNotFound, param_ident.span, &param_ident.name),
        ),
        GenericsContext::WithSelf(param, next_context) => {
            let mut scope: Vec<GenericParam> = Vec::new();
            scope.push((*param).clone());
            assert(params_view(scope@) =~= context@[0].params());
            expr_params.push(scope);
            let ghost pushed = stack.push(context@[0].params());
            assert(stack_view(expr_params@) =~= pushed);
            if param.kind() == ParamKind::Type && param.ident().name == param_ident.name {
                let res = build_indirection_contents(expr_params, expr, next_context);
                let ghost here = stack_view(expr_params@);
                expr_params.pop();
                assert(stack_view(expr_params@) =~= here.drop_last());
                assert(pushed.drop_last() =~= stack);
                return match res {
                    Err(e) => Err(e),
                    Ok(params) => Ok((*param, params)),
                };
            }
            let expr_params_len = expr_params.len();
            let res = isolate(expr_params, expr, next_context, param_ident);
            let res = match res {
                Err(x) => Err(x),
                Ok((q, mut params)) => {
                    match add_param_indirections(expr_params, expr, expr_params_len, &mut params) {
                        Err(e) => Err(e),
                        Ok(_) => Ok((q, params)),
                    }
                },
            };
            let ghost here = stack_view(expr_params@);
            expr_params.pop();
            assert(stack_view(expr_params@) =~= here.drop_last());
            assert(pushed.drop_last() =~= stack);
            res
        },
        GenericsContext::WithGenerics(generics, next_context) => {
            let expr_params_orig_len = expr_params.len();
            let ghost pushed = stack.push(context@[0].params());
            match find_param(&generics.params, &param_ident.name) {
                Found::Const => Err(
                    Error::named(Reason::ConstParamFound, param_ident.span, &param_ident.name),
                ),
                Found::Type(idx) => {
                    let param = &generics.params[idx];
                    assert(param@ == context@[0].params()[idx as int]);
                    expr_params.push(clone_params(&generics.params));
                    assert(stack_view(expr_params@) =~= pushed);
                    let res = isolate_found(expr_params, expr, next_context, param, idx);
                    let ghost here = stack_view(expr_params@);
                    expr_params.pop();
                    assert(stack_view(expr_params@) =~= here.drop_last());
                    assert(pushed.drop_last() =~= stack);
                    match res {
                        Err(e) => Err(e),
                        Ok(params) => Ok((param, params)),
                    }
                },
                Found::Absent => {
                    expr_params.push(clone_params(&generics.params));
                    assert(stack_view(expr_params@) =~= pushed);
                    let res = isolate(expr_params, expr, next_context, param_ident);
                    let res = match res {
                        Err(x) => Err(x),
                        Ok((q, mut params)) => {
                            match add_param_indirections(
                                expr_params,
                                expr,
                                expr_params_orig_len,
                                &mut params,
                            ) {
                                Err(e) => Err(e),
                                Ok(_) => Ok((q, params)),
                            }
                        },
                    };
                    let ghost here = stack_view(expr_params@);
                    expr_params.pop();
                    assert(stack_view(expr_params@) =~= here.drop_last());
                    assert(pushed.drop_last() =~= stack);
                    res
                },
            }
        },
    }
}

/// Lifts `expr` out of the scopes round the parameter list on top of the
/// stack, captures the other parameters of that list, and puts `Self` in the
/// place of its parameter `idx`, which is `param`.
fn isolate_found<S: Substitutable>(
    expr_params: &mut Vec<Vec<GenericParam>>,
    expr: &mut S,
    next_context: &GenericsContext,
    param: &GenericParam,
    idx: usize,
) -> (res: Result<Vec<(GenericParam, Node)>, Error>)
    requires
        old(expr_params)@.len() >= 1,
        idx < old(expr_params)@.last()@.len(),
    ensures
        match res {
            Ok(params) => {
                let pushed = stack_view(old(expr_params)@);
                let outer = lifted::<S>(old(expr)@, pushed, next_context@);
                let others = outer.scopes.update(
                    outer.scopes.len() - 1,
                    outer.scopes.last().remove(idx as int),
                );
                let here = scope_lifted::<S>(outer.expr, others, pushed.len() - 1);
                &&& S::unsupported(old(expr)@) is None
                &&& captures_view(params@) == here.captured + outer.captured
                &&& final(expr)@ == S::substituted_in(
                    here.expr,
                    param@,
                    ArgView::Param(self_param(Span::spec_call_site(), type_bounds(param@))),
                )
                &&& stack_view(final(expr_params)@).drop_last() == here.scopes.drop_last()
            },
            Err(e) => {
                &&& S::unsupported(old(expr)@) == Some(e@)
                &&& final(expr)@ == old(expr)@
                &&& stack_view(final(expr_params)@).drop_last() == stack_view(
                    old(expr_params)@,
                ).drop_last()
            },
        },
        final(expr_params)@.len() == old(expr_params)@.len(),
        forall|x: int|
            0 <= x < old(expr_params)@.len() - 1 ==> (#[trigger] final(expr_params)@[x])@.len() == old(
                expr_params,
            )@[x]@.len(),
        S::unsupported(final(expr)@) == S::unsupported(old(expr)@),
{
    let last = expr_params.len() - 1;
    let ghost pushed = stack_view(expr_params@);
    let mut params = match build_indirection_contents(expr_params, expr, next_context) {
        Err(e) => {
            return Err(e);
        },
        Ok(params) => params,
    };
    let ghost outer = stack_view(expr_params@);
    expr_params[last].remove(idx);
    assert(stack_view(expr_params@) =~= outer.update(
        outer.len() - 1,
        outer.last().remove(idx as int),
    )) by {
        assert(stack_view(expr_params@)[outer.len() - 1] =~= outer.last().remove(idx as int));
    }
    let ghost others = stack_view(expr_params@);
    assert(others.drop_last() =~= outer.drop_last());
    match add_param_indirections(expr_params, expr, last, &mut params) {
        Err(e) => {
            return Err(e);
        },
        Ok(_) => {},
    }
    match expr.check_supported() {
        Err(e) => {
            return Err(e);
        },
        Ok(_) => {},
    }
    let self_param = self_type_param(None, clone_bounds(param));
    let subst = ParamSubst::new(param, ParamSubstArg::Param(&self_param));
    expr.substitute_impl(&subst);
    Ok(params)
}

/// Lifts `expr` out of the scopes of `context`, as `build_indirection` does,
/// and sets the type parameter named by `param_ident` apart: it is returned
/// instead of being captured, and `expr` refers to it as `Self`.
///
/// Fails, and changes nothing, where the context holds no type parameter of
/// that name, and where the innermost parameter of that name is a const
/// parameter. Only then, it fails where `expr` has to be searched or
/// rewritten and cannot be.
pub fn isolate_type_param<'a, S: Substitutable>(
    expr: &mut S,
    context: &'a GenericsContext<'a>,
    param_ident: &Ident,
) -> (res: Result<(&'a GenericParam, Vec<(GenericParam, Node)>), Error>)
    ensures
        match isolated::<S>(old(expr)@, Seq::empty(), context@, param_ident@) {
            Err(x) => res is Err && res->Err_0@ == x,
            Ok(found) => if isolation_blocked::<S>(old(expr)@, Seq::empty(), context@, param_ident@) {
                res is Err && S::unsupported(old(expr)@) == Some(res->Err_0@)
            } else {
                &&& res is Ok
                &&& res->Ok_0.0@.kind() == ParamKind::Type
                &&& res->Ok_0.0@.name() == param_ident@.name
                &&& found.0 == res->Ok_0.0@
                &&& found.1.captured == captures_view(res->Ok_0.1@)
                &&& found.1.expr == final(expr)@
            },
        },
        res is Err ==> final(expr)@ == old(expr)@,
{
    let mut expr_params: Vec<Vec<GenericParam>> = Vec::new();
    assert(stack_view(expr_params@) =~= Seq::empty());
    let res = isolate(&mut expr_params, expr, context, param_ident);
    proof {
        if res is Ok {
            lemma_isolated_is_type::<S>(old(expr)@, Seq::empty(), context@, param_ident@);
        }
    }
    res
}

/// What is set apart is a type parameter of the name that was asked for.
pub proof fn lemma_isolated_is_type<S: Substitutable>(
    e: S::V,
    stack: Seq<Seq<GenericParamView>>,
    context: Seq<ScopeView>,
    ident: crate::syntax::IdentView,
)
    requires
        isolated::<S>(e, stack, context, ident) is Ok,
    ensures
        isolated::<S>(e, stack, context, ident)->Ok_0.0.kind() == ParamKind::Type,
        isolated::<S>(e, stack, context, ident)->Ok_0.0.name() == ident.name,
    decreases context.len(),
{
    if context.len() > 0 {
        let scope = context[0];
        let rest = context.subrange(1, context.len() as int);
        let pushed = stack.push(scope.params());
        match scope {
            ScopeView::SelfParam(q) => {
                if !(q.kind() == ParamKind::Type && q.name() == ident.name) {
                    lemma_isolated_is_type::<S>(e, pushed, rest, ident);
                }
            },
            ScopeView::Generics(g) => {
                lemma_find_named(g.params, ident.name, 0);
                if find_named(g.params, ident.name, 0) is Absent {
                    lemma_isolated_is_type::<S>(e, pushed, rest, ident);
                }
            },
        }
    }
}

/// What is found under a name has that name and the kind that is said.
pub proof fn lemma_find_named(params: Seq<GenericParamView>, name: Seq<char>, i: int)
    ensures
        match find_named(params, name, i) {
            Named::Type(idx) => 0 <= idx < params.len() && params[idx].kind() == ParamKind::Type
                && params[idx].name() == name,
            Named::Const(idx) => 0 <= idx < params.len() && params[idx].kind() == ParamKind::Const
                && params[idx].name() == name,
            Named::Absent => true,
        },
    decreases params.len() - i,
{
    if 0 <= i < params.len() {
        lemma_find_named(params, name, i + 1);
    }
}

} // verus!
