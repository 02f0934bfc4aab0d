//! Occurrences and substitution in generic parameters and parameter lists.
//!
//! The name that a parameter binds is no occurrence. What is searched and
//! rewritten is what a parameter carries: its bounds, its type, its default.

use vstd::prelude::*;
use crate::conflict::{name_conflict, param_name_conflict};
use crate::generics::{
    option_view, params_view, GenericParam, GenericParamView, Generics, GenericsView,
};
use crate::laws::{lemma_absent_unchanged, lemma_list_absent_unchanged};
use crate::occurrence::{
    collect_list, collect_occurrences, list_occurrences, occurrences, option_occurrences,
    Occurrence,
};
use crate::subst::{
    list_substituted, option_substituted, substitute_node, substituted, ArgView, ParamSubstArg,
};
use crate::syntax::{nodes_view, Node};

verus! {

/// The occurrences of `p` in what the parameter `q` carries.
pub open spec fn param_occurrences(q: GenericParamView, p: GenericParamView) -> Seq<Occurrence> {
    match q {
        GenericParamView::Lifetime { bounds, .. } => list_occurrences(bounds, p, false),
        GenericParamView::Type { bounds, default, .. } => list_occurrences(bounds, p, false)
            + option_occurrences(default, p),
        GenericParamView::Const { ty, default, .. } => occurrences(ty, p, false) + option_occurrences(
            default,
            p,
        ),
    }
}

/// The occurrences of `p` in what a list of parameters carries, in order.
pub open spec fn params_occurrences(params: Seq<GenericParamView>, p: GenericParamView) -> Seq<
    Occurrence,
>
    decreases params.len(),
{
    if params.len() == 0 {
        Seq::empty()
    } else {
        params_occurrences(params.drop_last(), p) + param_occurrences(params.last(), p)
    }
}

/// The occurrences of `p` in a parameter list and its `where` clause.
pub open spec fn generics_occurrences(g: GenericsView, p: GenericParamView) -> Seq<Occurrence> {
    params_occurrences(g.params, p) + list_occurrences(g.where_clause, p, false)
}

/// The parameter `q` with `a` in the place of `p` in what it carries.
pub open spec fn param_substituted(q: GenericParamView, p: GenericParamView, a: ArgView) -> GenericParamView {
    match q {
        GenericParamView::Lifetime { lifetime, bounds } => GenericParamView::Lifetime {
            lifetime,
            bounds: list_substituted(bounds, p, a, false),
        },
        GenericParamView::Type { ident, bounds, default } => GenericParamView::Type {
            ident,
            bounds: list_substituted(bounds, p, a, false),
            default: option_substituted(default, p, a),
        },
        GenericParamView::Const { ident, ty, default } => GenericParamView::Const {
            ident,
            ty: substituted(ty, p, a, false),
            default: option_substituted(default, p, a),
        },
    }
}

/// A list of parameters with `a` in the place of `p` in what they carry.
pub open spec fn params_substituted(
    params: Seq<GenericParamView>,
    p: GenericParamView,
    a: ArgView,
) -> Seq<GenericParamView> {
    Seq::new(params.len(), |i: int| param_substituted(params[i], p, a))
}

/// A parameter list with `a` in the place of `p`.
pub open spec fn generics_substituted(g: GenericsView, p: GenericParamView, a: ArgView) -> GenericsView {
    GenericsView {
        params: params_substituted(g.params, p, a),
        where_clause: list_substituted(g.where_clause, p, a, false),
    }
}

/// A list of parameters taken one further has the occurrences in that
/// parameter added.
pub proof fn lemma_params_occurrences_step(params: Seq<GenericParamView>, p: GenericParamView, i: int)
    requires
        0 <= i < params.len(),
    ensures
        params_occurrences(params.take(i + 1), p) == params_occurrences(params.take(i), p)
            + param_occurrences(params[i], p),
{
    assert(params.take(i + 1).drop_last() =~= params.take(i));
    assert(params.take(i + 1).last() == params[i]);
}

/// A list of parameters holds no occurrence only if none of them does.
pub proof fn lemma_params_absent(params: Seq<GenericParamView>, p: GenericParamView)
    requires
        params_occurrences(params, p).len() == 0,
    ensures
        forall|i: int| 0 <= i < params.len() ==> (#[trigger] param_occurrences(params[i], p)).len() == 0,
    decreases params.len(),
{
    if params.len() > 0 {
        lemma_params_absent(params.drop_last(), p);
        assert forall|i: int| 0 <= i < params.len() implies (#[trigger] param_occurrences(
            params[i],
            p,
        )).len() == 0 by {
            if i < params.len() - 1 {
                assert(params[i] == params.drop_last()[i]);
            } else {
                assert(params[i] == params.last());
            }
        }
    }
}

/// Substitution in a parameter that does not refer to `p` gives it back.
pub proof fn lemma_param_absent_unchanged(q: GenericParamView, p: GenericParamView, a: ArgView)
    requires
        param_occurrences(q, p).len() == 0,
    ensures
        param_substituted(q, p, a) == q,
{
    match q {
        GenericParamView::Lifetime { bounds, .. } => {
            lemma_list_absent_unchanged(bounds, p, a, false);
        },
        GenericParamView::Type { bounds, default, .. } => {
            lemma_list_absent_unchanged(bounds, p, a, false);
            if let Some(d) = default {
                lemma_absent_unchanged(d, p, a, false);
            }
        },
        GenericParamView::Const { ty, default, .. } => {
            lemma_absent_unchanged(ty, p, a, false);
            if let Some(d) = default {
                lemma_absent_unchanged(d, p, a, false);
            }
        },
    }
}

/// Substitution in a parameter list that does not refer to `p` gives it back.
pub proof fn lemma_generics_absent_unchanged(g: GenericsView, p: GenericParamView, a: ArgView)
    requires
        generics_occurrences(g, p).len() == 0,
    ensures
        generics_substituted(g, p, a) == g,
{
    lemma_params_absent(g.params, p);
    assert forall|i: int| 0 <= i < g.params.len() implies param_substituted(g.params[i], p, a)
        == g.params[i] by {
        assert(param_occurrences(g.params[i], p).len() == 0);
        lemma_param_absent_unchanged(g.params[i], p, a);
    }
    assert(params_substituted(g.params, p, a) =~= g.params);
    lemma_list_absent_unchanged(g.where_clause, p, a, false);
}

/// Appends the occurrences of `p` in an optional tree to `out`.
pub fn collect_option(node: &Option<Node>, p: &GenericParam, out: &mut Vec<Occurrence>)
    ensures
        final(out)@ == old(out)@ + option_occurrences(option_view(*node), p@),
{
    match node {
        Some(n) => {
            collect_occurrences(n, p, false, out);
        },
        None => {
            assert(out@ =~= old(out)@ + option_occurrences(option_view(*node), p@));
        },
    }
}

/// Appends the occurrences of `p` in what the parameter `q` carries to `out`.
pub fn collect_param(q: &GenericParam, p: &GenericParam, out: &mut Vec<Occurrence>)
    ensures
        final(out)@ == old(out)@ + param_occurrences(q@, p@),
{
    match q {
        GenericParam::Lifetime { bounds, .. } => {
            collect_list(bounds, p, false, out);
        },
        GenericParam::Type { bounds, default, .. } => {
            collect_list(bounds, p, false, out);
            collect_option(default, p, out);
            assert(out@ =~= old(out)@ + param_occurrences(q@, p@));
        },
        GenericParam::Const { ty, default, .. } => {
            collect_occurrences(ty, p, false, out);
            collect_option(default, p, out);
            assert(out@ =~= old(out)@ + param_occurrences(q@, p@));
        },
    }
}

/// Appends the occurrences of `p` in a list of parameters to `out`.
pub fn collect_params(params: &Vec<GenericParam>, p: &GenericParam, out: &mut Vec<Occurrence>)
    ensures
        final(out)@ == old(out)@ + params_occurrences(params_view(params@), p@),
{
    let ghost views = params_view(params@);
    let mut i: usize = 0;
    assert(out@ =~= old(out)@ + params_occurrences(views.take(0), p@));
    while i < params.len()
        invariant
            i <= params@.len(),
            views == params_view(params@),
            out@ == old(out)@ + params_occurrences(views.take(i as int), p@),
        decreases params@.len() - i,
    {
        collect_param(&params[i], p, out);
        proof {
            lemma_params_occurrences_step(views, p@, i as int);
            assert(out@ =~= old(out)@ + params_occurrences(views.take(i + 1), p@));
        }
        i += 1;
    }
    assert(views.take(i as int) =~= views);
}

/// Appends the occurrences of `p` in a parameter list to `out`.
pub fn collect_generics(g: &Generics, p: &GenericParam, out: &mut Vec<Occurrence>)
    ensures
        final(out)@ == old(out)@ + generics_occurrences(g@, p@),
{
    collect_params(&g.params, p, out);
    collect_list(&g.where_clause, p, false, out);
    assert(out@ =~= old(out)@ + generics_occurrences(g@, p@));
}

/// Puts `a` in the place of `p` in every tree of a list.
pub fn substitute_list(nodes: &mut Vec<Node>, p: &GenericParam, a: ParamSubstArg, in_args: bool)
    ensures
        nodes_view(final(nodes)@) == list_substituted(nodes_view(old(nodes)@), p@, a@, in_args),
{
    let ghost before = nodes@;
    let mut i: usize = 0;
    while i < nodes.len()
        invariant
            i <= nodes@.len(),
            nodes@.len() == before.len(),
            forall|j: int|
                0 <= j < i ==> (#[trigger] nodes@[j])@ == substituted(before[j]@, p@, a@, in_args),
            forall|j: int| i <= j < before.len() ==> nodes@[j] == before[j],
        decreases nodes@.len() - i,
    {
        substitute_node(&mut nodes[i], p, a, in_args);
        i += 1;
    }
    assert(nodes_view(nodes@) =~= list_substituted(nodes_view(before), p@, a@, in_args));
}

/// Puts `a` in the place of `p` in an optional tree.
pub fn substitute_option(node: &mut Option<Node>, p: &GenericParam, a: ParamSubstArg)
    ensures
        option_view(*final(node)) == option_substituted(option_view(*old(node)), p@, a@),
{
    match node {
        Some(n) => {
            substitute_node(n, p, a, false);
        },
        None => {},
    }
}

/// Puts `a` in the place of `p` in what the parameter `q` carries.
pub fn substitute_param(q: &mut GenericParam, p: &GenericParam, a: ParamSubstArg)
    ensures
        final(q)@ == param_substituted(old(q)@, p@, a@),
{
    match q {
        GenericParam::Lifetime { bounds, .. } => {
            substitute_list(bounds, p, a, false);
        },
        GenericParam::Type { bounds, default, .. } => {
            substitute_list(bounds, p, a, false);
            substitute_option(default, p, a);
        },
        GenericParam::Const { ty, default, .. } => {
            substitute_node(ty, p, a, false);
            substitute_option(default, p, a);
        },
    }
}

/// Puts `a` in the place of `p` in what a list of parameters carries.
pub fn substitute_params(params: &mut Vec<GenericParam>, p: &GenericParam, a: ParamSubstArg)
    ensures
        params_view(final(params)@) == params_substituted(params_view(old(params)@), p@, a@),
{
    let ghost before = params@;
    let mut i: usize = 0;
    while i < params.len()
        invariant
            i <= params@.len(),
            params@.len() == before.len(),
            forall|j: int|
                0 <= j < i ==> (#[trigger] params@[j])@ == param_substituted(before[j]@, p@, a@),
            forall|j: int| i <= j < before.len() ==> params@[j] == before[j],
        decreases params@.len() - i,
    {
        substitute_param(&mut params[i], p, a);
        i += 1;
    }
    assert(params_view(params@) =~= params_substituted(params_view(before), p@, a@));
}

/// Puts `a` in the place of `p` in a parameter list and its `where` clause.
pub fn substitute_generics(g: &mut Generics, p: &GenericParam, a: ParamSubstArg)
    ensures
        final(g)@ == generics_substituted(old(g)@, p@, a@),
{
    substitute_params(&mut g.params, p, a);
    substitute_list(&mut g.where_clause, p, a, false);
}

/// The occurrences of `p` in what a parameter that hides `p` carries in the
/// scope round it: the bounds of a lifetime parameter of the name of `p`.
pub open spec fn hider_occurrences(q: GenericParamView, p: GenericParamView) -> Seq<Occurrence> {
    match q {
        GenericParamView::Lifetime { bounds, .. } => if name_conflict(p, q) {
            list_occurrences(bounds, p, false)
        } else {
            Seq::empty()
        },
        _ => Seq::empty(),
    }
}

/// The occurrences of `p` in the bounds of the lifetime parameters of a list
/// that hide `p`, in order.
pub open spec fn hidden_occurrences(params: Seq<GenericParamView>, p: GenericParamView) -> Seq<
    Occurrence,
>
    decreases params.len(),
{
    if params.len() == 0 {
        Seq::empty()
    } else {
        hidden_occurrences(params.drop_last(), p) + hider_occurrences(params.last(), p)
    }
}

/// A parameter with `a` in the place of `p` in its bounds, where it is a
/// lifetime parameter that hides `p`; any other parameter as it is.
pub open spec fn hider_substituted(q: GenericParamView, p: GenericParamView, a: ArgView) -> GenericParamView {
    match q {
        GenericParamView::Lifetime { lifetime, bounds } => if name_conflict(p, q) {
            GenericParamView::Lifetime { lifetime, bounds: list_substituted(bounds, p, a, false) }
        } else {
            q
        },
        _ => q,
    }
}

/// A parameter list that hides `p`, with `a` in the place of `p` where the
/// list is read in the scope round it: in the bounds of the lifetime
/// parameters that hide `p`. The names, the other parameters and the `where`
/// clause stay.
pub open spec fn hidden_substituted(g: GenericsView, p: GenericParamView, a: ArgView) -> GenericsView {
    GenericsView {
        params: Seq::new(g.params.len(), |i: int| hider_substituted(g.params[i], p, a)),
        where_clause: g.where_clause,
    }
}

/// A list taken one further has the occurrences in that hiding parameter
/// added.
pub proof fn lemma_hidden_occurrences_step(params: Seq<GenericParamView>, p: GenericParamView, i: int)
    requires
        0 <= i < params.len(),
    ensures
        hidden_occurrences(params.take(i + 1), p) == hidden_occurrences(params.take(i), p)
            + hider_occurrences(params[i], p),
{
    assert(params.take(i + 1).drop_last() =~= params.take(i));
    assert(params.take(i + 1).last() == params[i]);
}

/// The hiding parameters of a list hold no occurrence only if none of them
/// does.
pub proof fn lemma_hidden_absent(params: Seq<GenericParamView>, p: GenericParamView)
    requires
        hidden_occurrences(params, p).len() == 0,
    ensures
        forall|i: int| 0 <= i < params.len() ==> (#[trigger] hider_occurrences(params[i], p)).len() == 0,
    decreases params.len(),
{
    if params.len() > 0 {
        lemma_hidden_absent(params.drop_last(), p);
        assert forall|i: int| 0 <= i < params.len() implies (#[trigger] hider_occurrences(
            params[i],
            p,
        )).len() == 0 by {
            if i < params.len() - 1 {
                assert(params[i] == params.drop_last()[i]);
            } else {
                assert(params[i] == params.last());
            }
        }
    }
}

/// A hiding list whose bounds do not refer to `p` stays as it is.
pub proof fn lemma_hidden_absent_unchanged(g: GenericsView, p: GenericParamView, a: ArgView)
    requires
        hidden_occurrences(g.params, p).len() == 0,
    ensures
        hidden_substituted(g, p, a) == g,
{
    lemma_hidden_absent(g.params, p);
    assert forall|i: int| 0 <= i < g.params.len() implies hider_substituted(g.params[i], p, a)
        == g.params[i] by {
        assert(hider_occurrences(g.params[i], p).len() == 0);
        match g.params[i] {
            GenericParamView::Lifetime { bounds, .. } => {
                if name_conflict(p, g.params[i]) {
                    lemma_list_absent_unchanged(bounds, p, a, false);
                }
            },
            _ => {},
        }
    }
    assert(hidden_substituted(g, p, a).params =~= g.params);
}

/// Appends to `out` the occurrences of `p` in the bounds of the lifetime
/// parameters of a list that hide `p`.
pub fn collect_hidden(params: &Vec<GenericParam>, p: &GenericParam, out: &mut Vec<Occurrence>)
    ensures
        final(out)@ == old(out)@ + hidden_occurrences(params_view(params@), p@),
{
    let ghost views = params_view(params@);
    let mut i: usize = 0;
    assert(out@ =~= old(out)@ + hidden_occurrences(views.take(0), p@));
    while i < params.len()
        invariant
            i <= params@.len(),
            views == params_view(params@),
            out@ == old(out)@ + hidden_occurrences(views.take(i as int), p@),
        decreases params@.len() - i,
    {
        let ghost before = out@;
        assert(views[i as int] == params@[i as int]@);
        match &params[i] {
            GenericParam::Lifetime { bounds, .. } => {
                if param_name_conflict(p, &params[i]) {
                    collect_list(bounds, p, false, out);
                }
            },
            _ => {},
        }
        proof {
            lemma_hidden_occurrences_step(views, p@, i as int);
            assert(out@ =~= before + hider_occurrences(views[i as int], p@));
            assert(out@ =~= old(out)@ + hidden_occurrences(views.take(i + 1), p@));
        }
        i += 1;
    }
    assert(views.take(i as int) =~= views);
}

/// Puts `a` in the place of `p` in the bounds of the lifetime parameters of a
/// list that hide `p`.
pub fn substitute_hidden(g: &mut Generics, p: &GenericParam, a: ParamSubstArg)
    ensures
        final(g)@ == hidden_substituted(old(g)@, p@, a@),
{
    let ghost before = g.params@;
    let mut i: usize = 0;
    while i < g.params.len()
        invariant
            i <= g.params@.len(),
            g.params@.len() == before.len(),
            g.where_clause == old(g).where_clause,
            before == old(g).params@,
            forall|j: int|
                0 <= j < i ==> (#[trigger] g.params@[j])@ == hider_substituted(before[j]@, p@, a@),
            forall|j: int| i <= j < before.len() ==> g.params@[j] == before[j],
        decreases g.params@.len() - i,
    {
        let hides = param_name_conflict(p, &g.params[i]);
        match &mut g.params[i] {
            GenericParam::Lifetime { bounds, .. } => {
                if hides {
                    substitute_list(bounds, p, a, false);
                }
            },
            _ => {},
        }
        i += 1;
    }
    assert(g@.params =~= hidden_substituted(old(g)@, p@, a@).params);
}

} // verus!
