//! Name conflicts between generic parameters, and the finite sets of names
//! that a parameter can be in conflict with.

use vstd::prelude::*;
use crate::generics::{
    context_view, params_view, GenericParam, GenericParamView, Generics, GenericsContext,
    ParamKind, ScopeView,
};
use crate::occurrence::{
    list_occurrences, occurrences, qself_occurrences, segment_occurrences, segments_occurrences,
    site,
};
use crate::syntax::{NodeView, PathSegmentView, QSelfView};

verus! {

/// Whether two parameters cannot be told apart by name: lifetimes have a
/// namespace of their own, types and constants share one.
pub open spec fn name_conflict(p1: GenericParamView, p2: GenericParamView) -> bool {
    (p1.kind() == ParamKind::Lifetime) == (p2.kind() == ParamKind::Lifetime) && p1.name()
        == p2.name()
}

/// Whether `p` is in conflict with one of `params`.
pub open spec fn params_conflict(p: GenericParamView, params: Seq<GenericParamView>) -> bool {
    exists|i: int| 0 <= i < params.len() && name_conflict(p, #[trigger] params[i])
}

/// Whether `p` is in conflict with a parameter of one of `scopes`.
pub open spec fn scopes_conflict(p: GenericParamView, scopes: Seq<Seq<GenericParamView>>) -> bool {
    exists|i: int| 0 <= i < scopes.len() && params_conflict(p, #[trigger] scopes[i])
}

/// Whether `p` is in conflict with a parameter of one of the scopes of a
/// context.
pub open spec fn context_conflict(p: GenericParamView, context: Seq<ScopeView>) -> bool {
    exists|i: int| 0 <= i < context.len() && params_conflict(p, (#[trigger] context[i]).params())
}

pub fn param_name_conflict(param1: &GenericParam, param2: &GenericParam) -> (res: bool)
    ensures
        res == name_conflict(param1@, param2@),
{
    let lifetime1 = param1.kind() == ParamKind::Lifetime;
    let lifetime2 = param2.kind() == ParamKind::Lifetime;
    lifetime1 == lifetime2 && param1.ident().same_name(param2.ident())
}

/// Whether `param` is in conflict with one of `params`.
pub fn param_list_name_conflict(param: &GenericParam, params: &Vec<GenericParam>) -> (res: bool)
    ensures
        res == params_conflict(param@, params_view(params@)),
{
    let mut i: usize = 0;
    while i < params.len()
        invariant
            i <= params@.len(),
            forall|j: int| 0 <= j < i ==> !name_conflict(param@, #[trigger] params_view(params@)[j]),
        decreases params@.len() - i,
    {
        if param_name_conflict(param, &params[i]) {
            assert(name_conflict(param@, params_view(params@)[i as int]));
            return true;
        }
        i += 1;
    }
    false
}

pub fn param_generics_name_conflict(param: &GenericParam, generics: &Generics) -> (res: bool)
    ensures
        res == params_conflict(param@, generics@.params),
{
    param_list_name_conflict(param, &generics.params)
}

/// A parameter is in conflict with a context exactly if it is in conflict
/// with the first scope or with the context round it.
pub proof fn lemma_context_conflict_split(p: GenericParamView, first: ScopeView, rest: Seq<ScopeView>)
    ensures
        context_conflict(p, seq![first] + rest) == (params_conflict(p, first.params())
            || context_conflict(p, rest)),
{
    let whole = seq![first] + rest;
    if params_conflict(p, first.params()) {
        assert(params_conflict(p, whole[0].params()));
    }
    if context_conflict(p, rest) {
        let i = choose|i: int| 0 <= i < rest.len() && params_conflict(p, (#[trigger] rest[i]).params());
        assert(whole[i + 1] == rest[i]);
    }
    if context_conflict(p, whole) {
        let i = choose|i: int|
            0 <= i < whole.len() && params_conflict(p, (#[trigger] whole[i]).params());
        if i > 0 {
            assert(whole[i] == rest[i - 1]);
        }
    }
}

pub fn param_context_name_conflict(param: &GenericParam, context: &GenericsContext) -> (res: bool)
    ensures
        res == context_conflict(param@, context@),
    decreases context,
{
    match context {
        GenericsContext::Empty => false,
        GenericsContext::WithSelf(self_param, next_context) => {
            proof {
                let scope = ScopeView::SelfParam(self_param@);
                lemma_context_conflict_split(param@, scope, context_view(next_context));
                assert(params_conflict(param@, scope.params()) == name_conflict(param@, self_param@)) by {
                    if name_conflict(param@, self_param@) {
                        assert(name_conflict(param@, scope.params()[0]));
                    }
                }
            }
            param_name_conflict(param, self_param) || param_context_name_conflict(param, next_context)
        },
        GenericsContext::WithGenerics(generics, next_context) => {
            proof {
                lemma_context_conflict_split(
                    param@,
                    ScopeView::Generics(generics@),
                    context_view(next_context),
                );
            }
            param_generics_name_conflict(param, generics) || param_context_name_conflict(
                param,
                next_context,
            )
        },
    }
}

/// The number of characters in all the names of a tree. No parameter with a
/// longer name occurs in it.
pub open spec fn node_weight(n: NodeView) -> nat
    decreases n, 0nat,
{
    match n {
        NodeView::Lifetime { ident } => ident.name.len(),
        NodeView::Path { qself, segments, .. } => qself_weight(qself) + segments_weight(segments),
        NodeView::Tree { children, .. } => list_weight(children),
    }
}

pub open spec fn qself_weight(qself: Option<QSelfView>) -> nat
    decreases qself, 1nat,
{
    match qself {
        Some(q) => node_weight(*q.ty),
        None => 0,
    }
}

pub open spec fn list_weight(nodes: Seq<NodeView>) -> nat
    decreases nodes, 1nat,
{
    if nodes.len() == 0 {
        0
    } else {
        list_weight(nodes.drop_last()) + node_weight(nodes.last())
    }
}

pub open spec fn segment_weight(segment: PathSegmentView) -> nat
    decreases segment, 1nat,
{
    segment.ident.name.len() + match segment.arguments {
        Some(a) => node_weight(*a),
        None => 0,
    }
}

pub open spec fn segments_weight(segments: Seq<PathSegmentView>) -> nat
    decreases segments, 2nat,
{
    if segments.len() == 0 {
        0
    } else {
        segments_weight(segments.drop_last()) + segment_weight(segments.last())
    }
}

/// The weight of a list is at least that of each of its trees.
pub proof fn lemma_list_weight(nodes: Seq<NodeView>, i: int)
    requires
        0 <= i < nodes.len(),
    ensures
        node_weight(nodes[i]) <= list_weight(nodes),
    decreases nodes.len(),
{
    if i < nodes.len() - 1 {
        lemma_list_weight(nodes.drop_last(), i);
        assert(nodes.drop_last()[i] == nodes[i]);
    }
}

/// The weight of a path's segments is at least that of each segment.
pub proof fn lemma_segments_weight(segments: Seq<PathSegmentView>, i: int)
    requires
        0 <= i < segments.len(),
    ensures
        segment_weight(segments[i]) <= segments_weight(segments),
    decreases segments.len(),
{
    if i < segments.len() - 1 {
        lemma_segments_weight(segments.drop_last(), i);
        assert(segments.drop_last()[i] == segments[i]);
    }
}

/// A list none of whose trees holds an occurrence holds none.
pub proof fn lemma_list_all_absent(nodes: Seq<NodeView>, p: GenericParamView, in_args: bool)
    requires
        forall|i: int| 0 <= i < nodes.len() ==> (#[trigger] occurrences(nodes[i], p, in_args)).len() == 0,
    ensures
        list_occurrences(nodes, p, in_args).len() == 0,
    decreases nodes.len(),
{
    if nodes.len() > 0 {
        assert forall|i: int| 0 <= i < nodes.drop_last().len() implies (#[trigger] occurrences(
            nodes.drop_last()[i],
            p,
            in_args,
        )).len() == 0 by {
            assert(nodes.drop_last()[i] == nodes[i]);
        }
        lemma_list_all_absent(nodes.drop_last(), p, in_args);
        assert(occurrences(nodes[nodes.len() - 1], p, in_args).len() == 0);
    }
}

/// Segments none of which holds an occurrence hold none.
pub proof fn lemma_segments_all_absent(segments: Seq<PathSegmentView>, p: GenericParamView)
    requires
        forall|i: int|
            0 <= i < segments.len() ==> (#[trigger] segment_occurrences(segments[i], p)).len() == 0,
    ensures
        segments_occurrences(segments, p).len() == 0,
    decreases segments.len(),
{
    if segments.len() > 0 {
        assert forall|i: int| 0 <= i < segments.drop_last().len() implies (
        #[trigger] segment_occurrences(segments.drop_last()[i], p)).len() == 0 by {
            assert(segments.drop_last()[i] == segments[i]);
        }
        lemma_segments_all_absent(segments.drop_last(), p);
        assert(segment_occurrences(segments[segments.len() - 1], p).len() == 0);
    }
}

/// A parameter that occurs in a tree has a name no longer than the tree's
/// weight.
pub proof fn lemma_occurrence_weight(n: NodeView, p: GenericParamView, in_args: bool)
    requires
        occurrences(n, p, in_args).len() > 0,
    ensures
        p.name().len() <= node_weight(n),
    decreases n,
{
    match n {
        NodeView::Lifetime { .. } => {},
        NodeView::Path { qself, segments, .. } => {
            if site(n, p, in_args) is Some {
                lemma_segments_weight(segments, 0);
            } else if qself_occurrences(qself, p).len() > 0 {
                lemma_occurrence_weight(*qself->0.ty, p, false);
            } else {
                if forall|i: int|
                    0 <= i < segments.len() ==> (#[trigger] segment_occurrences(segments[i], p)).len()
                        == 0 {
                    lemma_segments_all_absent(segments, p);
                }
                let i = choose|i: int|
                    0 <= i < segments.len() && (#[trigger] segment_occurrences(segments[i], p)).len()
                        > 0;
                lemma_occurrence_weight(*segments[i].arguments->0, p, false);
                lemma_segments_weight(segments, i);
            }
        },
        NodeView::Tree { kind, children, .. } => {
            let inner = kind == crate::syntax::NodeKind::AngleBracketed;
            if forall|i: int|
                0 <= i < children.len() ==> (#[trigger] occurrences(children[i], p, inner)).len() == 0 {
                lemma_list_all_absent(children, p, inner);
            }
            let i = choose|i: int|
                0 <= i < children.len() && (#[trigger] occurrences(children[i], p, inner)).len() > 0;
            lemma_occurrence_weight(children[i], p, inner);
            lemma_list_weight(children, i);
        },
    }
}

/// Where a parameter occurs depends on its kind and its name alone.
pub proof fn lemma_occurrences_by_name(
    n: NodeView,
    p: GenericParamView,
    q: GenericParamView,
    in_args: bool,
)
    requires
        p.kind() == q.kind(),
        p.name() == q.name(),
    ensures
        occurrences(n, p, in_args) == occurrences(n, q, in_args),
    decreases n, 0nat,
{
    match n {
        NodeView::Lifetime { .. } => {},
        NodeView::Path { qself, segments, .. } => {
            if site(n, p, in_args) is None {
                match qself {
                    Some(s) => {
                        lemma_occurrences_by_name(*s.ty, p, q, false);
                    },
                    None => {},
                }
            }
            lemma_segments_by_name(segments, p, q);
        },
        NodeView::Tree { kind, children, .. } => {
            lemma_list_by_name(children, p, q, kind == crate::syntax::NodeKind::AngleBracketed);
        },
    }
}

/// Where a parameter occurs in a list depends on its kind and its name alone.
pub proof fn lemma_list_by_name(
    nodes: Seq<NodeView>,
    p: GenericParamView,
    q: GenericParamView,
    in_args: bool,
)
    requires
        p.kind() == q.kind(),
        p.name() == q.name(),
    ensures
        list_occurrences(nodes, p, in_args) == list_occurrences(nodes, q, in_args),
    decreases nodes, 1nat,
{
    if nodes.len() > 0 {
        lemma_list_by_name(nodes.drop_last(), p, q, in_args);
        lemma_occurrences_by_name(nodes.last(), p, q, in_args);
    }
}

/// Where a parameter occurs in the segments of a path depends on its kind and
/// its name alone.
pub proof fn lemma_segments_by_name(
    segments: Seq<PathSegmentView>,
    p: GenericParamView,
    q: GenericParamView,
)
    requires
        p.kind() == q.kind(),
        p.name() == q.name(),
    ensures
        segments_occurrences(segments, p) == segments_occurrences(segments, q),
    decreases segments, 2nat,
{
    if segments.len() > 0 {
        lemma_segments_by_name(segments.drop_last(), p, q);
        match segments.last().arguments {
            Some(a) => {
                lemma_occurrences_by_name(*a, p, q, false);
            },
            None => {},
        }
        assert(segment_occurrences(segments.last(), p) == segment_occurrences(segments.last(), q));
    }
}

} // verus!
