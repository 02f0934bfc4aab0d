//! Equality of syntax by its tokens: two trees are the same where they read
//! the same, wherever in the input they stand.

use vstd::prelude::*;
use crate::generics::{GenericParam, GenericParamView};
use crate::item::{MetaGenericParam, MetaGenericParamView, MetaGenerics, MetaGenericsView};
use crate::syntax::{
    lemma_view_path, lemma_view_tree, nodes_view, segments_view, Node, NodeView, PathSegmentView,
    QSelfView,
};

verus! {

/// Whether two trees consist of the same tokens.
pub open spec fn same_node(a: NodeView, b: NodeView) -> bool
    decreases a, 0nat,
{
    match a {
        NodeView::Lifetime { ident } => b is Lifetime && b->ident.name == ident.name,
        NodeView::Path { place, qself, leading_colon, segments } => {
            &&& b is Path
            &&& b->place == place
            &&& b->leading_colon == leading_colon
            &&& same_qself(qself, b->qself)
            &&& segments.len() == b->segments.len()
            &&& forall|i: int|
                0 <= i < segments.len() ==> same_segment(segments[i], #[trigger] b->segments[i])
        },
        NodeView::Tree { kind, text, children, .. } => {
            &&& b is Tree
            &&& b->kind == kind
            &&& b->text == text
            &&& children.len() == b->children.len()
            &&& forall|i: int|
                0 <= i < children.len() ==> same_node(children[i], #[trigger] b->children[i])
        },
    }
}

/// Whether two self types consist of the same tokens.
pub open spec fn same_qself(a: Option<QSelfView>, b: Option<QSelfView>) -> bool
    decreases a, 1nat,
{
    match a {
        Some(q) => b is Some && b->0.position == q.position && b->0.as_token == q.as_token
            && same_node(*q.ty, *b->0.ty),
        None => b is None,
    }
}

/// Whether two path segments consist of the same tokens.
pub open spec fn same_segment(a: PathSegmentView, b: PathSegmentView) -> bool
    decreases a, 1nat,
{
    a.ident.name == b.ident.name && match a.arguments {
        Some(args) => b.arguments is Some && same_node(*args, *b.arguments->0),
        None => b.arguments is None,
    }
}

/// Whether two lists of trees consist of the same tokens.
pub open spec fn same_list(a: Seq<NodeView>, b: Seq<NodeView>) -> bool {
    a.len() == b.len() && forall|i: int| 0 <= i < a.len() ==> same_node(a[i], #[trigger] b[i])
}

/// Whether two optional trees consist of the same tokens.
pub open spec fn same_option(a: Option<NodeView>, b: Option<NodeView>) -> bool {
    match a {
        Some(n) => b is Some && same_node(n, b->0),
        None => b is None,
    }
}

/// Whether two generic parameters consist of the same tokens.
pub open spec fn same_param(a: GenericParamView, b: GenericParamView) -> bool {
    match a {
        GenericParamView::Lifetime { lifetime, bounds } => b is Lifetime && b->lifetime.name
            == lifetime.name && same_list(bounds, b->Lifetime_bounds),
        GenericParamView::Type { ident, bounds, default } => b is Type && b->Type_ident.name
            == ident.name && same_list(bounds, b->Type_bounds) && same_option(
            default,
            b->Type_default,
        ),
        GenericParamView::Const { ident, ty, default } => b is Const && b->Const_ident.name
            == ident.name && same_node(ty, b->ty) && same_option(default, b->Const_default),
    }
}

/// Whether two parameters of a declaration consist of the same tokens.
pub open spec fn same_meta_param(a: MetaGenericParamView, b: MetaGenericParamView) -> bool {
    match a {
        MetaGenericParamView::Generic(p) => b is Generic && same_param(p, b->Generic_0),
        MetaGenericParamView::TypeBound { ident, bounds } => b is TypeBound && b->ident.name
            == ident.name && same_list(bounds, b->bounds),
    }
}

/// Whether two parameter lists of declarations consist of the same tokens:
/// the same parameters in the same order with the same bounds, and the same
/// `where` clause.
pub open spec fn same_meta_generics(a: MetaGenericsView, b: MetaGenericsView) -> bool {
    &&& a.params.len() == b.params.len()
    &&& forall|i: int| 0 <= i < a.params.len() ==> same_meta_param(a.params[i], #[trigger] b.params[i])
    &&& match a.where_clause {
        Some(w) => b.where_clause is Some && same_list(w.predicates, b.where_clause->0.predicates),
        None => b.where_clause is None,
    }
}

/// Whether two trees consist of the same tokens.
pub fn nodes_same(a: &Node, b: &Node) -> (res: bool)
    ensures
        res == same_node(a@, b@),
    decreases a, 0nat,
{
    match (a, b) {
        (Node::Lifetime { ident: ia }, Node::Lifetime { ident: ib }) => ia.name == ib.name,
        (
            Node::Path { place: pa, qself: qa, leading_colon: la, segments: sa },
            Node::Path { place: pb, qself: qb, leading_colon: lb, segments: sb },
        ) => {
            proof {
                lemma_view_path(a);
                lemma_view_path(b);
            }
            if *pa != *pb || *la != *lb || sa.len() != sb.len() {
                return false;
            }
            let qself_same = match (qa, qb) {
                (Some(x), Some(y)) => x.position == y.position && x.as_token == y.as_token
                    && nodes_same(&*x.ty, &*y.ty),
                (None, None) => true,
                _ => false,
            };
            assert(qself_same == same_qself(a@->qself, b@->qself));
            if !qself_same {
                return false;
            }
            let mut i: usize = 0;
            while i < sa.len()
                invariant
                    i <= sa@.len(),
                    sa@.len() == sb@.len(),
                    a is Path,
                    a->segments == sa,
                    b is Path,
                    b->segments == sb,
                    a@ is Path,
                    b@ is Path,
                    a@->segments == segments_view(sa@),
                    b@->segments == segments_view(sb@),
                    forall|j: int| 0 <= j < i ==> same_segment(sa@[j]@, #[trigger] sb@[j]@),
                decreases sa@.len() - i,
            {
                let x = &sa[i];
                let y = &sb[i];
                let args_same = match (&x.arguments, &y.arguments) {
                    (Some(p), Some(q)) => nodes_same(&**p, &**q),
                    (None, None) => true,
                    _ => false,
                };
                assert(a@->segments[i as int] == x@);
                assert(b@->segments[i as int] == y@);
                if x.ident.name != y.ident.name || !args_same {
                    assert(!same_segment(a@->segments[i as int], b@->segments[i as int]));
                    return false;
                }
                i += 1;
            }
            assert forall|j: int| 0 <= j < a@->segments.len() implies same_segment(
                a@->segments[j],
                #[trigger] b@->segments[j],
            ) by {
                assert(same_segment(sa@[j]@, sb@[j]@));
            }
            true
        },
        (
            Node::Tree { kind: ka, text: ta, children: ca, .. },
            Node::Tree { kind: kb, text: tb, children: cb, .. },
        ) => {
            proof {
                lemma_view_tree(a);
                lemma_view_tree(b);
            }
            if *ka != *kb || *ta != *tb {
                return false;
            }
            lists_same(ca, cb)
        },
        _ => false,
    }
}

/// Whether two lists of trees consist of the same tokens.
pub fn lists_same(a: &Vec<Node>, b: &Vec<Node>) -> (res: bool)
    ensures
        res == same_list(nodes_view(a@), nodes_view(b@)),
    decreases a, 1nat,
{
    if a.len() != b.len() {
        return false;
    }
    let mut i: usize = 0;
    while i < a.len()
        invariant
            i <= a@.len(),
            a@.len() == b@.len(),
            forall|j: int| 0 <= j < i ==> same_node(a@[j]@, #[trigger] b@[j]@),
        decreases a@.len() - i,
    {
        if !nodes_same(&a[i], &b[i]) {
            assert(!same_node(nodes_view(a@)[i as int], nodes_view(b@)[i as int]));
            return false;
        }
        i += 1;
    }
    assert forall|j: int| 0 <= j < a@.len() implies same_node(
        nodes_view(a@)[j],
        #[trigger] nodes_view(b@)[j],
    ) by {
        assert(same_node(a@[j]@, b@[j]@));
    }
    true
}

/// Whether two optional trees consist of the same tokens.
pub fn options_same(a: &Option<Node>, b: &Option<Node>) -> (res: bool)
    ensures
        res == same_option(crate::generics::option_view(*a), crate::generics::option_view(*b)),
{
    match (a, b) {
        (Some(x), Some(y)) => nodes_same(x, y),
        (None, None) => true,
        _ => false,
    }
}

/// Whether two generic parameters consist of the same tokens.
pub fn params_same(a: &GenericParam, b: &GenericParam) -> (res: bool)
    ensures
        res == same_param(a@, b@),
{
    match (a, b) {
        (
            GenericParam::Lifetime { lifetime: la, bounds: ba },
            GenericParam::Lifetime { lifetime: lb, bounds: bb },
        ) => la.name == lb.name && lists_same(ba, bb),
        (
            GenericParam::Type { ident: ia, bounds: ba, default: da },
            GenericParam::Type { ident: ib, bounds: bb, default: db },
        ) => ia.name == ib.name && lists_same(ba, bb) && options_same(da, db),
        (
            GenericParam::Const { ident: ia, ty: ta, default: da },
            GenericParam::Const { ident: ib, ty: tb, default: db },
        ) => ia.name == ib.name && nodes_same(ta, tb) && options_same(da, db),
        _ => false,
    }
}

/// Whether two parameter lists of declarations consist of the same tokens.
pub fn check_token_equality(a: &MetaGenerics, b: &MetaGenerics) -> (res: bool)
    ensures
        res == same_meta_generics(a@, b@),
{
    if a.params.len() != b.params.len() {
        return false;
    }
    let mut i: usize = 0;
    while i < a.params.len()
        invariant
            i <= a.params@.len(),
            a.params@.len() == b.params@.len(),
            forall|j: int| 0 <= j < i ==> same_meta_param(a@.params[j], #[trigger] b@.params[j]),
        decreases a.params@.len() - i,
    {
        let same = match (&a.params[i], &b.params[i]) {
            (MetaGenericParam::Generic(p), MetaGenericParam::Generic(q)) => params_same(p, q),
            (
                MetaGenericParam::TypeBound { ident: ia, bounds: ba },
                MetaGenericParam::TypeBound { ident: ib, bounds: bb },
            ) => ia.name == ib.name && lists_same(ba, bb),
            _ => false,
        };
        if !same {
            assert(!same_meta_param(a@.params[i as int], b@.params[i as int]));
            return false;
        }
        i += 1;
    }
    match (&a.where_clause, &b.where_clause) {
        (Some(x), Some(y)) => lists_same(&x.predicates, &y.predicates),
        (None, None) => true,
        _ => false,
    }
}

} // verus!
