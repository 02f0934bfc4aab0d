//! Where a generic parameter occurs in a syntax tree.
//!
//! A lifetime parameter occurs at every lifetime of its name. A const parameter
//! occurs at every expression that is its bare name, and at a generic argument
//! that is its bare name. A type parameter occurs at a type that is its bare
//! name and at the head of a path that starts with it; behind such a head the
//! arguments of the segments are searched like those of any path.

use vstd::prelude::*;
use crate::generics::{GenericParam, GenericParamView, ParamKind};
use crate::syntax::{
    lemma_view_path, lemma_view_tree, nodes_view, segments_view, Node, NodeKind, NodeView,
    PathPlace, PathSegment, PathSegmentView, QSelfView, Span,
};

verus! {

/// One place where a parameter occurs.
#[derive(Clone, Copy, Debug, PartialEq, Eq, Structural, Hash)]
pub struct Occurrence {
    pub span: Span,
    /// Whether the place is a path of the parameter's name alone in a position
    /// where a path must stay a path, so that no type can stand there.
    pub bare: bool,
}

/// Whether `n` is the path that consists of `name` and nothing else.
pub open spec fn is_plain_ident(n: NodeView, name: Seq<char>) -> bool {
    &&& n is Path
    &&& n->qself is None
    &&& !n->leading_colon
    &&& n->segments.len() == 1
    &&& n->segments[0].arguments is None
    &&& n->segments[0].ident.name == name
}

/// Whether the arguments of a path segment are missing or an empty pair of
/// angle brackets.
pub open spec fn arguments_empty(arguments: Option<Box<NodeView>>) -> bool {
    match arguments {
        None => true,
        Some(a) => *a is Tree && a->kind == NodeKind::AngleBracketed && a->children.len() == 0,
    }
}

/// Whether `n` is an unqualified path whose first segment is `name` without
/// arguments.
pub open spec fn head_is(n: NodeView, name: Seq<char>) -> bool {
    &&& n is Path
    &&& n->qself is None
    &&& !n->leading_colon
    &&& n->segments.len() >= 1
    &&& arguments_empty(n->segments[0].arguments)
    &&& n->segments[0].ident.name == name
}

/// How a node is itself an occurrence of a parameter.
#[derive(Clone, Copy, Debug, PartialEq, Eq, Structural, Hash)]
pub enum Site {
    /// The node is a lifetime of the parameter's name.
    Lifetime,
    /// The node is the const parameter's bare name.
    ConstIdent,
    /// The node is the type parameter's bare name, as a type.
    TypeIdent,
    /// The node is a path that starts with the type parameter.
    Head,
}

/// Whether and how `n` itself is an occurrence of `p`. `in_args` says that `n`
/// stands directly between the angle brackets of generic arguments, where the
/// bare name of a const parameter reads as a type.
pub open spec fn site(n: NodeView, p: GenericParamView, in_args: bool) -> Option<Site> {
    match n {
        NodeView::Lifetime { ident } => if p.kind() == ParamKind::Lifetime && ident.name == p.name() {
            Some(Site::Lifetime)
        } else {
            None
        },
        NodeView::Path { place, .. } => if p.kind() == ParamKind::Const {
            if is_plain_ident(n, p.name()) && (place == PathPlace::Expr || (place == PathPlace::Type
                && in_args)) {
                Some(Site::ConstIdent)
            } else {
                None
            }
        } else if p.kind() == ParamKind::Type {
            if place == PathPlace::Type && is_plain_ident(n, p.name()) {
                Some(Site::TypeIdent)
            } else if place != PathPlace::Plain && head_is(n, p.name()) {
                Some(Site::Head)
            } else {
                None
            }
        } else {
            None
        },
        NodeView::Tree { .. } => None,
    }
}

/// The occurrence that a node which is a site stands for.
pub open spec fn site_occurrence(n: NodeView, s: Site) -> Occurrence {
    match n {
        NodeView::Lifetime { ident } => Occurrence { span: ident.span, bare: false },
        NodeView::Path { segments, .. } => Occurrence {
            span: segments[0].ident.span,
            bare: s is Head && segments.len() == 1,
        },
        NodeView::Tree { span, .. } => Occurrence { span, bare: false },
    }
}

/// The occurrences of `p` in `n`, in source order.
pub open spec fn occurrences(n: NodeView, p: GenericParamView, in_args: bool) -> Seq<Occurrence>
    decreases n, 0nat,
{
    match site(n, p, in_args) {
        Some(s) => if s is Head {
            seq![site_occurrence(n, s)] + segments_occurrences(n->segments, p)
        } else {
            seq![site_occurrence(n, s)]
        },
        None => match n {
            NodeView::Lifetime { .. } => Seq::empty(),
            NodeView::Path { qself, segments, .. } => qself_occurrences(qself, p)
                + segments_occurrences(segments, p),
            NodeView::Tree { kind, children, .. } => list_occurrences(
                children,
                p,
                kind == NodeKind::AngleBracketed,
            ),
        },
    }
}

/// The occurrences of `p` in the self type of a qualified path.
pub open spec fn qself_occurrences(qself: Option<QSelfView>, p: GenericParamView) -> Seq<Occurrence>
    decreases qself, 1nat,
{
    match qself {
        Some(q) => occurrences(*q.ty, p, false),
        None => Seq::empty(),
    }
}

/// The occurrences of `p` in a list of nodes, in order.
pub open spec fn list_occurrences(nodes: Seq<NodeView>, p: GenericParamView, in_args: bool) -> Seq<
    Occurrence,
>
    decreases nodes, 1nat,
{
    if nodes.len() == 0 {
        Seq::empty()
    } else {
        list_occurrences(nodes.drop_last(), p, in_args) + occurrences(nodes.last(), p, in_args)
    }
}

/// The occurrences of `p` in the arguments of one path segment.
pub open spec fn segment_occurrences(segment: PathSegmentView, p: GenericParamView) -> Seq<
    Occurrence,
>
    decreases segment, 1nat,
{
    match segment.arguments {
        Some(a) => occurrences(*a, p, false),
        None => Seq::empty(),
    }
}

/// The occurrences of `p` in the arguments of a path's segments, in order.
pub open spec fn segments_occurrences(segments: Seq<PathSegmentView>, p: GenericParamView) -> Seq<
    Occurrence,
>
    decreases segments, 2nat,
{
    if segments.len() == 0 {
        Seq::empty()
    } else {
        segments_occurrences(segments.drop_last(), p) + segment_occurrences(segments.last(), p)
    }
}

/// The occurrences of `p` in an optional node.
pub open spec fn option_occurrences(node: Option<NodeView>, p: GenericParamView) -> Seq<Occurrence> {
    match node {
        Some(n) => occurrences(n, p, false),
        None => Seq::empty(),
    }
}

/// The locations of a list of occurrences, in order.
pub open spec fn spans_of(occurrences: Seq<Occurrence>) -> Seq<Span> {
    Seq::new(occurrences.len(), |i: int| occurrences[i].span)
}

/// Whether one of the occurrences is a bare path.
pub open spec fn any_bare(occurrences: Seq<Occurrence>) -> bool {
    exists|i: int| 0 <= i < occurrences.len() && (#[trigger] occurrences[i]).bare
}

/// A list taken one element further has the occurrences of that element added.
pub proof fn lemma_list_occurrences_step(
    nodes: Seq<NodeView>,
    p: GenericParamView,
    in_args: bool,
    i: int,
)
    requires
        0 <= i < nodes.len(),
    ensures
        list_occurrences(nodes.take(i + 1), p, in_args) == list_occurrences(nodes.take(i), p, in_args)
            + occurrences(nodes[i], p, in_args),
{
    assert(nodes.take(i + 1).drop_last() =~= nodes.take(i));
    assert(nodes.take(i + 1).last() == nodes[i]);
}

/// A list of segments taken one further has the occurrences of that segment
/// added.
pub proof fn lemma_segments_occurrences_step(
    segments: Seq<PathSegmentView>,
    p: GenericParamView,
    i: int,
)
    requires
        0 <= i < segments.len(),
    ensures
        segments_occurrences(segments.take(i + 1), p) == segments_occurrences(segments.take(i), p)
            + segment_occurrences(segments[i], p),
{
    assert(segments.take(i + 1).drop_last() =~= segments.take(i));
    assert(segments.take(i + 1).last() == segments[i]);
}

/// Whether `n` is the path that consists of `name` and nothing else.
pub fn node_is_ident(n: &Node, name: &String) -> (res: bool)
    ensures
        res == is_plain_ident(n@, name@),
{
    match n {
        Node::Path { qself, leading_colon, segments, .. } => {
            proof {
                lemma_view_path(n);
            }
            qself.is_none() && !*leading_colon && segments.len() == 1
                && segments[0].arguments.is_none() && segments[0].ident.name == *name
        },
        _ => false,
    }
}

/// Whether the arguments of a path segment are missing or an empty pair of
/// angle brackets.
pub fn segment_arguments_empty(segment: &PathSegment) -> (res: bool)
    ensures
        res == arguments_empty(segment@.arguments),
{
    match &segment.arguments {
        None => true,
        Some(a) => match &**a {
            Node::Tree { kind, children, .. } => {
                proof {
                    lemma_view_tree(&**a);
                }
                *kind == NodeKind::AngleBracketed && children.len() == 0
            },
            _ => false,
        },
    }
}

/// Whether `n` is an unqualified path whose first segment is `name` without
/// arguments.
pub fn node_head_is(n: &Node, name: &String) -> (res: bool)
    ensures
        res == head_is(n@, name@),
{
    match n {
        Node::Path { qself, leading_colon, segments, .. } => {
            proof {
                lemma_view_path(n);
            }
            qself.is_none() && !*leading_colon && segments.len() >= 1 && segment_arguments_empty(
                &segments[0],
            ) && segments[0].ident.name == *name
        },
        _ => false,
    }
}

/// Whether and how `n` itself is an occurrence of `p`.
pub fn find_site(n: &Node, p: &GenericParam, in_args: bool) -> (res: Option<Site>)
    ensures
        res == site(n@, p@, in_args),
{
    let name = &p.ident().name;
    match n {
        Node::Lifetime { ident } => {
            if p.kind() == ParamKind::Lifetime && ident.name == *name {
                Some(Site::Lifetime)
            } else {
                None
            }
        },
        Node::Path { place, .. } => {
            proof {
                lemma_view_path(n);
            }
            match p.kind() {
                ParamKind::Const => {
                    if node_is_ident(n, name) && (*place == PathPlace::Expr || (*place == PathPlace::Type
                        && in_args)) {
                        Some(Site::ConstIdent)
                    } else {
                        None
                    }
                },
                ParamKind::Type => {
                    if *place == PathPlace::Type && node_is_ident(n, name) {
                        Some(Site::TypeIdent)
                    } else if *place != PathPlace::Plain && node_head_is(n, name) {
                        Some(Site::Head)
                    } else {
                        None
                    }
                },
                ParamKind::Lifetime => None,
            }
        },
        Node::Tree { .. } => {
            proof {
                lemma_view_tree(n);
            }
            None
        },
    }
}

/// The occurrence that a node which is a site stands for.
fn occurrence_at(n: &Node, s: Site) -> (res: Occurrence)
    requires
        n is Path ==> n->segments@.len() >= 1,
    ensures
        res == site_occurrence(n@, s),
{
    match n {
        Node::Lifetime { ident } => Occurrence { span: ident.span, bare: false },
        Node::Path { segments, .. } => {
            proof {
                lemma_view_path(n);
            }
            let head = match s {
                Site::Head => true,
                _ => false,
            };
            Occurrence { span: segments[0].ident.span, bare: head && segments.len() == 1 }
        },
        Node::Tree { span, .. } => {
            proof {
                lemma_view_tree(n);
            }
            Occurrence { span: *span, bare: false }
        },
    }
}

/// Appends the occurrences of `p` in `n` to `out`, in source order.
pub fn collect_occurrences(n: &Node, p: &GenericParam, in_args: bool, out: &mut Vec<Occurrence>)
    ensures
        final(out)@ == old(out)@ + occurrences(n@, p@, in_args),
    decreases n, 0nat,
{
    match find_site(n, p, in_args) {
        Some(s) => {
            proof {
                if n is Path {
                    lemma_view_path(n);
                }
                assert(n is Path ==> n->segments@.len() >= 1);
            }
            out.push(occurrence_at(n, s));
            match (s, n) {
                (Site::Head, Node::Path { segments, .. }) => {
                    collect_segments(segments, p, out);
                },
                _ => {},
            }
            assert(out@ =~= old(out)@ + occurrences(n@, p@, in_args));
        },
        None => match n {
            Node::Lifetime { .. } => {
                assert(out@ =~= old(out)@ + occurrences(n@, p@, in_args));
            },
            Node::Path { qself, segments, .. } => {
                proof {
                    lemma_view_path(n);
                }
                match qself {
                    Some(q) => {
                        collect_occurrences(&*q.ty, p, false, out);
                    },
                    None => {},
                }
                assert(out@ =~= old(out)@ + qself_occurrences(n@->qself, p@));
                collect_segments(segments, p, out);
                assert(out@ =~= old(out)@ + occurrences(n@, p@, in_args));
            },
            Node::Tree { kind, children, .. } => {
                proof {
                    lemma_view_tree(n);
                }
                collect_list(children, p, *kind == NodeKind::AngleBracketed, out);
            },
        },
    }
}

/// Appends the occurrences of `p` in the arguments of a path's segments to
/// `out`, in order.
pub fn collect_segments(segments: &Vec<PathSegment>, p: &GenericParam, out: &mut Vec<Occurrence>)
    ensures
        final(out)@ == old(out)@ + segments_occurrences(segments_view(segments@), p@),
    decreases segments, 1nat,
{
    let ghost views = segments_view(segments@);
    let mut i: usize = 0;
    assert(out@ =~= old(out)@ + segments_occurrences(views.take(0), p@));
    while i < segments.len()
        invariant
            i <= segments@.len(),
            views == segments_view(segments@),
            out@ == old(out)@ + segments_occurrences(views.take(i as int), p@),
        decreases segments@.len() - i,
    {
        let ghost before = out@;
        match &segments[i].arguments {
            Some(a) => {
                collect_occurrences(&**a, p, false, out);
            },
            None => {},
        }
        proof {
            lemma_segments_occurrences_step(views, p@, i as int);
            assert(out@ =~= before + segment_occurrences(views[i as int], p@));
            assert(out@ =~= old(out)@ + segments_occurrences(views.take(i + 1), p@));
        }
        i += 1;
    }
    assert(views.take(i as int) =~= views);
}

/// Appends the occurrences of `p` in a list of nodes to `out`, in order.
pub fn collect_list(nodes: &Vec<Node>, p: &GenericParam, in_args: bool, out: &mut Vec<Occurrence>)
    ensures
        final(out)@ == old(out)@ + list_occurrences(nodes_view(nodes@), p@, in_args),
    decreases nodes, 1nat,
{
    let ghost views = nodes_view(nodes@);
    let mut i: usize = 0;
    assert(out@ =~= old(out)@ + list_occurrences(views.take(0), p@, in_args));
    while i < nodes.len()
        invariant
            i <= nodes@.len(),
            views == nodes_view(nodes@),
            out@ == old(out)@ + list_occurrences(views.take(i as int), p@, in_args),
        decreases nodes@.len() - i,
    {
        collect_occurrences(&nodes[i], p, in_args, out);
        proof {
            lemma_list_occurrences_step(views, p@, in_args, i as int);
            assert(out@ =~= old(out)@ + list_occurrences(views.take(i + 1), p@, in_args));
        }
        i += 1;
    }
    assert(views.take(i as int) =~= views);
}

} // verus!
