//! Capture-avoiding substitution of one generic parameter in a syntax tree.

use vstd::prelude::*;
use crate::generics::{
    generic_param_arg, param_arg, self_type_name, GenericParam, GenericParamView, ParamKind,
};
use crate::occurrence::{
    collect_occurrences, find_site, occurrences, site, site_occurrence, Occurrence, Site,
};
use crate::syntax::{
    clone_node, lemma_view_path, lemma_view_tree, nodes_view, segments_view, ExprKind, Ident,
    IdentView, Node, NodeKind, NodeView, PatKind, PathPlace, PathSegmentView, QSelf, QSelfView,
    Span,
};

verus! {

/// What is put in the place of a parameter.
#[derive(Clone, Copy, Debug)]
pub enum ParamSubstArg<'a> {
    /// Nothing: the tree is only searched.
    TestOnly,
    /// Another parameter, whose name takes the place of the old one.
    Param(&'a GenericParam),
    /// A tree: a lifetime, a type or an expression.
    Arg(&'a Node),
}

pub enum ArgView {
    TestOnly,
    Param(GenericParamView),
    Arg(NodeView),
}

impl<'a> View for ParamSubstArg<'a> {
    type V = ArgView;

    open spec fn view(&self) -> ArgView {
        match self {
            ParamSubstArg::TestOnly => ArgView::TestOnly,
            ParamSubstArg::Param(q) => ArgView::Param(q@),
            ParamSubstArg::Arg(m) => ArgView::Arg(m@),
        }
    }
}

/// The kind of parameter that a tree can be an argument for.
pub open spec fn node_param_kind(n: NodeView) -> Option<ParamKind> {
    match n {
        NodeView::Lifetime { .. } => Some(ParamKind::Lifetime),
        NodeView::Path { place, .. } => match place {
            PathPlace::Type => Some(ParamKind::Type),
            PathPlace::Expr => Some(ParamKind::Const),
            _ => None,
        },
        NodeView::Tree { kind, .. } => match kind {
            NodeKind::Type(_) => Some(ParamKind::Type),
            NodeKind::Expr(_) => Some(ParamKind::Const),
            _ => None,
        },
    }
}

/// The kind of parameter that an argument can stand for.
pub open spec fn arg_kind(a: ArgView) -> Option<ParamKind> {
    match a {
        ArgView::TestOnly => None,
        ArgView::Param(q) => Some(q.kind()),
        ArgView::Arg(m) => node_param_kind(m),
    }
}

/// Where a tree starts.
pub open spec fn node_span(n: NodeView) -> Span {
    match n {
        NodeView::Lifetime { ident } => ident.span,
        NodeView::Path { segments, .. } => if segments.len() > 0 {
            segments[0].ident.span
        } else {
            Span::spec_call_site()
        },
        NodeView::Tree { span, .. } => span,
    }
}

/// Where an argument starts.
pub open spec fn arg_span(a: ArgView) -> Span {
    match a {
        ArgView::TestOnly => Span::spec_call_site(),
        ArgView::Param(q) => q.ident().span,
        ArgView::Arg(m) => node_span(m),
    }
}

/// What stands in for an occurrence of `p` at `span`: the argument itself, or
/// the name of the argument parameter at that location. None where the
/// argument is of another kind than `p`.
pub open spec fn replacement(p: GenericParamView, a: ArgView, span: Span) -> Option<NodeView> {
    if arg_kind(a) != Some(p.kind()) {
        None
    } else {
        match a {
            ArgView::TestOnly => None,
            ArgView::Param(q) => Some(param_arg(q, Some(span))),
            ArgView::Arg(m) => Some(m),
        }
    }
}

/// The path `n` with the parameter at its head replaced.
///
/// Another parameter gives the head its name. A type becomes the self type of
/// a qualified path over the remaining segments; where none remain, and where
/// the argument is no type, the path stays as it is.
pub open spec fn replace_head(n: NodeView, a: ArgView) -> NodeView
    recommends
        n is Path,
        n->segments.len() >= 1,
{
    let head = n->segments[0];
    match a {
        ArgView::Param(q) => if q.kind() == ParamKind::Type {
            NodeView::Path {
                place: n->place,
                qself: n->qself,
                leading_colon: n->leading_colon,
                segments: n->segments.update(
                    0,
                    PathSegmentView {
                        ident: IdentView {
                            name: q.name(),
                            span: if q.name() == self_type_name() {
                                q.ident().span
                            } else {
                                head.ident.span
                            },
                        },
                        arguments: head.arguments,
                    },
                ),
            }
        } else {
            n
        },
        ArgView::Arg(m) => if node_param_kind(m) == Some(ParamKind::Type) && n->segments.len() > 1 {
            NodeView::Path {
                place: n->place,
                qself: Some(QSelfView { ty: Box::new(m), position: 0, as_token: false }),
                leading_colon: true,
                segments: n->segments.subrange(1, n->segments.len() as int),
            }
        } else {
            n
        },
        ArgView::TestOnly => n,
    }
}

/// The node `n`, which as a whole is an occurrence of `p`, with the argument
/// in its place.
pub open spec fn replace_site(n: NodeView, s: Site, p: GenericParamView, a: ArgView) -> NodeView {
    match replacement(p, a, site_occurrence(n, s).span) {
        Some(r) => r,
        None => n,
    }
}

/// A tree without text.
pub open spec fn tree(kind: NodeKind, span: Span, children: Seq<NodeView>) -> NodeView {
    NodeView::Tree { kind, text: Seq::empty(), span, children }
}

/// The block `{ let name: ty = value; body }`, which binds the argument once
/// under the name of the const parameter before `body` is evaluated.
pub open spec fn bind_before(name: IdentView, ty: NodeView, value: NodeView, body: NodeView) -> NodeView {
    let here = Span::spec_call_site();
    let binding = NodeView::Tree {
        kind: NodeKind::Pat(PatKind::Ident),
        text: name.name,
        span: name.span,
        children: Seq::empty(),
    };
    let typed = tree(NodeKind::Pat(PatKind::Type), here, seq![binding, ty]);
    let local = tree(NodeKind::Local, here, seq![typed, value]);
    let last = tree(NodeKind::StmtExpr, here, seq![body]);
    let block = tree(NodeKind::Block, here, seq![local, last]);
    tree(NodeKind::Expr(ExprKind::Block), here, seq![block])
}

/// The expression `n` with the const parameter `p` bound to the argument in
/// front of it, where the argument is an expression; else `n`.
pub open spec fn bind_param(n: NodeView, p: GenericParamView, a: ArgView) -> NodeView {
    match p {
        GenericParamView::Const { ident, ty, .. } => match replacement(p, a, node_span(n)) {
            Some(value) => bind_before(ident, ty, value, n),
            None => n,
        },
        _ => n,
    }
}

/// The tree `n` with `a` in the place of every occurrence of `p` in its
/// parts: the self type and the arguments of a path, the children of a tree.
pub open spec fn inside_rewritten(n: NodeView, p: GenericParamView, a: ArgView) -> NodeView
    decreases n, 0nat,
{
    match n {
        NodeView::Lifetime { .. } => n,
        NodeView::Path { place, qself, leading_colon, segments } => NodeView::Path {
            place,
            qself: match qself {
                Some(q) => Some(
                    QSelfView {
                        ty: Box::new(substituted(*q.ty, p, a, false)),
                        position: q.position,
                        as_token: q.as_token,
                    },
                ),
                None => None,
            },
            leading_colon,
            segments: Seq::new(
                segments.len(),
                |i: int|
                    if 0 <= i < segments.len() {
                        PathSegmentView {
                            ident: segments[i].ident,
                            arguments: match segments[i].arguments {
                                Some(args) => Some(Box::new(substituted(*args, p, a, false))),
                                None => None,
                            },
                        }
                    } else {
                        arbitrary()
                    },
            ),
        },
        NodeView::Tree { kind, text, span, children } => NodeView::Tree {
            kind,
            text,
            span,
            children: Seq::new(
                children.len(),
                |i: int|
                    if 0 <= i < children.len() {
                        substituted(children[i], p, a, kind == NodeKind::AngleBracketed)
                    } else {
                        arbitrary()
                    },
            ),
        },
    }
}

/// The tree `n` with `a` in the place of every occurrence of `p`.
///
/// A path that starts with a type parameter has its head replaced and the
/// arguments of its segments rewritten. An expression that is no path and
/// holds an occurrence of a const parameter is not rewritten inside: the
/// argument is bound once in front of it.
pub open spec fn substituted(n: NodeView, p: GenericParamView, a: ArgView, in_args: bool) -> NodeView
    decreases n, 1nat,
{
    match site(n, p, in_args) {
        Some(s) => if s is Head {
            replace_head(inside_rewritten(n, p, a), a)
        } else {
            replace_site(n, s, p, a)
        },
        None => if n is Tree && n->kind is Expr && p.kind() == ParamKind::Const {
            if occurrences(n, p, false).len() > 0 {
                bind_param(n, p, a)
            } else {
                n
            }
        } else {
            inside_rewritten(n, p, a)
        },
    }
}

/// A list of trees with `a` in the place of every occurrence of `p`.
pub open spec fn list_substituted(
    nodes: Seq<NodeView>,
    p: GenericParamView,
    a: ArgView,
    in_args: bool,
) -> Seq<NodeView> {
    Seq::new(nodes.len(), |i: int| substituted(nodes[i], p, a, in_args))
}

/// An optional tree with `a` in the place of every occurrence of `p`.
pub open spec fn option_substituted(node: Option<NodeView>, p: GenericParamView, a: ArgView) -> Option<
    NodeView,
> {
    match node {
        Some(n) => Some(substituted(n, p, a, false)),
        None => None,
    }
}

/// The kind of parameter that a tree can be an argument for.
pub fn param_kind_of(n: &Node) -> (kind: Option<ParamKind>)
    ensures
        kind == node_param_kind(n@),
{
    match n {
        Node::Lifetime { .. } => Some(ParamKind::Lifetime),
        Node::Path { place, .. } => {
            proof {
                lemma_view_path(n);
            }
            match place {
                PathPlace::Type => Some(ParamKind::Type),
                PathPlace::Expr => Some(ParamKind::Const),
                _ => None,
            }
        },
        Node::Tree { kind, .. } => {
            proof {
                lemma_view_tree(n);
            }
            match kind {
                NodeKind::Type(_) => Some(ParamKind::Type),
                NodeKind::Expr(_) => Some(ParamKind::Const),
                _ => None,
            }
        },
    }
}

/// Where a tree starts.
pub fn span_of(n: &Node) -> (span: Span)
    ensures
        span == node_span(n@),
{
    match n {
        Node::Lifetime { ident } => ident.span,
        Node::Path { segments, .. } => {
            proof {
                lemma_view_path(n);
            }
            if segments.len() > 0 {
                segments[0].ident.span
            } else {
                Span::call_site()
            }
        },
        Node::Tree { span, .. } => {
            proof {
                lemma_view_tree(n);
            }
            *span
        },
    }
}

impl<'a> ParamSubstArg<'a> {
    /// The kind of parameter that the argument can stand for.
    pub fn kind(&self) -> (kind: Option<ParamKind>)
        ensures
            kind == arg_kind(self@),
    {
        match self {
            ParamSubstArg::TestOnly => None,
            ParamSubstArg::Param(q) => Some(q.kind()),
            ParamSubstArg::Arg(m) => param_kind_of(m),
        }
    }

    /// Where the argument starts.
    pub fn span(&self) -> (span: Span)
        ensures
            span == arg_span(self@),
    {
        match self {
            ParamSubstArg::TestOnly => Span::call_site(),
            ParamSubstArg::Param(q) => q.ident().span,
            ParamSubstArg::Arg(m) => span_of(m),
        }
    }

    /// Whether the argument can stand for a parameter of the given kind.
    pub fn fits(&self, kind: ParamKind) -> (res: bool)
        ensures
            res == (arg_kind(self@) == Some(kind)),
    {
        match self.kind() {
            Some(k) => k == kind,
            None => false,
        }
    }
}

/// The view of an optional tree.
pub open spec fn replacement_view(node: Option<Node>) -> Option<NodeView> {
    match node {
        Some(n) => Some(n@),
        None => None,
    }
}

/// What stands in for an occurrence of `p` at `span`.
pub fn make_replacement(p: &GenericParam, a: ParamSubstArg, span: Span) -> (res: Option<Node>)
    ensures
        replacement_view(res) == replacement(p@, a@, span),
{
    if !a.fits(p.kind()) {
        None
    } else {
        match a {
            ParamSubstArg::TestOnly => None,
            ParamSubstArg::Param(q) => Some(generic_param_arg(q, Some(span))),
            ParamSubstArg::Arg(m) => Some(clone_node(m)),
        }
    }
}

/// A tree without text.
pub fn make_tree(kind: NodeKind, span: Span, children: Vec<Node>) -> (node: Node)
    ensures
        node@ == tree(kind, span, nodes_view(children@)),
{
    let node = Node::Tree { kind, text: String::new(), span, children };
    proof {
        lemma_view_tree(&node);
    }
    node
}

/// The block `{ let name: ty = value; body }`.
pub fn make_binding(name: &Ident, ty: Node, value: Node, body: Node) -> (node: Node)
    ensures
        node@ == bind_before(name@, ty@, value@, body@),
{
    let here = Span::call_site();
    let binding = Node::Tree {
        kind: NodeKind::Pat(PatKind::Ident),
        text: name.name.clone(),
        span: name.span,
        children: Vec::new(),
    };
    proof {
        lemma_view_tree(&binding);
        assert(binding@->children =~= Seq::empty());
    }
    let mut typed_parts: Vec<Node> = Vec::new();
    typed_parts.push(binding);
    typed_parts.push(ty);
    assert(nodes_view(typed_parts@) =~= seq![binding@, ty@]);
    let typed = make_tree(NodeKind::Pat(PatKind::Type), here, typed_parts);
    let mut local_parts: Vec<Node> = Vec::new();
    local_parts.push(typed);
    local_parts.push(value);
    assert(nodes_view(local_parts@) =~= seq![typed@, value@]);
    let local = make_tree(NodeKind::Local, here, local_parts);
    let mut last_parts: Vec<Node> = Vec::new();
    last_parts.push(body);
    assert(nodes_view(last_parts@) =~= seq![body@]);
    let last = make_tree(NodeKind::StmtExpr, here, last_parts);
    let mut stmts: Vec<Node> = Vec::new();
    stmts.push(local);
    stmts.push(last);
    assert(nodes_view(stmts@) =~= seq![local@, last@]);
    let block = make_tree(NodeKind::Block, here, stmts);
    let mut outer: Vec<Node> = Vec::new();
    outer.push(block);
    assert(nodes_view(outer@) =~= seq![block@]);
    make_tree(NodeKind::Expr(ExprKind::Block), here, outer)
}

/// A tree that holds nothing, to stand in a place whose content is moved out.
fn hole() -> (node: Node)
    ensures
        node@ == tree(NodeKind::Tokens, Span::spec_call_site(), Seq::empty()),
{
    let node = Node::Tree {
        kind: NodeKind::Tokens,
        text: String::new(),
        span: Span::call_site(),
        children: Vec::new(),
    };
    proof {
        lemma_view_tree(&node);
        assert(node@->children =~= Seq::empty());
    }
    node
}

/// Binds the argument in front of the expression `n`, where `p` is a const
/// parameter and the argument an expression.
pub fn bind_in_place(n: &mut Node, p: &GenericParam, a: ParamSubstArg)
    ensures
        final(n)@ == bind_param(old(n)@, p@, a@),
{
    match p {
        GenericParam::Const { ident, ty, .. } => {
            match make_replacement(p, a, span_of(n)) {
                Some(value) => {
                    let mut body = hole();
                    core::mem::swap(n, &mut body);
                    *n = make_binding(ident, clone_node(ty), value, body);
                },
                None => {},
            }
        },
        _ => {},
    }
}

/// Replaces the parameter at the head of the path `n`.
fn replace_head_in_place(n: &mut Node, a: ParamSubstArg)
    requires
        *old(n) is Path,
        old(n)->segments@.len() >= 1,
    ensures
        final(n)@ == replace_head(old(n)@, a@),
{
    proof {
        lemma_view_path(n);
    }
    match n {
        Node::Path { place, qself, leading_colon, segments } => {
            let ghost old_segments = segments@;
            match a {
                ParamSubstArg::Param(q) => {
                    if q.kind() == ParamKind::Type {
                        let new_ident = q.ident();
                        let self_name = "Self".to_owned();
                        let keep: bool = new_ident.name == self_name;
                        let span = if keep {
                            new_ident.span
                        } else {
                            segments[0].ident.span
                        };
                        segments[0].ident = new_ident.with_span(span);
                        proof {
                            assert(segments_view(segments@) =~= segments_view(old_segments).update(
                                0,
                                segments@[0]@,
                            ));
                        }
                    }
                },
                ParamSubstArg::Arg(m) => {
                    if param_kind_of(m) == Some(ParamKind::Type) && segments.len() > 1 {
                        *qself = Some(QSelf { ty: Box::new(clone_node(m)), position: 0, as_token: false });
                        *leading_colon = true;
                        segments.remove(0);
                        proof {
                            assert(segments_view(segments@) =~= segments_view(old_segments).subrange(
                                1,
                                old_segments.len() as int,
                            ));
                        }
                    }
                },
                ParamSubstArg::TestOnly => {},
            }
        },
        _ => {},
    }
    proof {
        lemma_view_path(n);
    }
}

/// Puts `a` in the place of every occurrence of `p` in `n`.
pub fn substitute_node(n: &mut Node, p: &GenericParam, a: ParamSubstArg, in_args: bool)
    ensures
        final(n)@ == substituted(old(n)@, p@, a@, in_args),
    decreases *old(n), 1nat,
{
    match find_site(n, p, in_args) {
        Some(s) => {
            proof {
                if *n is Path {
                    lemma_view_path(n);
                }
            }
            match s {
                Site::Head => {
                    substitute_parts(n, p, a);
                    replace_head_in_place(n, a);
                },
                _ => {
                    let here = match n {
                        Node::Lifetime { ident } => ident.span,
                        Node::Path { segments, .. } => segments[0].ident.span,
                        Node::Tree { span, .. } => *span,
                    };
                    match make_replacement(p, a, here) {
                        Some(r) => {
                            *n = r;
                        },
                        None => {},
                    }
                },
            }
        },
        None => {
            let is_expr = match n {
                Node::Tree { kind, .. } => match kind {
                    NodeKind::Expr(_) => true,
                    _ => false,
                },
                _ => false,
            };
            proof {
                if *n is Tree {
                    lemma_view_tree(n);
                }
            }
            if is_expr && p.kind() == ParamKind::Const {
                let mut found: Vec<Occurrence> = Vec::new();
                collect_occurrences(n, p, false, &mut found);
                if found.len() > 0 {
                    bind_in_place(n, p, a);
                }
            } else {
                substitute_parts(n, p, a);
            }
        },
    }
}

/// Puts `a` in the place of every occurrence of `p` in the parts of `n`.
fn substitute_parts(n: &mut Node, p: &GenericParam, a: ParamSubstArg)
    ensures
        final(n)@ == inside_rewritten(old(n)@, p@, a@),
        *old(n) is Path ==> *final(n) is Path && final(n)->segments@.len() == old(n)->segments@.len(),
    decreases *old(n), 0nat,
{
    proof {
        if *n is Path {
            lemma_view_path(n);
        }
        if *n is Tree {
            lemma_view_tree(n);
        }
    }
    let ghost before = n@;
    match n {
        Node::Lifetime { .. } => {},
        Node::Path { qself, segments, .. } => {
            let ghost old_segments = segments@;
            match qself {
                Some(q) => {
                    substitute_node(&mut *q.ty, p, a, false);
                },
                None => {},
            }
            let mut i: usize = 0;
            while i < segments.len()
                invariant
                    i <= segments@.len(),
                    segments@.len() == old_segments.len(),
                    *old(n) is Path,
                    old(n)->segments@ == old_segments,
                    forall|j: int|
                        0 <= j < i ==> (#[trigger] segments@[j])@ == (PathSegmentView {
                            ident: old_segments[j]@.ident,
                            arguments: match old_segments[j]@.arguments {
                                Some(args) => Some(Box::new(substituted(*args, p@, a@, false))),
                                None => None,
                            },
                        }),
                    forall|j: int| i <= j < old_segments.len() ==> segments@[j] == old_segments[j],
                decreases segments@.len() - i,
            {
                match &mut segments[i].arguments {
                    Some(args) => {
                        substitute_node(&mut **args, p, a, false);
                    },
                    None => {},
                }
                i += 1;
            }
        },
        Node::Tree { kind, children, .. } => {
            let ghost old_children = children@;
            let in_args = *kind == NodeKind::AngleBracketed;
            let mut i: usize = 0;
            while i < children.len()
                invariant
                    i <= children@.len(),
                    children@.len() == old_children.len(),
                    *old(n) is Tree,
                    old(n)->children@ == old_children,
                    forall|j: int|
                        0 <= j < i ==> (#[trigger] children@[j])@ == substituted(
                            old_children[j]@,
                            p@,
                            a@,
                            in_args,
                        ),
                    forall|j: int| i <= j < old_children.len() ==> children@[j] == old_children[j],
                decreases children@.len() - i,
            {
                substitute_node(&mut children[i], p, a, in_args);
                i += 1;
            }
        },
    }
    proof {
        if *n is Path {
            lemma_view_path(n);
            assert(n@->segments =~= inside_rewritten(before, p@, a@)->segments);
        }
        if *n is Tree {
            lemma_view_tree(n);
            assert(n@->children =~= inside_rewritten(before, p@, a@)->children);
        }
    }
}

} // verus!
