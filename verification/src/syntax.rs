//! The syntax tree that substitution works on.
//!
//! Lifetimes and paths are modelled field by field, because the rewriting rules
//! read them. Every other construct is a [`Node::Tree`]: a kind, the text of its
//! own token where it has one, and its children in source order.

use vstd::prelude::*;

verus! {

/// A source location, as an opaque number handed out by the front end.
#[derive(Clone, Copy, Debug, PartialEq, Eq, Structural, Hash)]
pub struct Span {
    pub id: u64,
}

impl Span {
    /// The location of code that has no place in the input.
    pub fn call_site() -> (span: Span)
        ensures
            span == Span::spec_call_site(),
    {
        Span { id: 0 }
    }

    pub open spec fn spec_call_site() -> Span {
        Span { id: 0 }
    }
}

/// An identifier with its location.
#[derive(Debug, PartialEq, Eq, Hash)]
pub struct Ident {
    pub name: String,
    pub span: Span,
}

pub struct IdentView {
    pub name: Seq<char>,
    pub span: Span,
}

impl View for Ident {
    type V = IdentView;

    open spec fn view(&self) -> IdentView {
        IdentView { name: self.name@, span: self.span }
    }
}

impl Clone for Ident {
    fn clone(&self) -> (res: Ident)
        ensures
            res@ == self@,
    {
        Ident { name: self.name.clone(), span: self.span }
    }
}

impl Ident {
    pub fn new(name: &str, span: Span) -> (ident: Ident)
        ensures
            ident@ == (IdentView { name: name@, span }),
    {
        Ident { name: name.to_owned(), span }
    }

    /// The same name at another location.
    pub fn with_span(&self, span: Span) -> (ident: Ident)
        ensures
            ident@ == (IdentView { name: self@.name, span }),
    {
        Ident { name: self.name.clone(), span }
    }

    pub fn same_name(&self, other: &Ident) -> (same: bool)
        ensures
            same == (self@.name == other@.name),
    {
        self.name == other.name
    }
}

/// The expression forms other than a path.
#[derive(Clone, Copy, Debug, PartialEq, Eq, Structural, Hash)]
pub enum ExprKind {
    Array,
    Assign,
    Async,
    Await,
    Binary,
    Block,
    Break,
    Call,
    Cast,
    Closure,
    Const,
    Continue,
    Field,
    ForLoop,
    Group,
    If,
    Index,
    Infer,
    Let,
    Lit,
    Loop,
    Macro,
    Match,
    MethodCall,
    Paren,
    Range,
    RawAddr,
    Reference,
    Repeat,
    Return,
    Struct,
    Try,
    TryBlock,
    Tuple,
    Unary,
    Unsafe,
    Verbatim,
    While,
    Yield,
}

/// The type forms other than a path.
#[derive(Clone, Copy, Debug, PartialEq, Eq, Structural, Hash)]
pub enum TypeKind {
    Array,
    BareFn,
    Group,
    ImplTrait,
    Infer,
    Macro,
    Never,
    Paren,
    Ptr,
    Reference,
    Slice,
    TraitObject,
    Tuple,
    Verbatim,
}

/// The pattern forms other than a path.
#[derive(Clone, Copy, Debug, PartialEq, Eq, Structural, Hash)]
pub enum PatKind {
    Const,
    Ident,
    Lit,
    Macro,
    Or,
    Paren,
    Range,
    Reference,
    Rest,
    Slice,
    Struct,
    Tuple,
    TupleStruct,
    Type,
    Verbatim,
    Wild,
}

/// What a [`Node::Tree`] stands for.
#[derive(Clone, Copy, Debug, PartialEq, Eq, Structural, Hash)]
pub enum NodeKind {
    Expr(ExprKind),
    Type(TypeKind),
    Pat(PatKind),
    /// The arguments of a path segment or a turbofish, between angle brackets.
    AngleBracketed,
    /// The arguments of a path segment in the form `(A, B) -> C`.
    Parenthesized,
    ReturnType,
    AssocType,
    AssocConst,
    Constraint,
    TraitBound,
    BoundLifetimes,
    /// A lifetime parameter inside a tree; its own name is the node's text, its
    /// bounds are the children.
    LifetimeParam,
    TypeParam,
    ConstParam,
    WherePredicate,
    Block,
    Local,
    /// An expression statement without a semicolon.
    StmtExpr,
    /// An expression statement that ends in a semicolon.
    StmtSemi,
    StmtMacro,
    Item,
    Receiver,
    FnArg,
    Variadic,
    MatchArm,
    FieldValue,
    FieldPat,
    Label,
    Attribute,
    /// An identifier that names no path: a field, a method, a binding.
    Ident,
    /// Tokens that are carried through unread.
    Tokens,
}

/// Where a path stands, which decides how a parameter is looked for in it.
#[derive(Clone, Copy, Debug, PartialEq, Eq, Structural, Hash)]
pub enum PathPlace {
    /// A path that is a type.
    Type,
    /// A path that is an expression.
    Expr,
    /// A path in a pattern.
    Pat,
    /// Any other path: a trait in a bound, the name of a struct literal.
    Plain,
}

#[derive(Debug, PartialEq, Eq, Hash)]
pub enum Node {
    Lifetime { ident: Ident },
    Path { place: PathPlace, qself: Option<QSelf>, leading_colon: bool, segments: Vec<PathSegment> },
    Tree { kind: NodeKind, text: String, span: Span, children: Vec<Node> },
}

/// The explicit self type of a qualified path, `<T as Trait>::`.
#[derive(Debug, PartialEq, Eq, Hash)]
pub struct QSelf {
    pub ty: Box<Node>,
    pub position: usize,
    pub as_token: bool,
}

#[derive(Debug, PartialEq, Eq, Hash)]
pub struct PathSegment {
    pub ident: Ident,
    /// A tree of kind [`NodeKind::AngleBracketed`] or [`NodeKind::Parenthesized`].
    pub arguments: Option<Box<Node>>,
}

pub enum NodeView {
    Lifetime { ident: IdentView },
    Path { place: PathPlace, qself: Option<QSelfView>, leading_colon: bool, segments: Seq<PathSegmentView> },
    Tree { kind: NodeKind, text: Seq<char>, span: Span, children: Seq<NodeView> },
}

pub struct QSelfView {
    pub ty: Box<NodeView>,
    pub position: usize,
    pub as_token: bool,
}

pub struct PathSegmentView {
    pub ident: IdentView,
    pub arguments: Option<Box<NodeView>>,
}

pub open spec fn node_view(n: &Node) -> NodeView
    decreases n,
{
    match n {
        Node::Lifetime { ident } => NodeView::Lifetime { ident: ident@ },
        Node::Path { place, qself, leading_colon, segments } => NodeView::Path {
            place: *place,
            qself: match qself {
                Some(q) => Some(
                    QSelfView { ty: Box::new(node_view(&*q.ty)), position: q.position, as_token: q.as_token },
                ),
                None => None,
            },
            leading_colon: *leading_colon,
            segments: Seq::new(
                segments@.len(),
                |i: int|
                    if 0 <= i < segments@.len() {
                        PathSegmentView {
                            ident: segments@[i].ident@,
                            arguments: match segments@[i].arguments {
                                Some(a) => Some(Box::new(node_view(&*a))),
                                None => None,
                            },
                        }
                    } else {
                        arbitrary()
                    },
            ),
        },
        Node::Tree { kind, text, span, children } => NodeView::Tree {
            kind: *kind,
            text: text@,
            span: *span,
            children: Seq::new(
                children@.len(),
                |i: int|
                    if 0 <= i < children@.len() {
                        node_view(&children@[i])
                    } else {
                        arbitrary()
                    },
            ),
        },
    }
}

impl View for Node {
    type V = NodeView;

    open spec fn view(&self) -> NodeView {
        node_view(self)
    }
}

impl View for QSelf {
    type V = QSelfView;

    open spec fn view(&self) -> QSelfView {
        QSelfView { ty: Box::new(self.ty@), position: self.position, as_token: self.as_token }
    }
}

impl View for PathSegment {
    type V = PathSegmentView;

    open spec fn view(&self) -> PathSegmentView {
        PathSegmentView {
            ident: self.ident@,
            arguments: match self.arguments {
                Some(a) => Some(Box::new(a@)),
                None => None,
            },
        }
    }
}

/// The views of a list of nodes, in order.
pub open spec fn nodes_view(nodes: Seq<Node>) -> Seq<NodeView> {
    Seq::new(nodes.len(), |i: int| nodes[i]@)
}

/// The views of a list of path segments, in order.
pub open spec fn segments_view(segments: Seq<PathSegment>) -> Seq<PathSegmentView> {
    Seq::new(segments.len(), |i: int| segments[i]@)
}

/// What the view of a path is, over the views of its parts.
pub proof fn lemma_view_path(n: &Node)
    requires
        n is Path,
    ensures
        n@ is Path,
        n@->place == n->place,
        n@->leading_colon == n->leading_colon,
        n@->segments == segments_view(n->segments@),
        n@->qself == match n->qself {
            Some(q) => Some(q@),
            None => None,
        },
{
    assert(n@->segments =~= segments_view(n->segments@));
}

/// What the view of a tree is, over the views of its children.
pub proof fn lemma_view_tree(n: &Node)
    requires
        n is Tree,
    ensures
        n@ is Tree,
        n@->kind == n->kind,
        n@->text == n->text@,
        n@->span == n->span,
        n@->children == nodes_view(n->children@),
{
    assert(n@->children =~= nodes_view(n->children@));
}

/// The view of an optional boxed node.
pub open spec fn boxed_view(node: Option<Box<Node>>) -> Option<Box<NodeView>> {
    match node {
        Some(n) => Some(Box::new(n@)),
        None => None,
    }
}

/// A deep copy of a node.
pub fn clone_node(n: &Node) -> (res: Node)
    ensures
        res@ == n@,
    decreases n, 0nat,
{
    match n {
        Node::Lifetime { ident } => Node::Lifetime { ident: ident.clone() },
        Node::Path { place, qself, leading_colon, segments } => {
            let new_qself = match qself {
                Some(q) => Some(
                    QSelf { ty: Box::new(clone_node(&*q.ty)), position: q.position, as_token: q.as_token },
                ),
                None => None,
            };
            let mut new_segments: Vec<PathSegment> = Vec::new();
            let mut i: usize = 0;
            while i < segments.len()
                invariant
                    i <= segments@.len(),
                    new_segments@.len() == i,
                    n is Path,
                    n->segments == segments,
                    forall|j: int| 0 <= j < i ==> (#[trigger] new_segments@[j])@ == segments@[j]@,
                decreases segments@.len() - i,
            {
                let segment = &segments[i];
                let arguments = match &segment.arguments {
                    Some(a) => Some(Box::new(clone_node(&**a))),
                    None => None,
                };
                new_segments.push(PathSegment { ident: segment.ident.clone(), arguments });
                i += 1;
            }
            let res = Node::Path {
                place: *place,
                qself: new_qself,
                leading_colon: *leading_colon,
                segments: new_segments,
            };
            proof {
                lemma_view_path(n);
                lemma_view_path(&res);
                assert(res@->segments =~= n@->segments);
            }
            res
        },
        Node::Tree { kind, text, span, children } => {
            let new_children = clone_nodes(children);
            let res = Node::Tree { kind: *kind, text: text.clone(), span: *span, children: new_children };
            proof {
                lemma_view_tree(n);
                lemma_view_tree(&res);
            }
            res
        },
    }
}

/// A deep copy of a list of nodes.
pub fn clone_nodes(nodes: &Vec<Node>) -> (res: Vec<Node>)
    ensures
        nodes_view(res@) == nodes_view(nodes@),
    decreases nodes, 1nat,
{
    let mut res: Vec<Node> = Vec::new();
    let mut i: usize = 0;
    while i < nodes.len()
        invariant
            i <= nodes@.len(),
            res@.len() == i,
            forall|j: int| 0 <= j < i ==> (#[trigger] res@[j])@ == nodes@[j]@,
        decreases nodes@.len() - i,
    {
        res.push(clone_node(&nodes[i]));
        i += 1;
    }
    assert(nodes_view(res@) =~= nodes_view(nodes@));
    res
}

impl Clone for Node {
    fn clone(&self) -> (res: Node)
        ensures
            res@ == self@,
    {
        clone_node(self)
    }
}

impl Clone for QSelf {
    fn clone(&self) -> (res: QSelf)
        ensures
            res@ == self@,
    {
        QSelf { ty: Box::new(clone_node(&*self.ty)), position: self.position, as_token: self.as_token }
    }
}

impl Clone for PathSegment {
    fn clone(&self) -> (res: PathSegment)
        ensures
            res@ == self@,
    {
        let arguments = match &self.arguments {
            Some(a) => Some(Box::new(clone_node(&**a))),
            None => None,
        };
        PathSegment { ident: self.ident.clone(), arguments }
    }
}

} // verus!
