//! Generic parameters, parameter lists, and the chain of scopes round an
//! expression.

use vstd::prelude::*;
use crate::syntax::{
    clone_node, clone_nodes, lemma_view_path, nodes_view, Ident, IdentView, Node, NodeView,
    PathPlace, PathSegment, PathSegmentView, Span,
};

verus! {

/// The three kinds of generic parameter.
#[derive(Clone, Copy, Debug, PartialEq, Eq, Structural, Hash)]
pub enum ParamKind {
    Lifetime,
    Type,
    Const,
}

/// A generic parameter: a binder that a scope introduces.
#[derive(Debug, PartialEq, Eq, Hash)]
pub enum GenericParam {
    /// `'a: 'b + 'c`; the bounds are lifetimes.
    Lifetime { lifetime: Ident, bounds: Vec<Node> },
    /// `T: Bound = Default`.
    Type { ident: Ident, bounds: Vec<Node>, default: Option<Node> },
    /// `const N: Ty = default`.
    Const { ident: Ident, ty: Node, default: Option<Node> },
}

pub enum GenericParamView {
    Lifetime { lifetime: IdentView, bounds: Seq<NodeView> },
    Type { ident: IdentView, bounds: Seq<NodeView>, default: Option<NodeView> },
    Const { ident: IdentView, ty: NodeView, default: Option<NodeView> },
}

/// The view of an optional node.
pub open spec fn option_view(node: Option<Node>) -> Option<NodeView> {
    match node {
        Some(n) => Some(n@),
        None => None,
    }
}

impl View for GenericParam {
    type V = GenericParamView;

    open spec fn view(&self) -> GenericParamView {
        match self {
            GenericParam::Lifetime { lifetime, bounds } => GenericParamView::Lifetime {
                lifetime: lifetime@,
                bounds: nodes_view(bounds@),
            },
            GenericParam::Type { ident, bounds, default } => GenericParamView::Type {
                ident: ident@,
                bounds: nodes_view(bounds@),
                default: option_view(*default),
            },
            GenericParam::Const { ident, ty, default } => GenericParamView::Const {
                ident: ident@,
                ty: ty@,
                default: option_view(*default),
            },
        }
    }
}

impl GenericParamView {
    pub open spec fn kind(self) -> ParamKind {
        match self {
            GenericParamView::Lifetime { .. } => ParamKind::Lifetime,
            GenericParamView::Type { .. } => ParamKind::Type,
            GenericParamView::Const { .. } => ParamKind::Const,
        }
    }

    /// The identifier that the parameter binds.
    pub open spec fn ident(self) -> IdentView {
        match self {
            GenericParamView::Lifetime { lifetime, .. } => lifetime,
            GenericParamView::Type { ident, .. } => ident,
            GenericParamView::Const { ident, .. } => ident,
        }
    }

    pub open spec fn name(self) -> Seq<char> {
        self.ident().name
    }

    /// The same parameter with another identifier.
    pub open spec fn with_ident(self, new: IdentView) -> GenericParamView {
        match self {
            GenericParamView::Lifetime { lifetime, bounds } => GenericParamView::Lifetime {
                lifetime: new,
                bounds,
            },
            GenericParamView::Type { ident, bounds, default } => GenericParamView::Type {
                ident: new,
                bounds,
                default,
            },
            GenericParamView::Const { ident, ty, default } => GenericParamView::Const {
                ident: new,
                ty,
                default,
            },
        }
    }

    /// The same parameter under another name.
    pub open spec fn with_name(self, name: Seq<char>) -> GenericParamView {
        match self {
            GenericParamView::Lifetime { lifetime, bounds } => GenericParamView::Lifetime {
                lifetime: IdentView { name, span: lifetime.span },
                bounds,
            },
            GenericParamView::Type { ident, bounds, default } => GenericParamView::Type {
                ident: IdentView { name, span: ident.span },
                bounds,
                default,
            },
            GenericParamView::Const { ident, ty, default } => GenericParamView::Const {
                ident: IdentView { name, span: ident.span },
                ty,
                default,
            },
        }
    }
}

/// A deep copy of an optional node.
pub fn clone_option(node: &Option<Node>) -> (res: Option<Node>)
    ensures
        option_view(res) == option_view(*node),
{
    match node {
        Some(n) => Some(clone_node(n)),
        None => None,
    }
}

impl Clone for GenericParam {
    fn clone(&self) -> (res: GenericParam)
        ensures
            res@ == self@,
    {
        match self {
            GenericParam::Lifetime { lifetime, bounds } => GenericParam::Lifetime {
                lifetime: lifetime.clone(),
                bounds: clone_nodes(bounds),
            },
            GenericParam::Type { ident, bounds, default } => GenericParam::Type {
                ident: ident.clone(),
                bounds: clone_nodes(bounds),
                default: clone_option(default),
            },
            GenericParam::Const { ident, ty, default } => GenericParam::Const {
                ident: ident.clone(),
                ty: clone_node(ty),
                default: clone_option(default),
            },
        }
    }
}

impl GenericParam {
    pub fn kind(&self) -> (kind: ParamKind)
        ensures
            kind == self@.kind(),
    {
        match self {
            GenericParam::Lifetime { .. } => ParamKind::Lifetime,
            GenericParam::Type { .. } => ParamKind::Type,
            GenericParam::Const { .. } => ParamKind::Const,
        }
    }

    /// The identifier that the parameter binds.
    pub fn ident(&self) -> (ident: &Ident)
        ensures
            ident@ == self@.ident(),
    {
        match self {
            GenericParam::Lifetime { lifetime, .. } => lifetime,
            GenericParam::Type { ident, .. } => ident,
            GenericParam::Const { ident, .. } => ident,
        }
    }

    /// Gives the parameter another identifier and keeps the rest.
    pub fn set_ident(&mut self, new: Ident)
        ensures
            final(self)@ == old(self)@.with_ident(new@),
    {
        match self {
            GenericParam::Lifetime { lifetime, .. } => {
                *lifetime = new;
            },
            GenericParam::Type { ident, .. } => {
                *ident = new;
            },
            GenericParam::Const { ident, .. } => {
                *ident = new;
            },
        }
    }

    /// Gives the parameter another name and keeps the rest.
    pub fn set_name(&mut self, name: String)
        ensures
            final(self)@ == old(self)@.with_name(name@),
    {
        match self {
            GenericParam::Lifetime { lifetime, .. } => {
                lifetime.name = name;
            },
            GenericParam::Type { ident, .. } => {
                ident.name = name;
            },
            GenericParam::Const { ident, .. } => {
                ident.name = name;
            },
        }
    }
}

/// A parameter list with the predicates of its `where` clause.
#[derive(Debug, PartialEq, Eq, Hash)]
pub struct Generics {
    pub params: Vec<GenericParam>,
    /// The predicates of the `where` clause; empty where there is none.
    pub where_clause: Vec<Node>,
}

pub struct GenericsView {
    pub params: Seq<GenericParamView>,
    pub where_clause: Seq<NodeView>,
}

/// The views of a list of parameters, in order.
pub open spec fn params_view(params: Seq<GenericParam>) -> Seq<GenericParamView> {
    Seq::new(params.len(), |i: int| params[i]@)
}

impl View for Generics {
    type V = GenericsView;

    open spec fn view(&self) -> GenericsView {
        GenericsView { params: params_view(self.params@), where_clause: nodes_view(self.where_clause@) }
    }
}

/// A deep copy of a list of parameters.
pub fn clone_params(params: &Vec<GenericParam>) -> (res: Vec<GenericParam>)
    ensures
        params_view(res@) == params_view(params@),
{
    let mut res: Vec<GenericParam> = Vec::new();
    let mut i: usize = 0;
    while i < params.len()
        invariant
            i <= params@.len(),
            res@.len() == i,
            forall|j: int| 0 <= j < i ==> (#[trigger] res@[j])@ == params@[j]@,
        decreases params@.len() - i,
    {
        res.push(params[i].clone());
        i += 1;
    }
    assert(params_view(res@) =~= params_view(params@));
    res
}

impl Clone for Generics {
    fn clone(&self) -> (res: Generics)
        ensures
            res@ == self@,
    {
        Generics { params: clone_params(&self.params), where_clause: clone_nodes(&self.where_clause) }
    }
}

impl GenericsView {
    /// Where a parameter list starts: at its first parameter.
    pub open spec fn span(self) -> Span {
        if self.params.len() > 0 {
            self.params[0].ident().span
        } else {
            Span::spec_call_site()
        }
    }
}

impl Generics {
    /// Where the parameter list starts.
    pub fn span(&self) -> (span: Span)
        ensures
            span == self@.span(),
    {
        if self.params.len() > 0 {
            self.params[0].ident().span
        } else {
            Span::call_site()
        }
    }

    /// The empty parameter list.
    pub fn new() -> (res: Generics)
        ensures
            res@.params.len() == 0,
            res@.where_clause.len() == 0,
    {
        Generics { params: Vec::new(), where_clause: Vec::new() }
    }
}

/// The name that stands for the type a trait is implemented for.
pub open spec fn self_type_name() -> Seq<char> {
    "Self"@
}

/// One scope of a context, as a mathematical value.
pub enum ScopeView {
    /// The single implicit parameter that a dispatch is made on.
    SelfParam(GenericParamView),
    /// An ordinary parameter list.
    Generics(GenericsView),
}

impl ScopeView {
    /// The parameters that the scope binds.
    pub open spec fn params(self) -> Seq<GenericParamView> {
        match self {
            ScopeView::SelfParam(param) => seq![param],
            ScopeView::Generics(generics) => generics.params,
        }
    }
}

/// The scopes round an expression, the innermost first.
#[derive(Debug)]
pub enum GenericsContext<'a> {
    Empty,
    WithSelf(&'a GenericParam, &'a GenericsContext<'a>),
    WithGenerics(&'a Generics, &'a GenericsContext<'a>),
}

/// The scopes of a context, the innermost first.
pub open spec fn context_view(context: &GenericsContext) -> Seq<ScopeView>
    decreases context,
{
    match context {
        GenericsContext::Empty => Seq::empty(),
        GenericsContext::WithSelf(param, next) => seq![ScopeView::SelfParam(param@)] + context_view(
            next,
        ),
        GenericsContext::WithGenerics(generics, next) => seq![ScopeView::Generics(generics@)]
            + context_view(next),
    }
}

impl<'a> View for GenericsContext<'a> {
    type V = Seq<ScopeView>;

    open spec fn view(&self) -> Seq<ScopeView> {
        context_view(self)
    }
}

/// The path that consists of one identifier, as a value.
pub open spec fn ident_path(place: PathPlace, ident: IdentView) -> NodeView {
    NodeView::Path {
        place,
        qself: None,
        leading_colon: false,
        segments: seq![PathSegmentView { ident, arguments: None }],
    }
}

/// The path that consists of one identifier.
pub fn make_ident_path(place: PathPlace, ident: Ident) -> (node: Node)
    ensures
        node@ == ident_path(place, ident@),
{
    let mut segments: Vec<PathSegment> = Vec::new();
    segments.push(PathSegment { ident, arguments: None });
    let node = Node::Path { place, qself: None, leading_colon: false, segments };
    proof {
        lemma_view_path(&node);
        assert(node@->segments =~= seq![PathSegmentView { ident: ident@, arguments: None }]);
    }
    node
}

/// The argument that passes a parameter on under its own name, at a given
/// location or at the parameter's own.
pub open spec fn param_arg(param: GenericParamView, span: Option<Span>) -> NodeView {
    let ident = IdentView {
        name: param.name(),
        span: match span {
            Some(s) => s,
            None => param.ident().span,
        },
    };
    match param {
        GenericParamView::Lifetime { .. } => NodeView::Lifetime { ident },
        GenericParamView::Type { .. } => ident_path(PathPlace::Type, ident),
        GenericParamView::Const { .. } => ident_path(PathPlace::Expr, ident),
    }
}

/// Builds the argument that passes `param` on under its own name.
pub fn generic_param_arg(param: &GenericParam, span: Option<Span>) -> (arg: Node)
    ensures
        arg@ == param_arg(param@, span),
{
    let own = param.ident();
    let ident = match span {
        Some(s) => own.with_span(s),
        None => own.clone(),
    };
    match param {
        GenericParam::Lifetime { .. } => Node::Lifetime { ident },
        GenericParam::Type { .. } => make_ident_path(PathPlace::Type, ident),
        GenericParam::Const { .. } => make_ident_path(PathPlace::Expr, ident),
    }
}

/// The type parameter `Self` with the given bounds, as a value.
pub open spec fn self_param(span: Span, bounds: Seq<NodeView>) -> GenericParamView {
    GenericParamView::Type {
        ident: IdentView { name: self_type_name(), span },
        bounds,
        default: None,
    }
}

/// The type parameter `Self` with the given bounds.
pub fn self_type_param(span: Option<Span>, bounds: Vec<Node>) -> (param: GenericParam)
    ensures
        param@ == self_param(
            match span {
                Some(s) => s,
                None => Span::spec_call_site(),
            },
            nodes_view(bounds@),
        ),
{
    let span = match span {
        Some(s) => s,
        None => Span::call_site(),
    };
    GenericParam::Type { ident: Ident::new("Self", span), bounds, default: None }
}

} // verus!
