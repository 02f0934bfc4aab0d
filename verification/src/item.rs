//! The declarations that are lowered: traits with a closed list of variants,
//! trait aliases, implementation blocks, and free items whose bodies may be a
//! `match` on types.

use vstd::prelude::*;
use crate::expr::{TypeLevelExpr, TypeLevelExprView};
use crate::generics::{GenericParam, GenericParamView, Generics, GenericsView};
use crate::syntax::{clone_nodes, nodes_view, Ident, IdentView, Node, NodeView, Span};

verus! {

/// The views of a list of identifiers, in order.
pub open spec fn idents_view(idents: Seq<Ident>) -> Seq<IdentView> {
    Seq::new(idents.len(), |i: int| idents[i]@)
}

/// A parameter of a declaration: a generic parameter, or a parameter that
/// stands for a bound and is written `trait Name: Bounds`.
#[derive(Debug, PartialEq, Eq, Hash)]
pub enum MetaGenericParam {
    Generic(GenericParam),
    TypeBound { ident: Ident, bounds: Vec<Node> },
}

pub enum MetaGenericParamView {
    Generic(GenericParamView),
    TypeBound { ident: IdentView, bounds: Seq<NodeView> },
}

impl View for MetaGenericParam {
    type V = MetaGenericParamView;

    open spec fn view(&self) -> MetaGenericParamView {
        match self {
            MetaGenericParam::Generic(p) => MetaGenericParamView::Generic(p@),
            MetaGenericParam::TypeBound { ident, bounds } => MetaGenericParamView::TypeBound {
                ident: ident@,
                bounds: nodes_view(bounds@),
            },
        }
    }
}

impl MetaGenericParamView {
    /// The identifier that the parameter binds.
    pub open spec fn ident(self) -> IdentView {
        match self {
            MetaGenericParamView::Generic(p) => p.ident(),
            MetaGenericParamView::TypeBound { ident, .. } => ident,
        }
    }
}

impl MetaGenericParam {
    /// The identifier that the parameter binds.
    pub fn ident(&self) -> (ident: &Ident)
        ensures
            ident@ == self@.ident(),
    {
        match self {
            MetaGenericParam::Generic(p) => p.ident(),
            MetaGenericParam::TypeBound { ident, .. } => ident,
        }
    }
}

/// A `where` clause: where it stands, and its predicates.
#[derive(Debug, PartialEq, Eq, Hash)]
pub struct WhereClause {
    pub span: Span,
    pub predicates: Vec<Node>,
}

pub struct WhereClauseView {
    pub span: Span,
    pub predicates: Seq<NodeView>,
}

impl View for WhereClause {
    type V = WhereClauseView;

    open spec fn view(&self) -> WhereClauseView {
        WhereClauseView { span: self.span, predicates: nodes_view(self.predicates@) }
    }
}

/// The parameter list of a declaration.
#[derive(Debug, PartialEq, Eq, Hash)]
pub struct MetaGenerics {
    pub params: Vec<MetaGenericParam>,
    pub where_clause: Option<WhereClause>,
}

pub struct MetaGenericsView {
    pub params: Seq<MetaGenericParamView>,
    pub where_clause: Option<WhereClauseView>,
}

/// The views of a list of parameters of a declaration, in order.
pub open spec fn meta_params_view(params: Seq<MetaGenericParam>) -> Seq<MetaGenericParamView> {
    Seq::new(params.len(), |i: int| params[i]@)
}

impl View for MetaGenerics {
    type V = MetaGenericsView;

    open spec fn view(&self) -> MetaGenericsView {
        MetaGenericsView {
            params: meta_params_view(self.params@),
            where_clause: match self.where_clause {
                Some(w) => Some(w@),
                None => None,
            },
        }
    }
}

/// An argument of a trait path: a generic argument, or a path that names the
/// trait aliased for a bound parameter.
#[derive(Debug, PartialEq, Eq, Hash)]
pub enum MetaGenericArgument {
    Generic(Node),
    TraitAlias { value: Node },
}

pub enum MetaGenericArgumentView {
    Generic(NodeView),
    TraitAlias { value: NodeView },
}

impl View for MetaGenericArgument {
    type V = MetaGenericArgumentView;

    open spec fn view(&self) -> MetaGenericArgumentView {
        match self {
            MetaGenericArgument::Generic(n) => MetaGenericArgumentView::Generic(n@),
            MetaGenericArgument::TraitAlias { value } => MetaGenericArgumentView::TraitAlias {
                value: value@,
            },
        }
    }
}

impl MetaGenericArgumentView {
    /// The tree of the argument.
    pub open spec fn node(self) -> NodeView {
        match self {
            MetaGenericArgumentView::Generic(n) => n,
            MetaGenericArgumentView::TraitAlias { value } => value,
        }
    }
}

/// The arguments of a trait path, between angle brackets.
#[derive(Debug, PartialEq, Eq, Hash)]
pub struct MetaGenericArguments {
    pub span: Span,
    pub args: Vec<MetaGenericArgument>,
}

pub struct MetaGenericArgumentsView {
    pub span: Span,
    pub args: Seq<MetaGenericArgumentView>,
}

/// The views of a list of arguments, in order.
pub open spec fn meta_args_view(args: Seq<MetaGenericArgument>) -> Seq<MetaGenericArgumentView> {
    Seq::new(args.len(), |i: int| args[i]@)
}

impl View for MetaGenericArguments {
    type V = MetaGenericArgumentsView;

    open spec fn view(&self) -> MetaGenericArgumentsView {
        MetaGenericArgumentsView { span: self.span, args: meta_args_view(self.args@) }
    }
}

/// The path of an aliased trait: plain names, and arguments behind the last.
#[derive(Debug, PartialEq, Eq, Hash)]
pub struct TraitPath {
    pub leading_colon: bool,
    pub segments: Vec<Ident>,
    pub arguments: MetaGenericArguments,
}

pub struct TraitPathView {
    pub leading_colon: bool,
    pub segments: Seq<IdentView>,
    pub arguments: MetaGenericArgumentsView,
}

impl View for TraitPath {
    type V = TraitPathView;

    open spec fn view(&self) -> TraitPathView {
        TraitPathView {
            leading_colon: self.leading_colon,
            segments: idents_view(self.segments@),
            arguments: self.arguments@,
        }
    }
}

/// A variant of a trait: a name and the parameters it carries.
#[derive(Debug, PartialEq, Eq, Hash)]
pub struct TraitVariant {
    pub attrs: Vec<Node>,
    pub ident: Ident,
    pub generics: Generics,
}

pub struct TraitVariantView {
    pub attrs: Seq<NodeView>,
    pub ident: IdentView,
    pub generics: GenericsView,
}

impl View for TraitVariant {
    type V = TraitVariantView;

    open spec fn view(&self) -> TraitVariantView {
        TraitVariantView { attrs: nodes_view(self.attrs@), ident: self.ident@, generics: self.generics@ }
    }
}

impl Clone for TraitVariant {
    fn clone(&self) -> (res: TraitVariant)
        ensures
            res@ == self@,
    {
        TraitVariant {
            attrs: clone_nodes(&self.attrs),
            ident: self.ident.clone(),
            generics: self.generics.clone(),
        }
    }
}

/// The views of a list of variants, in order.
pub open spec fn variants_view(variants: Seq<TraitVariant>) -> Seq<TraitVariantView> {
    Seq::new(variants.len(), |i: int| variants[i]@)
}

/// What a trait is: a closed list of variants, or another name for a path.
#[derive(Debug, PartialEq, Eq, Hash)]
pub enum TraitContents {
    Enum { variants: Vec<TraitVariant> },
    Alias { path: TraitPath },
}

pub enum TraitContentsView {
    Enum { variants: Seq<TraitVariantView> },
    Alias { path: TraitPathView },
}

impl View for TraitContents {
    type V = TraitContentsView;

    open spec fn view(&self) -> TraitContentsView {
        match self {
            TraitContents::Enum { variants } => TraitContentsView::Enum {
                variants: variants_view(variants@),
            },
            TraitContents::Alias { path } => TraitContentsView::Alias { path: path@ },
        }
    }
}

/// The declaration of a trait.
#[derive(Debug, PartialEq, Eq, Hash)]
pub struct ItemTraitDef {
    pub attrs: Vec<Node>,
    pub vis: Vec<Node>,
    pub ident: Ident,
    pub generics: MetaGenerics,
    pub contents: TraitContents,
}

pub struct ItemTraitDefView {
    pub attrs: Seq<NodeView>,
    pub vis: Seq<NodeView>,
    pub ident: IdentView,
    pub generics: MetaGenericsView,
    pub contents: TraitContentsView,
}

impl View for ItemTraitDef {
    type V = ItemTraitDefView;

    open spec fn view(&self) -> ItemTraitDefView {
        ItemTraitDefView {
            attrs: nodes_view(self.attrs@),
            vis: nodes_view(self.vis@),
            ident: self.ident@,
            generics: self.generics@,
            contents: self.contents@,
        }
    }
}

/// The signature of a function: its name, its parameters and what it takes
/// and gives.
#[derive(Debug, PartialEq, Eq, Hash)]
pub struct Signature {
    pub ident: Ident,
    pub generics: Generics,
    pub inputs: Vec<Node>,
    pub output: Option<Node>,
}

pub struct SignatureView {
    pub ident: IdentView,
    pub generics: GenericsView,
    pub inputs: Seq<NodeView>,
    pub output: Option<NodeView>,
}

impl View for Signature {
    type V = SignatureView;

    open spec fn view(&self) -> SignatureView {
        SignatureView {
            ident: self.ident@,
            generics: self.generics@,
            inputs: nodes_view(self.inputs@),
            output: crate::generics::option_view(self.output),
        }
    }
}

/// The signature of a free function, whose parameters may stand for bounds.
#[derive(Debug, PartialEq, Eq, Hash)]
pub struct MetaSignature {
    pub ident: Ident,
    pub generics: MetaGenerics,
    pub inputs: Vec<Node>,
    pub output: Option<Node>,
}

pub struct MetaSignatureView {
    pub ident: IdentView,
    pub generics: MetaGenericsView,
    pub inputs: Seq<NodeView>,
    pub output: Option<NodeView>,
}

impl View for MetaSignature {
    type V = MetaSignatureView;

    open spec fn view(&self) -> MetaSignatureView {
        MetaSignatureView {
            ident: self.ident@,
            generics: self.generics@,
            inputs: nodes_view(self.inputs@),
            output: crate::generics::option_view(self.output),
        }
    }
}

/// An associated type of an implementation block.
#[derive(Debug, PartialEq, Eq, Hash)]
pub struct TraitImplItemType {
    pub attrs: Vec<Node>,
    pub vis: Vec<Node>,
    pub ident: Ident,
    pub generics: Generics,
    pub bounds: Vec<Node>,
    pub ty: TypeLevelExpr,
}

/// An associated constant of an implementation block.
#[derive(Debug, PartialEq, Eq, Hash)]
pub struct TraitImplItemConst {
    pub attrs: Vec<Node>,
    pub vis: Vec<Node>,
    pub ident: Ident,
    pub ty: Node,
    pub expr: TypeLevelExpr,
}

/// An associated function of an implementation block.
#[derive(Debug, PartialEq, Eq, Hash)]
pub struct TraitImplItemFn {
    pub attrs: Vec<Node>,
    pub vis: Vec<Node>,
    pub sig: Signature,
    pub block: TypeLevelExpr,
}

#[derive(Debug, PartialEq, Eq, Hash)]
pub enum TraitImplItem {
    Const(TraitImplItemConst),
    Type(TraitImplItemType),
    Fn(TraitImplItemFn),
}

/// An item of an implementation block as a value: what kind it is, what it is
/// declared with, and its body.
pub struct TraitImplItemView {
    pub kind: ItemKind,
    pub attrs: Seq<NodeView>,
    pub vis: Seq<NodeView>,
    pub ident: IdentView,
    pub generics: GenericsView,
    /// The bounds of a type; the type of a constant; what a function takes.
    pub header: Seq<NodeView>,
    /// What a function gives.
    pub output: Option<NodeView>,
    pub body: TypeLevelExprView,
}

/// The kinds of item that a trait can hold.
#[derive(Clone, Copy, Debug, PartialEq, Eq, Structural, Hash)]
pub enum ItemKind {
    Const,
    Type,
    Fn,
}

impl View for TraitImplItem {
    type V = TraitImplItemView;

    open spec fn view(&self) -> TraitImplItemView {
        match self {
            TraitImplItem::Const(item) => TraitImplItemView {
                kind: ItemKind::Const,
                attrs: nodes_view(item.attrs@),
                vis: nodes_view(item.vis@),
                ident: item.ident@,
                generics: GenericsView { params: Seq::empty(), where_clause: Seq::empty() },
                header: seq![item.ty@],
                output: None,
                body: item.expr@,
            },
            TraitImplItem::Type(item) => TraitImplItemView {
                kind: ItemKind::Type,
                attrs: nodes_view(item.attrs@),
                vis: nodes_view(item.vis@),
                ident: item.ident@,
                generics: item.generics@,
                header: nodes_view(item.bounds@),
                output: None,
                body: item.ty@,
            },
            TraitImplItem::Fn(item) => TraitImplItemView {
                kind: ItemKind::Fn,
                attrs: nodes_view(item.attrs@),
                vis: nodes_view(item.vis@),
                ident: item.sig.ident@,
                generics: item.sig.generics@,
                header: nodes_view(item.sig.inputs@),
                output: crate::generics::option_view(item.sig.output),
                body: item.block@,
            },
        }
    }
}

/// The views of a list of items of an implementation block, in order.
pub open spec fn impl_items_view(items: Seq<TraitImplItem>) -> Seq<TraitImplItemView> {
    Seq::new(items.len(), |i: int| items[i]@)
}

/// An implementation block: the items that a trait holds.
#[derive(Debug, PartialEq, Eq, Hash)]
pub struct ItemTraitImpl {
    pub generics: MetaGenerics,
    /// The path of the trait with its arguments.
    pub self_trait: Node,
    pub items: Vec<TraitImplItem>,
}

pub struct ItemTraitImplView {
    pub generics: MetaGenericsView,
    pub self_trait: NodeView,
    pub items: Seq<TraitImplItemView>,
}

impl View for ItemTraitImpl {
    type V = ItemTraitImplView;

    open spec fn view(&self) -> ItemTraitImplView {
        ItemTraitImplView {
            generics: self.generics@,
            self_trait: self.self_trait@,
            items: impl_items_view(self.items@),
        }
    }
}

/// A free type alias whose right side may be a `match`.
#[derive(Debug, PartialEq, Eq, Hash)]
pub struct ItemTypeExt {
    pub attrs: Vec<Node>,
    pub vis: Vec<Node>,
    pub ident: Ident,
    pub generics: MetaGenerics,
    pub bounds: Vec<Node>,
    pub ty: TypeLevelExpr,
}

pub struct ItemTypeExtView {
    pub attrs: Seq<NodeView>,
    pub vis: Seq<NodeView>,
    pub ident: IdentView,
    pub generics: MetaGenericsView,
    pub bounds: Seq<NodeView>,
    pub ty: TypeLevelExprView,
}

impl View for ItemTypeExt {
    type V = ItemTypeExtView;

    open spec fn view(&self) -> ItemTypeExtView {
        ItemTypeExtView {
            attrs: nodes_view(self.attrs@),
            vis: nodes_view(self.vis@),
            ident: self.ident@,
            generics: self.generics@,
            bounds: nodes_view(self.bounds@),
            ty: self.ty@,
        }
    }
}

/// A free function whose body may be a `match`.
#[derive(Debug, PartialEq, Eq, Hash)]
pub struct ItemFnExt {
    pub attrs: Vec<Node>,
    pub vis: Vec<Node>,
    pub sig: MetaSignature,
    pub block: TypeLevelExpr,
}

pub struct ItemFnExtView {
    pub attrs: Seq<NodeView>,
    pub vis: Seq<NodeView>,
    pub sig: MetaSignatureView,
    pub block: TypeLevelExprView,
}

impl View for ItemFnExt {
    type V = ItemFnExtView;

    open spec fn view(&self) -> ItemFnExtView {
        ItemFnExtView {
            attrs: nodes_view(self.attrs@),
            vis: nodes_view(self.vis@),
            sig: self.sig@,
            block: self.block@,
        }
    }
}

#[derive(Debug, PartialEq, Eq, Hash)]
pub enum MetaItem {
    TraitDef(ItemTraitDef),
    TraitImpl(ItemTraitImpl),
    Type(ItemTypeExt),
    Fn(ItemFnExt),
}

pub enum MetaItemView {
    TraitDef(ItemTraitDefView),
    TraitImpl(ItemTraitImplView),
    Type(ItemTypeExtView),
    Fn(ItemFnExtView),
}

impl View for MetaItem {
    type V = MetaItemView;

    open spec fn view(&self) -> MetaItemView {
        match self {
            MetaItem::TraitDef(item) => MetaItemView::TraitDef(item@),
            MetaItem::TraitImpl(item) => MetaItemView::TraitImpl(item@),
            MetaItem::Type(item) => MetaItemView::Type(item@),
            MetaItem::Fn(item) => MetaItemView::Fn(item@),
        }
    }
}

/// The declarations of one input, in source order.
#[derive(Debug, PartialEq, Eq, Hash)]
pub struct MetaItemList(pub Vec<MetaItem>);

impl View for MetaItemList {
    type V = Seq<MetaItemView>;

    open spec fn view(&self) -> Seq<MetaItemView> {
        Seq::new(self.0@.len(), |i: int| self.0@[i]@)
    }
}

} // verus!
