//! What lowering produces: for each trait its variants with the items that
//! are defined for them, and the free items with their bodies made plain.

use vstd::prelude::*;
use crate::generics::{
    clone_option, generic_param_arg, option_view, param_arg, params_view, GenericParam,
    GenericParamView, Generics, GenericsView,
};
use crate::item::{
    idents_view, ItemKind, MetaGenericParam, MetaGenericParamView, MetaGenerics, MetaGenericsView,
    TraitVariant, TraitVariantView,
};
use crate::syntax::{clone_nodes, nodes_view, Ident, IdentView, Node, NodeView};

verus! {

/// An item without a `match`: a declaration where it has no body, a
/// definition where it has one.
#[derive(Debug, PartialEq, Eq, Hash)]
pub struct LoweredItem {
    pub kind: ItemKind,
    /// The part of the trait that the item belongs to: none for the part that
    /// the trait itself makes up.
    pub part: Option<Ident>,
    pub attrs: Vec<Node>,
    pub vis: Vec<Node>,
    pub ident: Ident,
    pub generics: Generics,
    /// The bounds of a type; the type of a constant; what a function takes.
    pub header: Vec<Node>,
    /// What a function gives.
    pub output: Option<Node>,
    pub body: Option<Node>,
}

pub struct LoweredItemView {
    pub kind: ItemKind,
    pub part: Option<IdentView>,
    pub attrs: Seq<NodeView>,
    pub vis: Seq<NodeView>,
    pub ident: IdentView,
    pub generics: GenericsView,
    pub header: Seq<NodeView>,
    pub output: Option<NodeView>,
    pub body: Option<NodeView>,
}

impl View for LoweredItem {
    type V = LoweredItemView;

    open spec fn view(&self) -> LoweredItemView {
        LoweredItemView {
            kind: self.kind,
            part: match self.part {
                Some(ident) => Some(ident@),
                None => None,
            },
            attrs: nodes_view(self.attrs@),
            vis: nodes_view(self.vis@),
            ident: self.ident@,
            generics: self.generics@,
            header: nodes_view(self.header@),
            output: option_view(self.output),
            body: option_view(self.body),
        }
    }
}

impl Clone for LoweredItem {
    fn clone(&self) -> (res: LoweredItem)
        ensures
            res@ == self@,
    {
        LoweredItem {
            kind: self.kind,
            part: match &self.part {
                Some(ident) => Some(ident.clone()),
                None => None,
            },
            attrs: clone_nodes(&self.attrs),
            vis: clone_nodes(&self.vis),
            ident: self.ident.clone(),
            generics: self.generics.clone(),
            header: clone_nodes(&self.header),
            output: clone_option(&self.output),
            body: clone_option(&self.body),
        }
    }
}

impl LoweredItemView {
    /// The same item with a body.
    pub open spec fn with_body(self, body: NodeView) -> LoweredItemView {
        LoweredItemView {
            kind: self.kind,
            part: self.part,
            attrs: self.attrs,
            vis: self.vis,
            ident: self.ident,
            generics: self.generics,
            header: self.header,
            output: self.output,
            body: Some(body),
        }
    }
}

/// Whether one of `items` has the given name.
pub open spec fn items_contain(items: Seq<LoweredItemView>, name: Seq<char>) -> bool {
    exists|i: int| 0 <= i < items.len() && (#[trigger] items[i]).ident.name == name
}

/// Whether one of `items` has the given name.
pub fn contains_item(items: &Vec<LoweredItem>, name: &String) -> (res: bool)
    ensures
        res == items_contain(lowered_view(items@), name@),
{
    let mut i: usize = 0;
    while i < items.len()
        invariant
            i <= items@.len(),
            forall|j: int| 0 <= j < i ==> (#[trigger] lowered_view(items@)[j]).ident.name != name@,
        decreases items@.len() - i,
    {
        if items[i].ident.name == *name {
            assert(lowered_view(items@)[i as int].ident.name == name@);
            return true;
        }
        i += 1;
    }
    false
}

/// The views of a list of lowered items, in order.
pub open spec fn lowered_view(items: Seq<LoweredItem>) -> Seq<LoweredItemView> {
    Seq::new(items.len(), |i: int| items[i]@)
}

/// A variant with what its implementation is declared with: the parameters
/// of the trait, and the arguments that pass them on to the trait.
#[derive(Debug, PartialEq, Eq, Hash)]
pub struct ImplVariant {
    pub impl_generics: Generics,
    pub trait_args: Vec<Node>,
    pub variant: TraitVariant,
}

pub struct ImplVariantView {
    pub impl_generics: GenericsView,
    pub trait_args: Seq<NodeView>,
    pub variant: TraitVariantView,
}

impl View for ImplVariant {
    type V = ImplVariantView;

    open spec fn view(&self) -> ImplVariantView {
        ImplVariantView {
            impl_generics: self.impl_generics@,
            trait_args: nodes_view(self.trait_args@),
            variant: self.variant@,
        }
    }
}

/// The implementation of a trait for one variant.
#[derive(Debug, PartialEq, Eq, Hash)]
pub struct OutputImplVariant {
    pub variant: ImplVariant,
    pub impl_items: Vec<LoweredItem>,
}

pub struct OutputImplVariantView {
    pub variant: ImplVariantView,
    pub impl_items: Seq<LoweredItemView>,
}

impl View for OutputImplVariant {
    type V = OutputImplVariantView;

    open spec fn view(&self) -> OutputImplVariantView {
        OutputImplVariantView { variant: self.variant@, impl_items: lowered_view(self.impl_items@) }
    }
}

/// The views of a list of implementations, in order.
pub open spec fn impl_variants_view(variants: Seq<OutputImplVariant>) -> Seq<OutputImplVariantView> {
    Seq::new(variants.len(), |i: int| variants[i]@)
}

/// A trait with what was gathered for it.
#[derive(Debug, PartialEq, Eq, Hash)]
pub struct OutputItemTraitDef {
    /// The position of the trait's declaration in the input.
    pub source: usize,
    pub ident: Ident,
    /// The parameters of the trait without those that stand for bounds.
    pub extracted_generics: Generics,
    /// The variants, as far as they are known: those that were declared, or
    /// those that the arms of a `match` named.
    pub variants: Option<Vec<OutputImplVariant>>,
    /// The items that the trait declares, with the bodies that all variants
    /// share.
    pub impl_items: Vec<LoweredItem>,
    /// The traits whose items this trait's items refer to.
    pub dependent_idents: Vec<Ident>,
    /// How many items were made for a `match` outside any implementation.
    pub next_internal_item_idx: usize,
}

pub struct OutputItemTraitDefView {
    pub source: usize,
    pub ident: IdentView,
    pub extracted_generics: GenericsView,
    pub variants: Option<Seq<OutputImplVariantView>>,
    pub impl_items: Seq<LoweredItemView>,
    pub dependent_idents: Seq<IdentView>,
    pub next_internal_item_idx: usize,
}

impl View for OutputItemTraitDef {
    type V = OutputItemTraitDefView;

    open spec fn view(&self) -> OutputItemTraitDefView {
        OutputItemTraitDefView {
            source: self.source,
            ident: self.ident@,
            extracted_generics: self.extracted_generics@,
            variants: match self.variants {
                Some(variants) => Some(impl_variants_view(variants@)),
                None => None,
            },
            impl_items: lowered_view(self.impl_items@),
            dependent_idents: idents_view(self.dependent_idents@),
            next_internal_item_idx: self.next_internal_item_idx,
        }
    }
}

#[derive(Debug, PartialEq, Eq, Hash)]
pub enum OutputMetaItem {
    TraitDef(OutputItemTraitDef),
    Item(LoweredItem),
}

pub enum OutputMetaItemView {
    TraitDef(OutputItemTraitDefView),
    Item(LoweredItemView),
}

impl View for OutputMetaItem {
    type V = OutputMetaItemView;

    open spec fn view(&self) -> OutputMetaItemView {
        match self {
            OutputMetaItem::TraitDef(def) => OutputMetaItemView::TraitDef(def@),
            OutputMetaItem::Item(item) => OutputMetaItemView::Item(item@),
        }
    }
}

/// The lowered declarations: the traits first, in the order of their
/// declarations, then the free items in theirs.
#[derive(Debug, PartialEq, Eq, Hash)]
pub struct OutputMetaItemList(pub Vec<OutputMetaItem>);

/// The views of a list of lowered declarations, in order.
pub open spec fn outputs_view(items: Seq<OutputMetaItem>) -> Seq<OutputMetaItemView> {
    Seq::new(items.len(), |i: int| items[i]@)
}

impl View for OutputMetaItemList {
    type V = Seq<OutputMetaItemView>;

    open spec fn view(&self) -> Seq<OutputMetaItemView> {
        outputs_view(self.0@)
    }
}

/// A parameter of a declaration as a generic parameter: one that stands for
/// a bound becomes a type parameter with the bounds.
pub open spec fn extracted_param(p: MetaGenericParamView) -> GenericParamView {
    match p {
        MetaGenericParamView::Generic(q) => q,
        MetaGenericParamView::TypeBound { ident, bounds } => GenericParamView::Type {
            ident,
            bounds,
            default: None,
        },
    }
}

/// The parameter list of a declaration as a generic parameter list.
pub open spec fn extracted_generics(g: MetaGenericsView) -> GenericsView {
    GenericsView {
        params: Seq::new(g.params.len(), |i: int| extracted_param(g.params[i])),
        where_clause: match g.where_clause {
            Some(w) => w.predicates,
            None => Seq::empty(),
        },
    }
}

impl MetaGenerics {
    /// The parameters of the declaration as generic parameters, with the
    /// predicates of its `where` clause.
    pub fn extract_generics(&self) -> (res: Generics)
        ensures
            res@ == extracted_generics(self@),
    {
        let mut params: Vec<GenericParam> = Vec::new();
        let mut i: usize = 0;
        while i < self.params.len()
            invariant
                i <= self.params@.len(),
                params@.len() == i,
                forall|j: int| 0 <= j < i ==> (#[trigger] params@[j])@ == extracted_param(self@.params[j]),
            decreases self.params@.len() - i,
        {
            assert(self@.params[i as int] == self.params@[i as int]@);
            let param = match &self.params[i] {
                MetaGenericParam::Generic(p) => p.clone(),
                MetaGenericParam::TypeBound { ident, bounds } => GenericParam::Type {
                    ident: ident.clone(),
                    bounds: clone_nodes(bounds),
                    default: None,
                },
            };
            params.push(param);
            i += 1;
        }
        assert(params_view(params@) =~= extracted_generics(self@).params);
        let where_clause = match &self.where_clause {
            Some(w) => clone_nodes(&w.predicates),
            None => {
                let none: Vec<Node> = Vec::new();
                assert(nodes_view(none@) =~= Seq::empty());
                none
            },
        };
        Generics { params, where_clause }
    }
}

/// The arguments that pass the parameters of a list on, each under its own
/// name.
pub open spec fn params_as_args(params: Seq<GenericParamView>) -> Seq<NodeView> {
    Seq::new(params.len(), |i: int| param_arg(params[i], None))
}

/// Builds the arguments that pass the parameters of `generics` on.
pub fn generic_args(generics: &Generics) -> (args: Vec<Node>)
    ensures
        nodes_view(args@) == params_as_args(generics@.params),
{
    let mut args: Vec<Node> = Vec::new();
    let mut i: usize = 0;
    while i < generics.params.len()
        invariant
            i <= generics.params@.len(),
            args@.len() == i,
            forall|j: int| 0 <= j < i ==> (#[trigger] args@[j])@ == param_arg(generics@.params[j], None),
        decreases generics.params@.len() - i,
    {
        args.push(generic_param_arg(&generics.params[i], None));
        i += 1;
    }
    assert(nodes_view(args@) =~= params_as_args(generics@.params));
    args
}

} // verus!
