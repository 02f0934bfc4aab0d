//! Lowering of a list of declarations: the traits are registered first, so
//! that the order of the input does not matter; then every implementation
//! block and every free item is merged into what was registered; at last the
//! traits that need a `match` and got none are refused.

use vstd::prelude::*;
use crate::depend::{is_super_trait, path_added};
use crate::merge::{error_at, ident_error};
use crate::dispatch::free_lowered;
use crate::item::{
    ItemFnExtView, ItemKind, ItemTypeExtView, MetaGenericArgumentsView, MetaGenericArguments,
};
use crate::merge::{def_at, impl_merged};
use crate::output::LoweredItemView;
use crate::subst::{node_param_kind, param_kind_of};
use crate::generics::{clone_option, ParamKind};
use crate::syntax::lemma_view_path;
use crate::error::{plain_error, Error, ErrorView, Reason};
use crate::generics::{Generics, GenericsView};
use crate::item::{
    ItemTraitDef, ItemTraitDefView, MetaGenericArgument, MetaGenericArgumentView, MetaItem,
    MetaItemList, MetaItemView, TraitContents, TraitContentsView, TraitVariant, TraitVariantView,
};
use crate::output::{
    extracted_generics, generic_args, impl_variants_view, lowered_view, outputs_view,
    params_as_args, ImplVariant, ImplVariantView, LoweredItem, OutputImplVariant,
    OutputImplVariantView, OutputItemTraitDef, OutputItemTraitDefView, OutputMetaItem,
    OutputMetaItemList, OutputMetaItemView,
};
use crate::params::add_underscores_to_all_params;
use crate::rename::{renamed_generics, ConflictView};
use crate::syntax::{clone_nodes, Ident, IdentView, Node};

verus! {

/// A parameter list with every name moved out of the way of the names that
/// the list had: underscores are appended, and references inside the list
/// follow.
pub open spec fn underscored_generics(g: GenericsView) -> GenericsView {
    renamed_generics(ConflictView::Params(g.params), g, g.params.len())
}

/// A variant as it is registered: under the parameters of its trait, with its
/// own parameters moved out of the way, and without items.
pub open spec fn registered_variant(trait_generics: GenericsView, v: TraitVariantView) -> OutputImplVariantView {
    OutputImplVariantView {
        variant: ImplVariantView {
            impl_generics: trait_generics,
            trait_args: params_as_args(trait_generics.params),
            variant: TraitVariantView {
                attrs: v.attrs,
                ident: v.ident,
                generics: underscored_generics(v.generics),
            },
        },
        impl_items: Seq::empty(),
    }
}

/// The traits that the first `n` arguments of an alias make the alias depend
/// on: those that are named for a bound parameter.
pub open spec fn alias_dependencies(def: ItemTraitDefView, args: Seq<MetaGenericArgumentView>, n: nat) -> Seq<
    IdentView,
>
    decreases n,
{
    if n == 0 || n > args.len() {
        Seq::empty()
    } else {
        let earlier = alias_dependencies(def, args, (n - 1) as nat);
        match args[n - 1] {
            MetaGenericArgumentView::TraitAlias { value } => path_added(def, value, earlier),
            MetaGenericArgumentView::Generic(_) => earlier,
        }
    }
}

/// A trait as it is registered, before anything is merged into it.
pub open spec fn registered_def(def: ItemTraitDefView, source: usize) -> OutputItemTraitDefView {
    let generics = extracted_generics(def.generics);
    OutputItemTraitDefView {
        source,
        ident: def.ident,
        extracted_generics: generics,
        variants: match def.contents {
            TraitContentsView::Enum { variants } => Some(
                Seq::new(
                    variants.len(),
                    |i: int| registered_variant(underscored_generics(generics), variants[i]),
                ),
            ),
            TraitContentsView::Alias { .. } => None,
        },
        impl_items: Seq::empty(),
        dependent_idents: match def.contents {
            TraitContentsView::Enum { .. } => Seq::empty(),
            TraitContentsView::Alias { path } => alias_dependencies(
                def,
                path.arguments.args,
                path.arguments.args.len(),
            ),
        },
        next_internal_item_idx: 0,
    }
}

/// The traits among the first `n` declarations, registered in order.
pub open spec fn registered(items: Seq<MetaItemView>, n: nat) -> Seq<OutputMetaItemView>
    decreases n,
{
    if n == 0 || n > items.len() {
        Seq::empty()
    } else {
        let earlier = registered(items, (n - 1) as nat);
        match items[n - 1] {
            MetaItemView::TraitDef(def) => earlier.push(
                OutputMetaItemView::TraitDef(registered_def(def, (n - 1) as usize)),
            ),
            _ => earlier,
        }
    }
}

/// Registers one variant under the parameters of its trait.
pub(crate) fn register_variant(trait_generics: &Generics, variant: &TraitVariant) -> (res: OutputImplVariant)
    ensures
        res@ == registered_variant(trait_generics@, variant@),
{
    let mut variant = variant.clone();
    let _ = add_underscores_to_all_params(&mut variant.generics);
    let impl_items: Vec<LoweredItem> = Vec::new();
    assert(lowered_view(impl_items@) =~= Seq::empty());
    OutputImplVariant {
        variant: ImplVariant {
            impl_generics: trait_generics.clone(),
            trait_args: generic_args(trait_generics),
            variant,
        },
        impl_items,
    }
}

/// Registers one trait.
fn register_def(def: &ItemTraitDef, source: usize) -> (res: OutputItemTraitDef)
    ensures
        res@ == registered_def(def@, source),
{
    let extracted = def.generics.extract_generics();
    let mut dependent_idents: Vec<Ident> = Vec::new();
    assert(crate::item::idents_view(dependent_idents@) =~= Seq::empty());
    let variants = match &def.contents {
        TraitContents::Enum { variants } => {
            let mut trait_generics = extracted.clone();
            let _ = add_underscores_to_all_params(&mut trait_generics);
            let mut out: Vec<OutputImplVariant> = Vec::new();
            let mut i: usize = 0;
            while i < variants.len()
                invariant
                    i <= variants@.len(),
                    out@.len() == i,
                    forall|j: int|
                        0 <= j < i ==> (#[trigger] out@[j])@ == registered_variant(
                            trait_generics@,
                            variants@[j]@,
                        ),
                decreases variants@.len() - i,
            {
                out.push(register_variant(&trait_generics, &variants[i]));
                i += 1;
            }
            proof {
                let expected = registered_def(def@, source).variants->0;
                assert(impl_variants_view(out@) =~= expected);
            }
            Some(out)
        },
        TraitContents::Alias { path } => {
            let ghost args = path@.arguments.args;
            let mut i: usize = 0;
            while i < path.arguments.args.len()
                invariant
                    i <= path.arguments.args@.len(),
                    args == path@.arguments.args,
                    crate::item::idents_view(dependent_idents@) == alias_dependencies(def@, args, i as nat),
                decreases path.arguments.args@.len() - i,
            {
                assert(args[i as int] == path.arguments.args@[i as int]@);
                match &path.arguments.args[i] {
                    MetaGenericArgument::TraitAlias { value } => {
                        def.add_path_to_dependencies(value, &mut dependent_idents);
                    },
                    MetaGenericArgument::Generic(_) => {},
                }
                i += 1;
            }
            None
        },
    };
    let impl_items: Vec<LoweredItem> = Vec::new();
    assert(lowered_view(impl_items@) =~= Seq::empty());
    OutputItemTraitDef {
        source,
        ident: def.ident.clone(),
        extracted_generics: extracted,
        variants,
        impl_items,
        dependent_idents,
        next_internal_item_idx: 0,
    }
}

impl MetaItemList {
    /// Registers the traits of the input, in order.
    pub(crate) fn register(&self) -> (res: Vec<OutputMetaItem>)
        ensures
            outputs_view(res@) == registered(self@, self@.len()),
    {
        let mut res: Vec<OutputMetaItem> = Vec::new();
        let ghost items = self@;
        let mut i: usize = 0;
        assert(outputs_view(res@) =~= registered(items, 0));
        while i < self.0.len()
            invariant
                i <= self.0@.len(),
                items == self@,
                outputs_view(res@) == registered(items, i as nat),
            decreases self.0@.len() - i,
        {
            assert(items[i as int] == self.0@[i as int]@);
            match &self.0[i] {
                MetaItem::TraitDef(def) => {
                    res.push(OutputMetaItem::TraitDef(register_def(def, i)));
                    assert(outputs_view(res@) =~= registered(items, (i + 1) as nat));
                },
                _ => {},
            }
            i += 1;
        }
        res
    }
}

/// A free type alias without its right side.
pub open spec fn type_header(item: ItemTypeExtView) -> LoweredItemView {
    LoweredItemView {
        kind: ItemKind::Type,
        part: None,
        attrs: item.attrs,
        vis: item.vis,
        ident: item.ident,
        generics: extracted_generics(item.generics),
        header: item.bounds,
        output: None,
        body: None,
    }
}

/// A free function without its body.
pub open spec fn fn_header(item: ItemFnExtView) -> LoweredItemView {
    LoweredItemView {
        kind: ItemKind::Fn,
        part: None,
        attrs: item.attrs,
        vis: item.vis,
        ident: item.sig.ident,
        generics: extracted_generics(item.sig.generics),
        header: item.sig.inputs,
        output: item.sig.output,
        body: None,
    }
}

/// What was registered and lowered after one declaration was merged: a trait
/// was registered before and changes nothing.
pub open spec fn declaration_merged(
    items: Seq<MetaItemView>,
    outputs: Seq<OutputMetaItemView>,
    item: MetaItemView,
) -> Result<Seq<OutputMetaItemView>, ErrorView> {
    match item {
        MetaItemView::TraitDef(_) => Ok(outputs),
        MetaItemView::TraitImpl(imp) => impl_merged(items, outputs, imp),
        MetaItemView::Type(t) => free_lowered(items, outputs, type_header(t), t.ty),
        MetaItemView::Fn(f) => free_lowered(items, outputs, fn_header(f), f.block),
    }
}

/// What was registered and lowered after the first `n` declarations were
/// merged in order, or the first failure.
pub open spec fn merged(items: Seq<MetaItemView>, outputs: Seq<OutputMetaItemView>, n: nat) -> Result<
    Seq<OutputMetaItemView>,
    ErrorView,
>
    decreases n,
{
    if n == 0 || n > items.len() {
        Ok(outputs)
    } else {
        match merged(items, outputs, (n - 1) as nat) {
            Err(e) => Err(e),
            Ok(earlier) => declaration_merged(items, earlier, items[n - 1]),
        }
    }
}

/// A failure on the way stays the outcome, however many declarations follow.
pub proof fn lemma_merged_failure(items: Seq<MetaItemView>, outputs: Seq<OutputMetaItemView>, k: nat, n: nat)
    requires
        k <= n <= items.len(),
        merged(items, outputs, k) is Err,
    ensures
        merged(items, outputs, n) == merged(items, outputs, k),
    decreases n,
{
    if k < n {
        lemma_merged_failure(items, outputs, k, (n - 1) as nat);
    }
}

/// Whether an argument of an alias is a type that is more than a bare name.
pub open spec fn is_complex_arg(a: MetaGenericArgumentView) -> bool {
    a is Generic && node_param_kind(a->Generic_0) == Some(ParamKind::Type) && !(a->Generic_0 is Path
        && a->Generic_0->qself is None && !a->Generic_0->leading_colon && a->Generic_0->segments.len()
        == 1 && a->Generic_0->segments[0].arguments is None)
}

/// Whether one of the arguments of an alias is a type that is more than a bare
/// name.
pub open spec fn has_complex_type_arg(arguments: MetaGenericArgumentsView) -> bool {
    exists|i: int| 0 <= i < arguments.args.len() && is_complex_arg(#[trigger] arguments.args[i])
}

/// Why a trait that got no `match` needs one, if it does: it has a `where`
/// clause, or it is an alias with an argument that is more than a bare name.
pub open spec fn missing_dispatch(def: ItemTraitDefView) -> Option<ErrorView> {
    match def.generics.where_clause {
        Some(w) => Some(plain_error(Reason::MatchRequiredForWhere, w.span)),
        None => match def.contents {
            TraitContentsView::Alias { path } => if has_complex_type_arg(path.arguments) {
                Some(plain_error(Reason::MatchRequiredForAlias, path.arguments.span))
            } else {
                None
            },
            TraitContentsView::Enum { .. } => None,
        },
    }
}

/// Why the trait at one position of the output is refused, if it is: its
/// variants are not known and it needs a `match`.
pub open spec fn dispatch_error(items: Seq<MetaItemView>, output: OutputMetaItemView) -> Option<ErrorView> {
    match output {
        OutputMetaItemView::TraitDef(entry) => if entry.variants is None {
            match def_at(items, entry.source) {
                Some(def) => missing_dispatch(def),
                None => None,
            }
        } else {
            None
        },
        OutputMetaItemView::Item(_) => None,
    }
}

/// The first refusal among the traits from position `i` on, if there is one.
pub open spec fn validation_error(items: Seq<MetaItemView>, outputs: Seq<OutputMetaItemView>, i: int) -> Option<
    ErrorView,
>
    decreases outputs.len() - i,
{
    if i < 0 || i >= outputs.len() {
        None
    } else {
        match dispatch_error(items, outputs[i]) {
            Some(e) => Some(e),
            None => validation_error(items, outputs, i + 1),
        }
    }
}

/// The first alias from position `i` on that is another name for itself, as
/// a failure.
pub open spec fn cycle_error(items: Seq<MetaItemView>, i: int) -> Option<ErrorView>
    decreases items.len() - i,
{
    if i < 0 || i >= items.len() {
        None
    } else if items[i] is TraitDef && is_super_trait(
        items[i]->TraitDef_0,
        items[i]->TraitDef_0.ident.name,
    ) {
        Some(ident_error(Reason::CyclicAlias, items[i]->TraitDef_0.ident))
    } else {
        cycle_error(items, i + 1)
    }
}

/// The lowered form of a list of declarations, or the first failure.
///
/// An alias that is another name for itself is refused. The traits are
/// registered in the order of their declarations. Then the declarations are
/// merged in order: an implementation block into its trait, a free item
/// behind what is there. At last every trait that needs a `match` and got
/// none is refused.
pub open spec fn lowered(items: Seq<MetaItemView>) -> Result<Seq<OutputMetaItemView>, ErrorView> {
    match cycle_error(items, 0) {
        Some(e) => Err(e),
        None => match merged(items, registered(items, items.len()), items.len()) {
            Err(e) => Err(e),
            Ok(outputs) => match validation_error(items, outputs, 0) {
                Some(e) => Err(e),
                None => Ok(outputs),
            },
        },
    }
}

impl MetaGenericArguments {
    /// Whether one of the arguments is a type that is more than a bare name.
    pub fn has_complex_type_arg(&self) -> (res: bool)
        ensures
            res == has_complex_type_arg(self@),
    {
        let mut i: usize = 0;
        while i < self.args.len()
            invariant
                i <= self.args@.len(),
                forall|j: int| 0 <= j < i ==> !is_complex_arg(#[trigger] self@.args[j]),
            decreases self.args@.len() - i,
        {
            assert(self@.args[i as int] == self.args@[i as int]@);
            match &self.args[i] {
                MetaGenericArgument::Generic(n) => {
                    let simple = match n {
                        Node::Path { qself, leading_colon, segments, .. } => {
                            proof {
                                lemma_view_path(n);
                            }
                            qself.is_none() && !*leading_colon && segments.len() == 1
                                && segments[0].arguments.is_none()
                        },
                        _ => false,
                    };
                    if param_kind_of(n) == Some(ParamKind::Type) && !simple {
                        return true;
                    }
                },
                MetaGenericArgument::TraitAlias { .. } => {},
            }
            i += 1;
        }
        false
    }
}

/// Why a trait that got no `match` needs one, if it does.
fn check_dispatch(def: &ItemTraitDef) -> (res: Result<(), Error>)
    ensures
        match res {
            Ok(_) => missing_dispatch(def@) is None,
            Err(e) => missing_dispatch(def@) == Some(e@),
        },
{
    match &def.generics.where_clause {
        Some(w) => Err(Error::new(Reason::MatchRequiredForWhere, w.span)),
        None => match &def.contents {
            TraitContents::Alias { path } => {
                if path.arguments.has_complex_type_arg() {
                    Err(Error::new(Reason::MatchRequiredForAlias, path.arguments.span))
                } else {
                    Ok(())
                }
            },
            TraitContents::Enum { .. } => Ok(()),
        },
    }
}

impl MetaItemList {
    /// Merges one declaration into what was registered and lowered.
    fn merge_declaration(&self, outputs: &mut Vec<OutputMetaItem>, item: &MetaItem) -> (res: Result<
        (),
        Error,
    >)
        ensures
            match declaration_merged(self@, outputs_view(old(outputs)@), item@) {
                Ok(after) => res is Ok && outputs_view(final(outputs)@) == after,
                Err(e) => res is Err && res->Err_0@ == e,
            },
    {
        match item {
            MetaItem::TraitDef(_) => Ok(()),
            MetaItem::TraitImpl(imp) => self.merge_impl(outputs, imp),
            MetaItem::Type(t) => {
                let free = LoweredItem {
                    kind: ItemKind::Type,
                    part: None,
                    attrs: clone_nodes(&t.attrs),
                    vis: clone_nodes(&t.vis),
                    ident: t.ident.clone(),
                    generics: t.generics.extract_generics(),
                    header: clone_nodes(&t.bounds),
                    output: None,
                    body: None,
                };
                self.lower_free(outputs, free, &t.ty)
            },
            MetaItem::Fn(f) => {
                let free = LoweredItem {
                    kind: ItemKind::Fn,
                    part: None,
                    attrs: clone_nodes(&f.attrs),
                    vis: clone_nodes(&f.vis),
                    ident: f.sig.ident.clone(),
                    generics: f.sig.generics.extract_generics(),
                    header: clone_nodes(&f.sig.inputs),
                    output: clone_option(&f.sig.output),
                    body: None,
                };
                self.lower_free(outputs, free, &f.block)
            },
        }
    }

    /// Refuses the first alias that is another name for itself.
    fn check_cycles(&self) -> (res: Result<(), Error>)
        ensures
            match res {
                Ok(_) => cycle_error(self@, 0) is None,
                Err(e) => cycle_error(self@, 0) == Some(e@),
            },
    {
        let ghost items = self@;
        let mut i: usize = 0;
        while i < self.0.len()
            invariant
                i <= self.0@.len(),
                items == self@,
                cycle_error(items, i as int) == cycle_error(items, 0),
            decreases self.0@.len() - i,
        {
            assert(items[i as int] == self.0@[i as int]@);
            match &self.0[i] {
                MetaItem::TraitDef(def) => {
                    if def.is_super_trait_ident(&def.ident) {
                        return Err(error_at(Reason::CyclicAlias, &def.ident));
                    }
                },
                _ => {},
            }
            i += 1;
        }
        Ok(())
    }

    /// Refuses the first trait that needs a `match` and got none.
    fn validate(&self, outputs: &Vec<OutputMetaItem>) -> (res: Result<(), Error>)
        ensures
            match res {
                Ok(_) => validation_error(self@, outputs_view(outputs@), 0) is None,
                Err(e) => validation_error(self@, outputs_view(outputs@), 0) == Some(e@),
            },
    {
        let ghost views = outputs_view(outputs@);
        let mut i: usize = 0;
        while i < outputs.len()
            invariant
                i <= outputs@.len(),
                views == outputs_view(outputs@),
                validation_error(self@, views, i as int) == validation_error(self@, views, 0),
            decreases outputs@.len() - i,
        {
            assert(views[i as int] == outputs@[i as int]@);
            match &outputs[i] {
                OutputMetaItem::TraitDef(entry) => {
                    if entry.variants.is_none() {
                        match self.def_at(entry.source) {
                            Some(def) => match check_dispatch(def) {
                                Err(e) => {
                                    return Err(e);
                                },
                                Ok(_) => {},
                            },
                            None => {},
                        }
                    }
                },
                OutputMetaItem::Item(_) => {},
            }
            i += 1;
        }
        Ok(())
    }

    /// Lowers the declarations: every `match` is compiled into items of the
    /// trait that it dispatches on, one definition for each variant.
    ///
    /// The lowering succeeds as a whole or fails with the first failure.
    pub fn output(&self) -> (res: Result<OutputMetaItemList, Error>)
        ensures
            match lowered(self@) {
                Ok(outputs) => res is Ok && res->Ok_0@ == outputs,
                Err(e) => res is Err && res->Err_0@ == e,
            },
    {
        match self.check_cycles() {
            Err(e) => {
                return Err(e);
            },
            Ok(_) => {},
        }
        let mut result = self.register();
        let ghost first = outputs_view(result@);
        let ghost items = self@;
        let mut i: usize = 0;
        while i < self.0.len()
            invariant
                i <= self.0@.len(),
                items == self@,
                first == registered(items, items.len()),
                cycle_error(items, 0) is None,
                merged(items, first, i as nat) == Ok::<Seq<OutputMetaItemView>, ErrorView>(
                    outputs_view(result@),
                ),
            decreases self.0@.len() - i,
        {
            assert(items[i as int] == self.0@[i as int]@);
            match self.merge_declaration(&mut result, &self.0[i]) {
                Err(e) => {
                    proof {
                        assert(merged(items, first, (i + 1) as nat) == Err::<
                            Seq<OutputMetaItemView>,
                            ErrorView,
                        >(e@));
                        lemma_merged_failure(items, first, (i + 1) as nat, items.len());
                    }
                    return Err(e);
                },
                Ok(_) => {},
            }
            i += 1;
        }
        match self.validate(&result) {
            Err(e) => Err(e),
            Ok(_) => Ok(OutputMetaItemList(result)),
        }
    }
}

} // verus!
