//! Merging the items of an implementation block into a registered trait. An
//! item whose body is a `match` is declared by the trait and defined once for
//! each variant that an arm names.

use vstd::prelude::*;
use crate::depend::{bounds_dependencies, generics_dependencies};
use crate::error::{plain_error, Error, ErrorView, Reason};
use crate::expr::{
    arms_view, lemma_view_match, SelectorView, TypeLevelArm, TypeLevelArmSelector,
    TypeLevelArmView, TypeLevelExpr, TypeLevelExprView,
};
use crate::generics::{clone_option, Generics, GenericsView};
use crate::item::{
    ItemKind, ItemTraitDef, ItemTraitDefView, TraitImplItem, TraitImplItemView, TraitVariant,
    TraitVariantView,
};
use crate::agreement::impl_args_error;
use crate::item::{ItemTraitImpl, ItemTraitImplView, MetaItem, MetaItemList, MetaItemView, TraitContents};
use crate::lower::{register_variant, registered_variant, underscored_generics};
use crate::output::{outputs_view, OutputMetaItem, OutputMetaItemView};
use crate::params::add_underscores_to_all_params;
use crate::subst::{node_span, span_of};
use crate::syntax::lemma_view_path;
use crate::tokens::{check_token_equality, same_meta_generics};
use crate::output::{
    contains_item, impl_variants_view, items_contain, lowered_view, LoweredItem, LoweredItemView,
    OutputImplVariant, OutputImplVariantView, OutputItemTraitDef, OutputItemTraitDefView,
};
use crate::params::{all_filled, param_args, substitute_all_params};
use crate::rename::ConflictView;
use crate::syntax::{clone_node, clone_nodes, nodes_view, Ident, IdentView, Node, NodeView};

verus! {

/// The failure that speaks of an identifier, at its place.
pub open spec fn ident_error(reason: Reason, ident: IdentView) -> ErrorView {
    ErrorView { reason, span: ident.span, name: ident.name }
}

/// The failure that speaks of an identifier, at its place.
pub fn error_at(reason: Reason, ident: &Ident) -> (error: Error)
    ensures
        error@ == ident_error(reason, ident@),
{
    Error::named(reason, ident.span, &ident.name)
}

/// The position of the first variant of the given name from `i` on.
pub open spec fn variant_position(variants: Seq<OutputImplVariantView>, name: Seq<char>, i: int) -> Option<
    int,
>
    decreases variants.len() - i,
{
    if i < 0 || i >= variants.len() {
        None
    } else if variants[i].variant.variant.ident.name == name {
        Some(i)
    } else {
        variant_position(variants, name, i + 1)
    }
}

/// The position of the first variant of the given name.
pub(crate) fn find_variant(variants: &Vec<OutputImplVariant>, name: &String) -> (res: Option<usize>)
    ensures
        match res {
            Some(i) => variant_position(impl_variants_view(variants@), name@, 0) == Some(i as int) && i
                < variants@.len(),
            None => variant_position(impl_variants_view(variants@), name@, 0) is None,
        },
{
    let ghost views = impl_variants_view(variants@);
    let mut i: usize = 0;
    while i < variants.len()
        invariant
            i <= variants@.len(),
            views == impl_variants_view(variants@),
            variant_position(views, name@, i as int) == variant_position(views, name@, 0),
        decreases variants@.len() - i,
    {
        assert(views[i as int] == variants@[i as int]@);
        if variants[i].variant.variant.ident.name == *name {
            return Some(i);
        }
        i += 1;
    }
    None
}

/// An item with the parameters of `from` replaced by those of `to`, position
/// by position.
pub open spec fn renamed_item(item: LoweredItemView, from: GenericsView, to: GenericsView) -> Result<
    LoweredItemView,
    ErrorView,
> {
    match all_filled::<LoweredItem>(
        item,
        from,
        ConflictView::Params(to.params),
        param_args(to.params),
        plain_error(Reason::TooFewParameters, to.span()),
        Reason::SuperfluousParameter,
    ) {
        Ok((after, _)) => Ok(after),
        Err(e) => Err(e),
    }
}

/// The definition that an arm gives for a variant: the item with the arm's
/// body, where the parameters that the arm's selector declares go by the
/// names of the variant's own parameters, and the parameters of the trait by
/// the names that the implementation declares them under.
pub open spec fn variant_item(
    template: LoweredItemView,
    body: NodeView,
    arm_generics: GenericsView,
    v: OutputImplVariantView,
    trait_generics: GenericsView,
) -> Result<LoweredItemView, ErrorView> {
    match renamed_item(template.with_body(body), arm_generics, v.variant.variant.generics) {
        Err(e) => Err(e),
        Ok(first) => renamed_item(first, trait_generics, v.variant.impl_generics),
    }
}

/// A variant with one more item.
pub open spec fn with_item(v: OutputImplVariantView, item: LoweredItemView) -> OutputImplVariantView {
    OutputImplVariantView { variant: v.variant, impl_items: v.impl_items.push(item) }
}

/// The variants after the variant `i` got the definition of `template` that
/// an arm gives; a second definition of one item for one variant is refused.
pub open spec fn defined_at(
    variants: Seq<OutputImplVariantView>,
    i: int,
    template: LoweredItemView,
    arm_generics: GenericsView,
    body: NodeView,
    trait_generics: GenericsView,
) -> Result<Seq<OutputImplVariantView>, ErrorView> {
    if items_contain(variants[i].impl_items, template.ident.name) {
        Err(ident_error(Reason::DuplicateItem, template.ident))
    } else {
        match variant_item(template, body, arm_generics, variants[i], trait_generics) {
            Err(e) => Err(e),
            Ok(item) => Ok(variants.update(i, with_item(variants[i], item))),
        }
    }
}

/// The variants after each of the first `n` that has no definition of
/// `template` yet got the body of the arm `_`, with the parameters of the
/// trait under the names that the implementation declares them under.
pub open spec fn defaulted(
    variants: Seq<OutputImplVariantView>,
    template: LoweredItemView,
    body: NodeView,
    trait_generics: GenericsView,
    n: nat,
) -> Result<Seq<OutputImplVariantView>, ErrorView>
    decreases n,
{
    if n == 0 || n > variants.len() {
        Ok(variants)
    } else {
        match defaulted(variants, template, body, trait_generics, (n - 1) as nat) {
            Err(e) => Err(e),
            Ok(earlier) => if n - 1 >= earlier.len() || items_contain(
                earlier[n - 1].impl_items,
                template.ident.name,
            ) {
                Ok(earlier)
            } else {
                match renamed_item(
                    template.with_body(body),
                    trait_generics,
                    earlier[n - 1].variant.impl_generics,
                ) {
                    Err(e) => Err(e),
                    Ok(item) => Ok(earlier.update(n - 1, with_item(earlier[n - 1], item))),
                }
            },
        }
    }
}

/// A failure on the way stays the outcome, however many variants follow.
pub proof fn lemma_defaulted_failure(
    variants: Seq<OutputImplVariantView>,
    template: LoweredItemView,
    body: NodeView,
    trait_generics: GenericsView,
    k: nat,
    n: nat,
)
    requires
        k <= n <= variants.len(),
        defaulted(variants, template, body, trait_generics, k) is Err,
    ensures
        defaulted(variants, template, body, trait_generics, n) == defaulted(
            variants,
            template,
            body,
            trait_generics,
            k,
        ),
    decreases n,
{
    if k < n {
        lemma_defaulted_failure(variants, template, body, trait_generics, k, (n - 1) as nat);
    }
}

/// The variants after one arm of the `match` that defines `template` was
/// merged.
///
/// The arm has one selector and a plain body. A selector that names a variant
/// defines the item for that variant; where the variants are not `closed`, a
/// name that is not known yet makes a new variant, declared as the selector
/// declares it. The selector `_` defines the item for every variant that has
/// no definition yet.
#[verifier::opaque]
pub open spec fn arm_merged(
    variants: Seq<OutputImplVariantView>,
    closed: bool,
    trait_generics: GenericsView,
    template: LoweredItemView,
    arm: TypeLevelArmView,
) -> Result<Seq<OutputImplVariantView>, ErrorView> {
    if arm.selectors.len() != 1 {
        Err(plain_error(Reason::OneTypeExpected, template.ident.span))
    } else if !(arm.body is Expr) {
        Err(plain_error(Reason::NestedMatch, template.ident.span))
    } else {
        let body = arm.body->Expr_0;
        match arm.selectors[0] {
            SelectorView::Default { .. } => defaulted(
                variants,
                template,
                body,
                trait_generics,
                variants.len(),
            ),
            SelectorView::Specific { ident, generics } => match variant_position(
                variants,
                ident.name,
                0,
            ) {
                Some(i) => defined_at(variants, i, template, generics, body, trait_generics),
                None => if closed {
                    Err(ident_error(Reason::VariantNotFound, ident))
                } else {
                    defined_at(
                        variants.push(
                            registered_variant(
                                underscored_generics(trait_generics),
                                TraitVariantView { attrs: Seq::empty(), ident, generics },
                            ),
                        ),
                        variants.len() as int,
                        template,
                        generics,
                        body,
                        trait_generics,
                    )
                },
            },
        }
    }
}

/// The variants after the first `n` arms were merged in order, or the first
/// failure.
pub open spec fn arms_merged(
    variants: Seq<OutputImplVariantView>,
    closed: bool,
    trait_generics: GenericsView,
    template: LoweredItemView,
    arms: Seq<TypeLevelArmView>,
    n: nat,
) -> Result<Seq<OutputImplVariantView>, ErrorView>
    decreases n,
{
    if n == 0 || n > arms.len() {
        Ok(variants)
    } else {
        match arms_merged(variants, closed, trait_generics, template, arms, (n - 1) as nat) {
            Err(e) => Err(e),
            Ok(earlier) => arm_merged(earlier, closed, trait_generics, template, arms[n - 1]),
        }
    }
}

/// A failure on the way stays the outcome, however many arms follow.
pub proof fn lemma_arms_merged_failure(
    variants: Seq<OutputImplVariantView>,
    closed: bool,
    trait_generics: GenericsView,
    template: LoweredItemView,
    arms: Seq<TypeLevelArmView>,
    k: nat,
    n: nat,
)
    requires
        k <= n <= arms.len(),
        arms_merged(variants, closed, trait_generics, template, arms, k) is Err,
    ensures
        arms_merged(variants, closed, trait_generics, template, arms, n) == arms_merged(
            variants,
            closed,
            trait_generics,
            template,
            arms,
            k,
        ),
    decreases n,
{
    if k < n {
        lemma_arms_merged_failure(variants, closed, trait_generics, template, arms, k, (n - 1) as nat);
    }
}

/// Replaces the parameters of `from` in an item by those of `to`.
fn rename_item(item: LoweredItem, from: &Generics, to: &Generics) -> (res: Result<LoweredItem, Error>)
    ensures
        match renamed_item(item@, from@, to@) {
            Ok(after) => res is Ok && res->Ok_0@ == after,
            Err(e) => res is Err && res->Err_0@ == e,
        },
{
    let mut item = item;
    match substitute_all_params(&mut item, from, to) {
        Err(e) => Err(e),
        Ok(_) => Ok(item),
    }
}

/// The item of `template` with a body.
fn with_body(template: &LoweredItem, body: &Node) -> (item: LoweredItem)
    ensures
        item@ == template@.with_body(body@),
{
    let mut item = template.clone();
    item.body = Some(clone_node(body));
    item
}

/// Gives the variant `i` the definition of `template` that an arm gives.
fn define_at(
    variants: &mut Vec<OutputImplVariant>,
    i: usize,
    template: &LoweredItem,
    arm_generics: &Generics,
    body: &Node,
    trait_generics: &Generics,
) -> (res: Result<(), Error>)
    requires
        i < old(variants)@.len(),
    ensures
        match defined_at(
            impl_variants_view(old(variants)@),
            i as int,
            template@,
            arm_generics@,
            body@,
            trait_generics@,
        ) {
            Ok(after) => res is Ok && impl_variants_view(final(variants)@) == after,
            Err(e) => res is Err && res->Err_0@ == e,
        },
{
    let ghost before = impl_variants_view(variants@);
    assert(before[i as int] == variants@[i as int]@);
    if contains_item(&variants[i].impl_items, &template.ident.name) {
        return Err(error_at(Reason::DuplicateItem, &template.ident));
    }
    let first = match rename_item(
        with_body(template, body),
        arm_generics,
        &variants[i].variant.variant.generics,
    ) {
        Err(e) => {
            return Err(e);
        },
        Ok(first) => first,
    };
    let item = match rename_item(first, trait_generics, &variants[i].variant.impl_generics) {
        Err(e) => {
            return Err(e);
        },
        Ok(item) => item,
    };
    let ghost items_before = lowered_view(variants@[i as int].impl_items@);
    variants[i].impl_items.push(item);
    proof {
        assert(lowered_view(variants@[i as int].impl_items@) =~= items_before.push(item@));
        assert(impl_variants_view(variants@) =~= before.update(
            i as int,
            with_item(before[i as int], item@),
        ));
    }
    Ok(())
}

/// Gives every variant that has no definition of `template` yet the body of
/// the arm `_`.
fn define_default(
    variants: &mut Vec<OutputImplVariant>,
    template: &LoweredItem,
    body: &Node,
    trait_generics: &Generics,
) -> (res: Result<(), Error>)
    ensures
        match defaulted(
            impl_variants_view(old(variants)@),
            template@,
            body@,
            trait_generics@,
            old(variants)@.len(),
        ) {
            Ok(after) => res is Ok && impl_variants_view(final(variants)@) == after,
            Err(e) => res is Err && res->Err_0@ == e,
        },
{
    let ghost before = impl_variants_view(variants@);
    let mut i: usize = 0;
    while i < variants.len()
        invariant
            i <= variants@.len(),
            variants@.len() == before.len(),
            before == impl_variants_view(old(variants)@),
            defaulted(before, template@, body@, trait_generics@, i as nat) == Ok::<
                Seq<OutputImplVariantView>,
                ErrorView,
            >(impl_variants_view(variants@)),
        decreases variants@.len() - i,
    {
        let ghost current = impl_variants_view(variants@);
        assert(current[i as int] == variants@[i as int]@);
        if !contains_item(&variants[i].impl_items, &template.ident.name) {
            match rename_item(with_body(template, body), trait_generics, &variants[i].variant.impl_generics) {
                Err(e) => {
                    proof {
                        assert(defaulted(before, template@, body@, trait_generics@, (i + 1) as nat)
                            == Err::<Seq<OutputImplVariantView>, ErrorView>(e@));
                        lemma_defaulted_failure(
                            before,
                            template@,
                            body@,
                            trait_generics@,
                            (i + 1) as nat,
                            before.len(),
                        );
                    }
                    return Err(e);
                },
                Ok(item) => {
                    let ghost items_before = lowered_view(variants@[i as int].impl_items@);
                    variants[i].impl_items.push(item);
                    proof {
                        assert(lowered_view(variants@[i as int].impl_items@) =~= items_before.push(item@));
                        assert(impl_variants_view(variants@) =~= current.update(
                            i as int,
                            with_item(current[i as int], item@),
                        ));
                    }
                },
            }
        }
        i += 1;
    }
    Ok(())
}

/// Merges one arm of the `match` that defines `template`.
pub(crate) fn merge_arm(
    variants: &mut Vec<OutputImplVariant>,
    closed: bool,
    trait_generics: &Generics,
    template: &LoweredItem,
    arm: &TypeLevelArm,
) -> (res: Result<(), Error>)
    ensures
        match arm_merged(
            impl_variants_view(old(variants)@),
            closed,
            trait_generics@,
            template@,
            arm@,
        ) {
            Ok(after) => res is Ok && impl_variants_view(final(variants)@) == after,
            Err(e) => res is Err && res->Err_0@ == e,
        },
{
    reveal(arm_merged);
    let ghost before = impl_variants_view(variants@);
    if arm.selectors.len() != 1 {
        return Err(Error::new(Reason::OneTypeExpected, template.ident.span));
    }
    let body = match &arm.body {
        TypeLevelExpr::Expr(n) => n,
        TypeLevelExpr::Match(_) => {
            proof {
                lemma_view_match(&arm.body);
            }
            return Err(Error::new(Reason::NestedMatch, template.ident.span));
        },
    };
    assert(arm@.selectors[0] == arm.selectors@[0]@);
    match &arm.selectors[0] {
        TypeLevelArmSelector::Default { .. } => define_default(variants, template, body, trait_generics),
        TypeLevelArmSelector::Specific { ident, generics } => {
            match find_variant(variants, &ident.name) {
                Some(i) => define_at(variants, i, template, generics, body, trait_generics),
                None => {
                    if closed {
                        return Err(error_at(Reason::VariantNotFound, ident));
                    }
                    let attrs: Vec<Node> = Vec::new();
                    assert(nodes_view(attrs@) =~= Seq::empty());
                    let variant = TraitVariant { attrs, ident: ident.clone(), generics: generics.clone() };
                    let mut impl_generics = trait_generics.clone();
                    let _ = add_underscores_to_all_params(&mut impl_generics);
                    let added = register_variant(&impl_generics, &variant);
                    variants.push(added);
                    assert(impl_variants_view(variants@) =~= before.push(added@));
                    let last = variants.len() - 1;
                    define_at(variants, last, template, generics, body, trait_generics)
                },
            }
        },
    }
}

/// Merges the arms of the `match` that defines `template`, in order.
pub(crate) fn merge_arms(
    variants: &mut Vec<OutputImplVariant>,
    closed: bool,
    trait_generics: &Generics,
    template: &LoweredItem,
    arms: &Vec<TypeLevelArm>,
) -> (res: Result<(), Error>)
    ensures
        match arms_merged(
            impl_variants_view(old(variants)@),
            closed,
            trait_generics@,
            template@,
            arms_view(arms@),
            arms@.len(),
        ) {
            Ok(after) => res is Ok && impl_variants_view(final(variants)@) == after,
            Err(e) => res is Err && res->Err_0@ == e,
        },
{
    let ghost before = impl_variants_view(variants@);
    let ghost views = arms_view(arms@);
    let mut i: usize = 0;
    while i < arms.len()
        invariant
            i <= arms@.len(),
            views == arms_view(arms@),
            before == impl_variants_view(old(variants)@),
            arms_merged(before, closed, trait_generics@, template@, views, i as nat) == Ok::<
                Seq<OutputImplVariantView>,
                ErrorView,
            >(impl_variants_view(variants@)),
        decreases arms@.len() - i,
    {
        assert(views[i as int] == arms@[i as int]@);
        match merge_arm(variants, closed, trait_generics, template, &arms[i]) {
            Err(e) => {
                proof {
                    assert(arms_merged(before, closed, trait_generics@, template@, views, (i + 1) as nat)
                        == Err::<Seq<OutputImplVariantView>, ErrorView>(e@));
                    lemma_arms_merged_failure(
                        before,
                        closed,
                        trait_generics@,
                        template@,
                        views,
                        (i + 1) as nat,
                        arms@.len(),
                    );
                }
                return Err(e);
            },
            Ok(_) => {},
        }
        i += 1;
    }
    Ok(())
}

/// What a trait declares for an item of an implementation block: the item
/// without its body, in no part yet.
pub open spec fn header_of(item: TraitImplItemView) -> LoweredItemView {
    LoweredItemView {
        kind: item.kind,
        part: None,
        attrs: item.attrs,
        vis: item.vis,
        ident: item.ident,
        generics: item.generics,
        header: item.header,
        output: item.output,
        body: None,
    }
}

/// An item with the part that it belongs to.
pub open spec fn in_part(item: LoweredItemView, part: Option<IdentView>) -> LoweredItemView {
    LoweredItemView {
        kind: item.kind,
        part,
        attrs: item.attrs,
        vis: item.vis,
        ident: item.ident,
        generics: item.generics,
        header: item.header,
        output: item.output,
        body: item.body,
    }
}

/// The part that an item belongs to and the dependencies of its trait, after
/// the bounds of the item's parameters and, for a type, the bounds of the
/// item itself were looked at.
pub open spec fn item_dependencies(def: ItemTraitDefView, item: TraitImplItemView, deps: Seq<IdentView>) -> (
    Option<IdentView>,
    Seq<IdentView>,
) {
    let first = generics_dependencies(def, item.generics.params, None, deps, item.generics.params.len());
    if item.kind == ItemKind::Type {
        bounds_dependencies(def, item.header, first.0, first.1, item.header.len())
    } else {
        first
    }
}

/// Whether a `match` is made on the type `Self` by its bare name.
pub open spec fn matches_on_self(m: crate::expr::TypeLevelExprMatchView) -> bool {
    match crate::dispatch::scrutinee(m) {
        Some(subject) => subject.name == crate::generics::self_type_name(),
        None => false,
    }
}

/// The trait after one item of an implementation block was merged into it.
///
/// The name of the item must be new to the trait. An item with a plain body
/// is declared with that body, which all variants share. An item whose body
/// is a `match` on `Self` is declared without a body, and its arms are merged
/// into the variants; the variants of an alias become known in this way.
#[verifier::opaque]
pub open spec fn item_merged(
    entry: OutputItemTraitDefView,
    def: ItemTraitDefView,
    item: TraitImplItemView,
) -> Result<OutputItemTraitDefView, ErrorView> {
    if items_contain(entry.impl_items, item.ident.name) {
        Err(ident_error(Reason::DuplicateItem, item.ident))
    } else {
        let found = item_dependencies(def, item, entry.dependent_idents);
        let template = in_part(header_of(item), found.0);
        match item.body {
            TypeLevelExprView::Expr(n) => Ok(
                OutputItemTraitDefView {
                    source: entry.source,
                    ident: entry.ident,
                    extracted_generics: entry.extracted_generics,
                    variants: entry.variants,
                    impl_items: entry.impl_items.push(template.with_body(n)),
                    dependent_idents: found.1,
                    next_internal_item_idx: entry.next_internal_item_idx,
                },
            ),
            TypeLevelExprView::Match(m) => if m.types.len() != 1 {
                Err(plain_error(Reason::OneTypeExpected, item.ident.span))
            } else if !matches_on_self(m) {
                Err(plain_error(Reason::SelfExpected, item.ident.span))
            } else {
                match arms_merged(
                    match entry.variants {
                        Some(variants) => variants,
                        None => Seq::empty(),
                    },
                    def.contents is Enum,
                    entry.extracted_generics,
                    template,
                    m.arms,
                    m.arms.len(),
                ) {
                    Err(e) => Err(e),
                    Ok(variants) => Ok(
                        OutputItemTraitDefView {
                            source: entry.source,
                            ident: entry.ident,
                            extracted_generics: entry.extracted_generics,
                            variants: Some(variants),
                            impl_items: entry.impl_items.push(template),
                            dependent_idents: found.1,
                            next_internal_item_idx: entry.next_internal_item_idx,
                        },
                    ),
                }
            },
        }
    }
}

/// What a trait declares for an item of an implementation block.
fn make_header(item: &TraitImplItem) -> (res: LoweredItem)
    ensures
        res@ == header_of(item@),
{
    match item {
        TraitImplItem::Const(c) => {
            let mut header: Vec<Node> = Vec::new();
            header.push(clone_node(&c.ty));
            assert(nodes_view(header@) =~= seq![c.ty@]);
            let generics = Generics::new();
            assert(generics@.params =~= Seq::empty());
            assert(generics@.where_clause =~= Seq::empty());
            LoweredItem {
                kind: ItemKind::Const,
                part: None,
                attrs: clone_nodes(&c.attrs),
                vis: clone_nodes(&c.vis),
                ident: c.ident.clone(),
                generics,
                header,
                output: None,
                body: None,
            }
        },
        TraitImplItem::Type(t) => LoweredItem {
            kind: ItemKind::Type,
            part: None,
            attrs: clone_nodes(&t.attrs),
            vis: clone_nodes(&t.vis),
            ident: t.ident.clone(),
            generics: t.generics.clone(),
            header: clone_nodes(&t.bounds),
            output: None,
            body: None,
        },
        TraitImplItem::Fn(f) => LoweredItem {
            kind: ItemKind::Fn,
            part: None,
            attrs: clone_nodes(&f.attrs),
            vis: clone_nodes(&f.vis),
            ident: f.sig.ident.clone(),
            generics: f.sig.generics.clone(),
            header: clone_nodes(&f.sig.inputs),
            output: clone_option(&f.sig.output),
            body: None,
        },
    }
}

/// The body of an item of an implementation block.
fn body_of(item: &TraitImplItem) -> (body: &TypeLevelExpr)
    ensures
        body@ == item@.body,
{
    match item {
        TraitImplItem::Const(c) => &c.expr,
        TraitImplItem::Type(t) => &t.ty,
        TraitImplItem::Fn(f) => &f.block,
    }
}

/// Merges one item of an implementation block into its trait.
pub(crate) fn merge_item(entry: &mut OutputItemTraitDef, def: &ItemTraitDef, item: &TraitImplItem) -> (res:
    Result<(), Error>)
    ensures
        match item_merged(old(entry)@, def@, item@) {
            Ok(after) => res is Ok && final(entry)@ == after,
            Err(e) => res is Err && res->Err_0@ == e,
        },
{
    reveal(item_merged);
    let mut template = make_header(item);
    if contains_item(&entry.impl_items, &template.ident.name) {
        return Err(error_at(Reason::DuplicateItem, &template.ident));
    }
    let mut part: Option<Ident> = None;
    def.collect_dependencies_in_generics(&template.generics, &mut part, &mut entry.dependent_idents);
    match template.kind {
        ItemKind::Type => {
            def.collect_dependencies_in_bounds(&template.header, &mut part, &mut entry.dependent_idents);
        },
        _ => {},
    }
    template.part = part;
    let ghost found = item_dependencies(def@, item@, old(entry)@.dependent_idents);
    assert(template@ == in_part(header_of(item@), found.0));
    let ghost items_before = lowered_view(entry.impl_items@);
    let body = body_of(item);
    match body {
        TypeLevelExpr::Expr(n) => {
            let mut shared = template;
            shared.body = Some(clone_node(n));
            entry.impl_items.push(shared);
            assert(lowered_view(entry.impl_items@) =~= items_before.push(shared@));
            Ok(())
        },
        TypeLevelExpr::Match(m) => {
            proof {
                lemma_view_match(body);
            }
            if m.types.len() != 1 {
                return Err(Error::new(Reason::OneTypeExpected, template.ident.span));
            }
            let on_self = match crate::dispatch::find_scrutinee(m) {
                Some(subject) => {
                    let self_name = "Self".to_owned();
                    subject.name == self_name
                },
                None => false,
            };
            if !on_self {
                return Err(Error::new(Reason::SelfExpected, template.ident.span));
            }
            let closed = match &def.contents {
                TraitContents::Enum { .. } => true,
                TraitContents::Alias { .. } => false,
            };
            let mut variants = match entry.variants.take() {
                Some(variants) => variants,
                None => {
                    let none: Vec<OutputImplVariant> = Vec::new();
                    assert(impl_variants_view(none@) =~= Seq::empty());
                    none
                },
            };
            match merge_arms(&mut variants, closed, &entry.extracted_generics, &template, &m.arms) {
                Err(e) => {
                    return Err(e);
                },
                Ok(_) => {},
            }
            entry.variants = Some(variants);
            entry.impl_items.push(template);
            assert(lowered_view(entry.impl_items@) =~= items_before.push(template@));
            Ok(())
        },
    }
}

/// The trait after the first `n` items of an implementation block were merged
/// in order, or the first failure.
pub open spec fn items_merged(
    entry: OutputItemTraitDefView,
    def: ItemTraitDefView,
    items: Seq<TraitImplItemView>,
    n: nat,
) -> Result<OutputItemTraitDefView, ErrorView>
    decreases n,
{
    if n == 0 || n > items.len() {
        Ok(entry)
    } else {
        match items_merged(entry, def, items, (n - 1) as nat) {
            Err(e) => Err(e),
            Ok(earlier) => item_merged(earlier, def, items[n - 1]),
        }
    }
}

/// A failure on the way stays the outcome, however many items follow.
pub proof fn lemma_items_merged_failure(
    entry: OutputItemTraitDefView,
    def: ItemTraitDefView,
    items: Seq<TraitImplItemView>,
    k: nat,
    n: nat,
)
    requires
        k <= n <= items.len(),
        items_merged(entry, def, items, k) is Err,
    ensures
        items_merged(entry, def, items, n) == items_merged(entry, def, items, k),
    decreases n,
{
    if k < n {
        lemma_items_merged_failure(entry, def, items, k, (n - 1) as nat);
    }
}

/// Merges the items of an implementation block into its trait, in order.
pub(crate) fn merge_items(entry: &mut OutputItemTraitDef, def: &ItemTraitDef, items: &Vec<TraitImplItem>) -> (res:
    Result<(), Error>)
    ensures
        match items_merged(old(entry)@, def@, crate::item::impl_items_view(items@), items@.len()) {
            Ok(after) => res is Ok && final(entry)@ == after,
            Err(e) => res is Err && res->Err_0@ == e,
        },
{
    let ghost before = entry@;
    let ghost views = crate::item::impl_items_view(items@);
    let mut i: usize = 0;
    while i < items.len()
        invariant
            i <= items@.len(),
            views == crate::item::impl_items_view(items@),
            before == old(entry)@,
            items_merged(before, def@, views, i as nat) == Ok::<OutputItemTraitDefView, ErrorView>(
                entry@,
            ),
        decreases items@.len() - i,
    {
        assert(views[i as int] == items@[i as int]@);
        match merge_item(entry, def, &items[i]) {
            Err(e) => {
                proof {
                    assert(items_merged(before, def@, views, (i + 1) as nat) == Err::<
                        OutputItemTraitDefView,
                        ErrorView,
                    >(e@));
                    lemma_items_merged_failure(before, def@, views, (i + 1) as nat, items@.len());
                }
                return Err(e);
            },
            Ok(_) => {},
        }
        i += 1;
    }
    Ok(())
}

/// The position of the first trait of the given name from `i` on.
pub open spec fn trait_position(outputs: Seq<OutputMetaItemView>, name: Seq<char>, i: int) -> Option<int>
    decreases outputs.len() - i,
{
    if i < 0 || i >= outputs.len() {
        None
    } else if outputs[i] is TraitDef && outputs[i]->TraitDef_0.ident.name == name {
        Some(i)
    } else {
        trait_position(outputs, name, i + 1)
    }
}

/// The position of the first trait of the given name.
pub(crate) fn find_trait(outputs: &Vec<OutputMetaItem>, name: &String) -> (res: Option<usize>)
    ensures
        match res {
            Some(i) => trait_position(outputs_view(outputs@), name@, 0) == Some(i as int) && i
                < outputs@.len() && outputs@[i as int] is TraitDef,
            None => trait_position(outputs_view(outputs@), name@, 0) is None,
        },
{
    let ghost views = outputs_view(outputs@);
    let mut i: usize = 0;
    while i < outputs.len()
        invariant
            i <= outputs@.len(),
            views == outputs_view(outputs@),
            trait_position(views, name@, i as int) == trait_position(views, name@, 0),
        decreases outputs@.len() - i,
    {
        assert(views[i as int] == outputs@[i as int]@);
        match &outputs[i] {
            OutputMetaItem::TraitDef(entry) => {
                if entry.ident.name == *name {
                    return Some(i);
                }
            },
            OutputMetaItem::Item(_) => {},
        }
        i += 1;
    }
    None
}

/// The declaration of a trait at a position of the input, if there is one.
pub open spec fn def_at(items: Seq<MetaItemView>, source: usize) -> Option<ItemTraitDefView> {
    if source < items.len() && items[source as int] is TraitDef {
        Some(items[source as int]->TraitDef_0)
    } else {
        None
    }
}

impl MetaItemList {
    /// The declaration of a trait at a position of the input, if there is
    /// one.
    pub fn def_at(&self, source: usize) -> (res: Option<&ItemTraitDef>)
        ensures
            match res {
                Some(def) => def_at(self@, source) == Some(def@),
                None => def_at(self@, source) is None,
            },
    {
        if source < self.0.len() {
            assert(self@[source as int] == self.0@[source as int]@);
            match &self.0[source] {
                MetaItem::TraitDef(def) => Some(def),
                _ => None,
            }
        } else {
            None
        }
    }
}

/// Whether `n` is a path of exactly one segment.
pub open spec fn has_one_segment(n: NodeView) -> bool {
    n is Path && n->segments.len() == 1
}

/// What was registered after one implementation block was merged, or why it
/// cannot be.
///
/// The block names its trait by a path of one segment, and the trait was
/// declared. The block has the parameters of the trait, token for token, and
/// gives them to the trait as arguments, each by its bare name. Its items are
/// merged into the trait in order.
pub open spec fn impl_merged(
    items: Seq<MetaItemView>,
    outputs: Seq<OutputMetaItemView>,
    imp: ItemTraitImplView,
) -> Result<Seq<OutputMetaItemView>, ErrorView> {
    if !has_one_segment(imp.self_trait) {
        Err(plain_error(Reason::NontrivialImplPath, node_span(imp.self_trait)))
    } else {
        let segment = imp.self_trait->segments[0];
        match trait_position(outputs, segment.ident.name, 0) {
            None => Err(ident_error(Reason::TraitNotFound, segment.ident)),
            Some(t) => {
                let entry = outputs[t]->TraitDef_0;
                match def_at(items, entry.source) {
                    None => Err(ident_error(Reason::TraitNotFound, segment.ident)),
                    Some(def) => if !same_meta_generics(imp.generics, def.generics) {
                        Err(ident_error(Reason::ParamsDiffer, segment.ident))
                    } else {
                        match impl_args_error(imp.generics, segment.arguments) {
                            Some(e) => Err(e),
                            None => match items_merged(entry, def, imp.items, imp.items.len()) {
                                Err(e) => Err(e),
                                Ok(after) => Ok(outputs.update(t, OutputMetaItemView::TraitDef(after))),
                            },
                        }
                    },
                }
            },
        }
    }
}

impl MetaItemList {
    /// Merges one implementation block into what was registered.
    pub(crate) fn merge_impl(&self, outputs: &mut Vec<OutputMetaItem>, imp: &ItemTraitImpl) -> (res: Result<
        (),
        Error,
    >)
        ensures
            match impl_merged(self@, outputs_view(old(outputs)@), imp@) {
                Ok(after) => res is Ok && outputs_view(final(outputs)@) == after,
                Err(e) => res is Err && res->Err_0@ == e,
            },
    {
        let ghost before = outputs_view(outputs@);
        let segment = match &imp.self_trait {
            Node::Path { segments, .. } => {
                proof {
                    lemma_view_path(&imp.self_trait);
                }
                if segments.len() != 1 {
                    return Err(Error::new(Reason::NontrivialImplPath, span_of(&imp.self_trait)));
                }
                assert(imp@.self_trait->segments[0] == segments@[0]@);
                &segments[0]
            },
            _ => {
                return Err(Error::new(Reason::NontrivialImplPath, span_of(&imp.self_trait)));
            },
        };
        let t = match find_trait(outputs, &segment.ident.name) {
            None => {
                return Err(error_at(Reason::TraitNotFound, &segment.ident));
            },
            Some(t) => t,
        };
        assert(before[t as int] == outputs@[t as int]@);
        match &mut outputs[t] {
            OutputMetaItem::TraitDef(entry) => {
                let def = match self.def_at(entry.source) {
                    None => {
                        return Err(error_at(Reason::TraitNotFound, &segment.ident));
                    },
                    Some(def) => def,
                };
                if !check_token_equality(&imp.generics, &def.generics) {
                    return Err(error_at(Reason::ParamsDiffer, &segment.ident));
                }
                match MetaItemList::check_trait_impl_args(&imp.generics, &segment.arguments) {
                    Err(e) => {
                        return Err(e);
                    },
                    Ok(_) => {},
                }
                match merge_items(entry, def, &imp.items) {
                    Err(e) => {
                        return Err(e);
                    },
                    Ok(_) => {},
                }
            },
            OutputMetaItem::Item(_) => {},
        }
        assert(outputs_view(outputs@) =~= before.update(t as int, outputs@[t as int]@));
        Ok(())
    }
}

} // verus!
