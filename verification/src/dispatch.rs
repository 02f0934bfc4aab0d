//! Lowering of free items. A free item whose body is a `match` on one of its
//! type parameters becomes an item of the trait that bounds the parameter:
//! the arms define it for the variants, and the free item refers to it.

use vstd::prelude::*;
use vstd::string::StringExecFns;
use crate::depend::{bound_path, is_single_segment, node_is_single_segment};
use crate::error::{plain_error, Error, ErrorView, Reason};
use crate::expr::{
    clone_expr, lemma_view_match, TypeLevelExpr, TypeLevelExprMatch, TypeLevelExprMatchView,
    TypeLevelExprView,
};
use crate::generics::{
    clone_option, context_view, ident_path, make_ident_path, params_view, GenericParam,
    GenericParamView, Generics, GenericsContext, GenericsView, ScopeView,
};
use crate::indirection::{captures_view, isolate_type_param, isolated, type_bounds};
use crate::item::{ItemKind, MetaItemList, MetaItemView, TraitContents};
use crate::merge::{
    arms_merged, def_at, error_at, find_trait, ident_error, merge_arms, trait_position,
};
use crate::output::{
    contains_item, extracted_generics, impl_variants_view, items_contain, lowered_view,
    outputs_view, LoweredItem, LoweredItemView, OutputImplVariant, OutputImplVariantView,
    OutputItemTraitDef, OutputItemTraitDefView, OutputMetaItem, OutputMetaItemView,
};
use crate::syntax::{
    clone_node, clone_nodes, lemma_view_path, lemma_view_tree, nodes_view, ExprKind, Ident,
    IdentView, Node, NodeKind, NodeView, PatKind, PathPlace, PathSegment, PathSegmentView, QSelf,
    QSelfView, Span,
};

verus! {

/// The type parameter that a `match` is made on: the one matched type, where
/// it is a bare name.
pub open spec fn scrutinee(m: TypeLevelExprMatchView) -> Option<IdentView> {
    if m.types.len() == 1 && m.types[0] is Path && m.types[0]->place == PathPlace::Type
        && is_single_segment(m.types[0]) && m.types[0]->segments[0].arguments is None {
        Some(m.types[0]->segments[0].ident)
    } else {
        None
    }
}

/// The trait that bounds a parameter: the last segment of the first bound
/// from `i` on that is the path of a trait in one segment.
pub open spec fn dispatch_trait(bounds: Seq<NodeView>, i: int) -> Option<PathSegmentView>
    decreases bounds.len() - i,
{
    if i < 0 || i >= bounds.len() {
        None
    } else {
        match bound_path(bounds[i]) {
            Some(path) => if is_single_segment(path) {
                Some(path->segments[0])
            } else {
                dispatch_trait(bounds, i + 1)
            },
            None => dispatch_trait(bounds, i + 1),
        }
    }
}

/// The name of the item that a trait gets for the `match` of a free item.
pub open spec fn internal_ident(ident: IdentView) -> IdentView {
    IdentView { name: "__"@ + ident.name, span: ident.span }
}

/// The parameters of a list of captures, in order.
pub open spec fn captured_params(captured: Seq<(GenericParamView, NodeView)>) -> Seq<GenericParamView> {
    Seq::new(captured.len(), |i: int| captured[i].0)
}

/// The arguments of a list of captures, in order.
pub open spec fn captured_args(captured: Seq<(GenericParamView, NodeView)>) -> Seq<NodeView> {
    Seq::new(captured.len(), |i: int| captured[i].1)
}

/// The path `<subject as Trait>::internal<args>` by which a free item refers
/// to the item that its `match` became.
pub open spec fn dispatch_path(
    place: PathPlace,
    subject: IdentView,
    trait_segment: PathSegmentView,
    internal: IdentView,
    args: Seq<NodeView>,
) -> NodeView {
    NodeView::Path {
        place,
        qself: Some(
            QSelfView { ty: Box::new(ident_path(PathPlace::Type, subject)), position: 1, as_token: true },
        ),
        leading_colon: false,
        segments: seq![
            trait_segment,
            PathSegmentView {
                ident: internal,
                arguments: if args.len() == 0 {
                    None
                } else {
                    Some(
                        Box::new(
                            NodeView::Tree {
                                kind: NodeKind::AngleBracketed,
                                text: Seq::empty(),
                                span: internal.span,
                                children: args,
                            },
                        ),
                    )
                },
            },
        ],
    }
}

/// The name that an input of a function binds, where the input is a plain
/// name with a type.
pub open spec fn input_name(input: NodeView) -> Option<IdentView> {
    if input is Tree && input->kind == NodeKind::FnArg && input->children.len() == 2
        && input->children[0] is Tree && input->children[0]->kind == NodeKind::Pat(PatKind::Ident)
        && input->children[0]->children.len() == 0 {
        Some(IdentView { name: input->children[0]->text, span: input->children[0]->span })
    } else {
        None
    }
}

/// Whether every input of a function is a plain name with a type.
pub open spec fn inputs_plain(inputs: Seq<NodeView>) -> bool {
    forall|i: int| 0 <= i < inputs.len() ==> (#[trigger] input_name(inputs[i])) is Some
}

/// The body by which a free item refers to the item that its `match`
/// became: for a type the path of that item, for a function a call of it that
/// hands the inputs on.
pub open spec fn dispatch_body(
    kind: ItemKind,
    inputs: Seq<NodeView>,
    subject: IdentView,
    trait_segment: PathSegmentView,
    internal: IdentView,
    args: Seq<NodeView>,
) -> NodeView {
    match kind {
        ItemKind::Fn => NodeView::Tree {
            kind: NodeKind::Expr(ExprKind::Call),
            text: Seq::empty(),
            span: internal.span,
            children: seq![dispatch_path(PathPlace::Expr, subject, trait_segment, internal, args)]
                + Seq::new(
                inputs.len(),
                |i: int| ident_path(PathPlace::Expr, input_name(inputs[i])->0),
            ),
        },
        _ => dispatch_path(PathPlace::Type, subject, trait_segment, internal, args),
    }
}

/// A trait with one more item, made for the `match` of a free item, and with
/// the variants that the arms gave.
pub open spec fn with_internal(
    entry: OutputItemTraitDefView,
    variants: Seq<OutputImplVariantView>,
    internal: LoweredItemView,
) -> OutputItemTraitDefView {
    OutputItemTraitDefView {
        source: entry.source,
        ident: entry.ident,
        extracted_generics: entry.extracted_generics,
        variants: Some(variants),
        impl_items: entry.impl_items.push(internal),
        dependent_idents: entry.dependent_idents,
        next_internal_item_idx: if entry.next_internal_item_idx < usize::MAX {
            (entry.next_internal_item_idx + 1) as usize
        } else {
            entry.next_internal_item_idx
        },
    }
}

/// What the trait declares for the `match` of a free item: an item of the
/// free item's kind and header, under the internal name, with the captured
/// parameters as its own.
pub open spec fn internal_item(free: LoweredItemView, captured: Seq<(GenericParamView, NodeView)>) -> LoweredItemView {
    LoweredItemView {
        kind: free.kind,
        part: None,
        attrs: Seq::empty(),
        vis: Seq::empty(),
        ident: internal_ident(free.ident),
        generics: GenericsView { params: captured_params(captured), where_clause: Seq::empty() },
        header: free.header,
        output: free.output,
        body: None,
    }
}

/// A trait after the item for the `match` of a free item was merged into
/// it: the name of the item must be new to the trait, and the arms of the
/// lifted `match` are merged into the variants.
pub open spec fn internal_merged(
    entry: OutputItemTraitDefView,
    closed: bool,
    internal: LoweredItemView,
    lifted: TypeLevelExprView,
    span: Span,
) -> Result<OutputItemTraitDefView, ErrorView> {
    if items_contain(entry.impl_items, internal.ident.name) {
        Err(ident_error(Reason::DuplicateItem, internal.ident))
    } else if !(lifted is Match) {
        Err(plain_error(Reason::OneTypeExpected, span))
    } else {
        match arms_merged(
            match entry.variants {
                Some(variants) => variants,
                None => Seq::empty(),
            },
            closed,
            entry.extracted_generics,
            internal,
            lifted->Match_0.arms,
            lifted->Match_0.arms.len(),
        ) {
            Err(e) => Err(e),
            Ok(variants) => Ok(with_internal(entry, variants, internal)),
        }
    }
}

/// What was registered and lowered after a free item was lowered, or why it
/// cannot be. `free` is the item without its body.
///
/// A plain body stays. A `match` must be made on a type parameter of the item
/// by its bare name. The `match` is lifted out of the item's parameters with
/// that parameter set apart as `Self`; the first trait that bounds the
/// parameter gets an item for it, which the arms define for the variants; the
/// free item refers to that item.
pub open spec fn free_lowered(
    items: Seq<MetaItemView>,
    outputs: Seq<OutputMetaItemView>,
    free: LoweredItemView,
    body: TypeLevelExprView,
) -> Result<Seq<OutputMetaItemView>, ErrorView> {
    match body {
        TypeLevelExprView::Expr(n) => Ok(outputs.push(OutputMetaItemView::Item(free.with_body(n)))),
        TypeLevelExprView::Match(m) => match scrutinee(m) {
            None => Err(plain_error(Reason::OneTypeExpected, free.ident.span)),
            Some(subject) => if free.kind == ItemKind::Fn && !inputs_plain(free.header) {
                Err(plain_error(Reason::UnsupportedItem, free.ident.span))
            } else {
                match isolated::<TypeLevelExpr>(
                    body,
                    Seq::empty(),
                    seq![ScopeView::Generics(free.generics)],
                    subject,
                ) {
                    Err(e) => Err(e),
                    Ok((q, lifted)) => match dispatch_trait(type_bounds(q), 0) {
                        None => Err(ident_error(Reason::NoTraitBound, subject)),
                        Some(segment) => match trait_position(outputs, segment.ident.name, 0) {
                            None => Err(ident_error(Reason::TraitNotFound, segment.ident)),
                            Some(t) => {
                                let entry = outputs[t]->TraitDef_0;
                                let internal = internal_item(free, lifted.captured);
                                match def_at(items, entry.source) {
                                    None => Err(ident_error(Reason::TraitNotFound, segment.ident)),
                                    Some(def) => match internal_merged(
                                        entry,
                                        def.contents is Enum,
                                        internal,
                                        lifted.expr,
                                        free.ident.span,
                                    ) {
                                        Err(e) => Err(e),
                                        Ok(after) => Ok(
                                            outputs.update(t, OutputMetaItemView::TraitDef(after)).push(
                                                OutputMetaItemView::Item(
                                                    free.with_body(
                                                        dispatch_body(
                                                            free.kind,
                                                            free.header,
                                                            subject,
                                                            segment,
                                                            internal.ident,
                                                            captured_args(lifted.captured),
                                                        ),
                                                    ),
                                                ),
                                            ),
                                        ),
                                    },
                                }
                            },
                        },
                    },
                }
            },
        },
    }
}

/// The type parameter that a `match` is made on.
pub(crate) fn find_scrutinee(m: &TypeLevelExprMatch) -> (res: Option<Ident>)
    ensures
        match res {
            Some(ident) => scrutinee(m@) == Some(ident@),
            None => scrutinee(m@) is None,
        },
{
    if m.types.len() != 1 {
        return None;
    }
    let ty = &m.types[0];
    assert(m@.types[0] == ty@);
    match ty {
        Node::Path { place, segments, .. } => {
            proof {
                lemma_view_path(ty);
            }
            if *place == PathPlace::Type && node_is_single_segment(ty) && segments[0].arguments.is_none() {
                assert(ty@->segments[0] == segments@[0]@);
                Some(segments[0].ident.clone())
            } else {
                None
            }
        },
        _ => None,
    }
}

/// The trait that bounds a parameter.
fn find_dispatch_trait(bounds: &Vec<Node>) -> (res: Option<PathSegment>)
    ensures
        match res {
            Some(segment) => dispatch_trait(nodes_view(bounds@), 0) == Some(segment@),
            None => dispatch_trait(nodes_view(bounds@), 0) is None,
        },
{
    let ghost views = nodes_view(bounds@);
    let mut i: usize = 0;
    while i < bounds.len()
        invariant
            i <= bounds@.len(),
            views == nodes_view(bounds@),
            dispatch_trait(views, i as int) == dispatch_trait(views, 0),
        decreases bounds@.len() - i,
    {
        assert(views[i as int] == bounds@[i as int]@);
        match &bounds[i] {
            Node::Tree { kind, children, .. } => {
                proof {
                    lemma_view_tree(&bounds@[i as int]);
                }
                if *kind == NodeKind::TraitBound && children.len() > 0 {
                    let path = &children[children.len() - 1];
                    assert(nodes_view(children@).last() == path@);
                    match path {
                        Node::Path { segments, .. } => {
                            proof {
                                lemma_view_path(path);
                            }
                            if node_is_single_segment(path) {
                                assert(path@->segments[0] == segments@[0]@);
                                return Some(segments[0].clone());
                            }
                        },
                        _ => {},
                    }
                }
            },
            _ => {},
        }
        i += 1;
    }
    None
}

/// The name that an input of a function binds.
fn name_of_input(input: &Node) -> (res: Option<Ident>)
    ensures
        match res {
            Some(ident) => input_name(input@) == Some(ident@),
            None => input_name(input@) is None,
        },
{
    match input {
        Node::Tree { kind, children, .. } => {
            proof {
                lemma_view_tree(input);
            }
            if *kind != NodeKind::FnArg || children.len() != 2 {
                return None;
            }
            let pat = &children[0];
            assert(input@->children[0] == pat@);
            match pat {
                Node::Tree { kind, text, span, children } => {
                    proof {
                        lemma_view_tree(pat);
                    }
                    if *kind == NodeKind::Pat(PatKind::Ident) && children.len() == 0 {
                        Some(Ident { name: text.clone(), span: *span })
                    } else {
                        None
                    }
                },
                _ => None,
            }
        },
        _ => None,
    }
}

/// The inputs of a function as arguments of a call, where every input is a
/// plain name with a type.
fn forward_inputs(inputs: &Vec<Node>) -> (res: Option<Vec<Node>>)
    ensures
        match res {
            Some(args) => inputs_plain(nodes_view(inputs@)) && nodes_view(args@) == Seq::new(
                inputs@.len(),
                |i: int| ident_path(PathPlace::Expr, input_name(nodes_view(inputs@)[i])->0),
            ),
            None => !inputs_plain(nodes_view(inputs@)),
        },
{
    let ghost views = nodes_view(inputs@);
    let mut args: Vec<Node> = Vec::new();
    let mut i: usize = 0;
    while i < inputs.len()
        invariant
            i <= inputs@.len(),
            views == nodes_view(inputs@),
            args@.len() == i,
            forall|j: int| 0 <= j < i ==> (#[trigger] input_name(views[j])) is Some,
            forall|j: int|
                0 <= j < i ==> (#[trigger] args@[j])@ == ident_path(
                    PathPlace::Expr,
                    input_name(views[j])->0,
                ),
        decreases inputs@.len() - i,
    {
        assert(views[i as int] == inputs@[i as int]@);
        match name_of_input(&inputs[i]) {
            Some(ident) => {
                args.push(make_ident_path(PathPlace::Expr, ident));
            },
            None => {
                return None;
            },
        }
        i += 1;
    }
    assert(nodes_view(args@) =~= Seq::new(
        inputs@.len(),
        |i: int| ident_path(PathPlace::Expr, input_name(views[i])->0),
    ));
    Some(args)
}

/// Splits a list of captures into the parameters and the arguments.
fn split_captures(captured: Vec<(GenericParam, Node)>) -> (res: (Vec<GenericParam>, Vec<Node>))
    ensures
        params_view(res.0@) == captured_params(captures_view(captured@)),
        nodes_view(res.1@) == captured_args(captures_view(captured@)),
{
    let mut params: Vec<GenericParam> = Vec::new();
    let mut args: Vec<Node> = Vec::new();
    let mut i: usize = 0;
    while i < captured.len()
        invariant
            i <= captured@.len(),
            params@.len() == i,
            args@.len() == i,
            forall|j: int| 0 <= j < i ==> (#[trigger] params@[j])@ == captured@[j].0@,
            forall|j: int| 0 <= j < i ==> (#[trigger] args@[j])@ == captured@[j].1@,
        decreases captured@.len() - i,
    {
        params.push(captured[i].0.clone());
        args.push(clone_node(&captured[i].1));
        i += 1;
    }
    assert(params_view(params@) =~= captured_params(captures_view(captured@)));
    assert(nodes_view(args@) =~= captured_args(captures_view(captured@)));
    (params, args)
}

/// Builds the path by which a free item refers to the item that its `match`
/// became.
fn make_dispatch_path(
    place: PathPlace,
    subject: &Ident,
    trait_segment: PathSegment,
    internal: &Ident,
    args: Vec<Node>,
) -> (path: Node)
    ensures
        path@ == dispatch_path(place, subject@, trait_segment@, internal@, nodes_view(args@)),
{
    let arguments = if args.len() == 0 {
        None
    } else {
        let tree = Node::Tree {
            kind: NodeKind::AngleBracketed,
            text: String::new(),
            span: internal.span,
            children: args,
        };
        proof {
            lemma_view_tree(&tree);
        }
        Some(Box::new(tree))
    };
    let mut segments: Vec<PathSegment> = Vec::new();
    segments.push(trait_segment);
    segments.push(PathSegment { ident: internal.clone(), arguments });
    let path = Node::Path {
        place,
        qself: Some(
            QSelf {
                ty: Box::new(make_ident_path(PathPlace::Type, subject.clone())),
                position: 1,
                as_token: true,
            },
        ),
        leading_colon: false,
        segments,
    };
    proof {
        lemma_view_path(&path);
        assert(path@->segments =~= dispatch_path(
            place,
            subject@,
            trait_segment@,
            internal@,
            nodes_view(args@),
        )->segments);
    }
    path
}

/// Merges the item for the `match` of a free item into its trait.
fn merge_internal(
    entry: &mut OutputItemTraitDef,
    closed: bool,
    internal: LoweredItem,
    lifted: &TypeLevelExpr,
    span: Span,
) -> (res: Result<(), Error>)
    ensures
        match internal_merged(old(entry)@, closed, internal@, lifted@, span) {
            Ok(after) => res is Ok && final(entry)@ == after,
            Err(e) => res is Err && res->Err_0@ == e,
        },
{
    if contains_item(&entry.impl_items, &internal.ident.name) {
        return Err(error_at(Reason::DuplicateItem, &internal.ident));
    }
    let arms = match lifted {
        TypeLevelExpr::Match(m) => {
            proof {
                lemma_view_match(lifted);
            }
            &m.arms
        },
        TypeLevelExpr::Expr(_) => {
            return Err(Error::new(Reason::OneTypeExpected, span));
        },
    };
    let mut variants = match entry.variants.take() {
        Some(variants) => variants,
        None => {
            let fresh: Vec<OutputImplVariant> = Vec::new();
            assert(impl_variants_view(fresh@) =~= Seq::empty());
            fresh
        },
    };
    match merge_arms(&mut variants, closed, &entry.extracted_generics, &internal, arms) {
        Err(e) => {
            return Err(e);
        },
        Ok(_) => {},
    }
    entry.variants = Some(variants);
    let ghost items_before = lowered_view(entry.impl_items@);
    entry.impl_items.push(internal);
    assert(lowered_view(entry.impl_items@) =~= items_before.push(internal@));
    if entry.next_internal_item_idx < usize::MAX {
        entry.next_internal_item_idx = entry.next_internal_item_idx + 1;
    }
    Ok(())
}

/// Builds the body by which a free item refers to the item that its `match`
/// became. `forwarded` holds the inputs of a function as arguments.
fn make_dispatch_body(
    kind: ItemKind,
    forwarded: Vec<Node>,
    subject: &Ident,
    trait_segment: PathSegment,
    internal: &Ident,
    args: Vec<Node>,
) -> (body: Node)
    ensures
        kind == ItemKind::Fn ==> body@ == (NodeView::Tree {
            kind: NodeKind::Expr(ExprKind::Call),
            text: Seq::empty(),
            span: internal@.span,
            children: seq![
                dispatch_path(PathPlace::Expr, subject@, trait_segment@, internal@, nodes_view(args@)),
            ] + nodes_view(forwarded@),
        }),
        kind != ItemKind::Fn ==> body@ == dispatch_path(
            PathPlace::Type,
            subject@,
            trait_segment@,
            internal@,
            nodes_view(args@),
        ),
{
    match kind {
        ItemKind::Fn => {
            let path = make_dispatch_path(PathPlace::Expr, subject, trait_segment, internal, args);
            let mut children: Vec<Node> = Vec::new();
            children.push(path);
            let ghost first = nodes_view(children@);
            let ghost rest = nodes_view(forwarded@);
            let mut forwarded = forwarded;
            children.append(&mut forwarded);
            assert(nodes_view(children@) =~= first + rest);
            assert(first =~= seq![path@]);
            let call = Node::Tree {
                kind: NodeKind::Expr(ExprKind::Call),
                text: String::new(),
                span: internal.span,
                children,
            };
            proof {
                lemma_view_tree(&call);
            }
            call
        },
        _ => make_dispatch_path(PathPlace::Type, subject, trait_segment, internal, args),
    }
}

/// Builds what the trait declares for the `match` of a free item.
fn make_internal(free: &LoweredItem, params: Vec<GenericParam>) -> (internal: LoweredItem)
    ensures
        internal@ == (LoweredItemView {
            kind: free@.kind,
            part: None,
            attrs: Seq::empty(),
            vis: Seq::empty(),
            ident: internal_ident(free@.ident),
            generics: GenericsView { params: params_view(params@), where_clause: Seq::empty() },
            header: free@.header,
            output: free@.output,
            body: None,
        }),
{
    let mut name = String::from_str("__");
    name.append(free.ident.name.as_str());
    let none: Vec<Node> = Vec::new();
    assert(nodes_view(none@) =~= Seq::empty());
    let internal = LoweredItem {
        kind: free.kind,
        part: None,
        attrs: Vec::new(),
        vis: Vec::new(),
        ident: Ident { name, span: free.ident.span },
        generics: Generics { params, where_clause: none },
        header: clone_nodes(&free.header),
        output: clone_option(&free.output),
        body: None,
    };
    proof {
        assert(nodes_view(internal.attrs@) =~= Seq::empty());
        assert(nodes_view(internal.vis@) =~= Seq::empty());
    }
    internal
}

impl MetaItemList {
    /// Lowers a free item. `free` is the item without its body.
    pub(crate) fn lower_free(
        &self,
        outputs: &mut Vec<OutputMetaItem>,
        free: LoweredItem,
        body: &TypeLevelExpr,
    ) -> (res: Result<(), Error>)
        ensures
            match free_lowered(self@, outputs_view(old(outputs)@), free@, body@) {
                Ok(after) => res is Ok && outputs_view(final(outputs)@) == after,
                Err(e) => res is Err && res->Err_0@ == e,
            },
    {
        let ghost before = outputs_view(outputs@);
        let mut free = free;
        let ghost free0 = free@;
        let m = match body {
            TypeLevelExpr::Expr(n) => {
                free.body = Some(clone_node(n));
                outputs.push(OutputMetaItem::Item(free));
                assert(outputs_view(outputs@) =~= before.push(OutputMetaItemView::Item(free@)));
                return Ok(());
            },
            TypeLevelExpr::Match(m) => {
                proof {
                    lemma_view_match(body);
                }
                m
            },
        };
        let subject = match find_scrutinee(m) {
            None => {
                return Err(Error::new(Reason::OneTypeExpected, free.ident.span));
            },
            Some(subject) => subject,
        };
        let forwarded = match free.kind {
            ItemKind::Fn => match forward_inputs(&free.header) {
                None => {
                    return Err(Error::new(Reason::UnsupportedItem, free.ident.span));
                },
                Some(args) => args,
            },
            _ => Vec::new(),
        };
        let mut own = clone_expr(body);
        let empty = GenericsContext::Empty;
        let context = GenericsContext::WithGenerics(&free.generics, &empty);
        proof {
            reveal_with_fuel(context_view, 3);
            assert(context_view(&context) =~= seq![ScopeView::Generics(free0.generics)]);
        }
        let (q, captured) = match isolate_type_param(&mut own, &context, &subject) {
            Err(e) => {
                return Err(e);
            },
            Ok(found) => found,
        };
        let segment = match q {
            GenericParam::Type { bounds, .. } => match find_dispatch_trait(bounds) {
                None => {
                    return Err(error_at(Reason::NoTraitBound, &subject));
                },
                Some(segment) => segment,
            },
            _ => {
                return Err(error_at(Reason::NoTraitBound, &subject));
            },
        };
        let t = match find_trait(outputs, &segment.ident.name) {
            None => {
                return Err(error_at(Reason::TraitNotFound, &segment.ident));
            },
            Some(t) => t,
        };
        assert(before[t as int] == outputs@[t as int]@);
        let (params, args) = split_captures(captured);
        let internal = make_internal(&free, params);
        let internal_name = internal.ident.clone();
        match &mut outputs[t] {
            OutputMetaItem::TraitDef(entry) => {
                let closed = match self.def_at(entry.source) {
                    None => {
                        return Err(error_at(Reason::TraitNotFound, &segment.ident));
                    },
                    Some(def) => match &def.contents {
                        TraitContents::Enum { .. } => true,
                        TraitContents::Alias { .. } => false,
                    },
                };
                match merge_internal(entry, closed, internal, &own, free.ident.span) {
                    Err(e) => {
                        return Err(e);
                    },
                    Ok(_) => {},
                }
            },
            OutputMetaItem::Item(_) => {},
        }
        let ghost merged = outputs_view(outputs@);
        assert(merged =~= before.update(t as int, outputs@[t as int]@));
        let new_body = make_dispatch_body(free.kind, forwarded, &subject, segment, &internal_name, args);
        free.body = Some(new_body);
        outputs.push(OutputMetaItem::Item(free));
        assert(outputs_view(outputs@) =~= merged.push(OutputMetaItemView::Item(free@)));
        Ok(())
    }
}

} // verus!
