//! Substitution in items that bring parameters of their own into scope.
//!
//! The parameters of an item hide outer parameters of the same name in the
//! whole item. What is searched and rewritten is what the item's parameters
//! carry, the item's header, what it gives, and its body.

use vstd::prelude::*;
use crate::arms::conflict_of;
use crate::binder::{
    collect_generics, collect_hidden, collect_option, generics_occurrences, generics_substituted,
    hidden_occurrences, hidden_substituted, substitute_generics, substitute_hidden,
};
use crate::conflict::{param_list_name_conflict, params_conflict};
use crate::error::{plain_error, Error, ErrorView, Reason};
use crate::generics::{option_view, GenericParam, GenericParamView};
use crate::occurrence::{collect_list, list_occurrences, option_occurrences, Occurrence};
use crate::output::{LoweredItem, LoweredItemView};
use crate::params::{apply_renames, renamed_body};
use crate::rename::{
    rename_params, renamed_generics, renames, renames_view, Conflict, Rename, RenameView,
};
use crate::subst::{substitute_node, substituted, ArgView, ParamSubstArg};
use crate::substitutable::{ParamSubst, Substitutable};
use crate::syntax::{nodes_view, Node, NodeView, Span};

verus! {

/// The occurrences of `p` in an item, in source order. Where a parameter of
/// the item hides `p`, only the bounds of the lifetime parameters that hide
/// it count, which are read in the scope round the item.
pub open spec fn item_occurrences(item: LoweredItemView, p: GenericParamView) -> Seq<Occurrence> {
    if params_conflict(p, item.generics.params) {
        hidden_occurrences(item.generics.params, p)
    } else {
        generics_occurrences(item.generics, p) + list_occurrences(item.header, p, false)
            + option_occurrences(item.output, p) + option_occurrences(item.body, p)
    }
}

/// A list of trees after the renamings `rs` and with `a` in the place of `p`.
pub open spec fn scoped_list(nodes: Seq<NodeView>, rs: Seq<RenameView>, p: GenericParamView, a: ArgView) -> Seq<
    NodeView,
> {
    Seq::new(nodes.len(), |i: int| substituted(renamed_body::<Node>(nodes[i], rs), p, a, false))
}

/// An optional tree after the renamings `rs` and with `a` in the place of
/// `p`.
pub open spec fn scoped_option(node: Option<NodeView>, rs: Seq<RenameView>, p: GenericParamView, a: ArgView) -> Option<
    NodeView,
> {
    match node {
        Some(n) => Some(substituted(renamed_body::<Node>(n, rs), p, a, false)),
        None => None,
    }
}

/// The item with `a` in the place of `p`.
///
/// An item that does not refer to `p` stays as it is. In an item that hides
/// `p`, `a` takes the place of `p` in the bounds of the lifetime parameters
/// that hide it, and nowhere else. Else the parameters of the item that the
/// argument would be captured by are renamed throughout the item, and then
/// `a` takes the place of `p`.
pub open spec fn item_substituted(item: LoweredItemView, p: GenericParamView, a: ArgView) -> LoweredItemView {
    if item_occurrences(item, p).len() == 0 {
        item
    } else if params_conflict(p, item.generics.params) {
        LoweredItemView {
            kind: item.kind,
            part: item.part,
            attrs: item.attrs,
            vis: item.vis,
            ident: item.ident,
            generics: hidden_substituted(item.generics, p, a),
            header: item.header,
            output: item.output,
            body: item.body,
        }
    } else {
        let c = conflict_of(a);
        let n = item.generics.params.len();
        let rs = renames(c, item.generics, n);
        LoweredItemView {
            kind: item.kind,
            part: item.part,
            attrs: item.attrs,
            vis: item.vis,
            ident: item.ident,
            generics: generics_substituted(renamed_generics(c, item.generics, n), p, a),
            header: scoped_list(item.header, rs, p, a),
            output: scoped_option(item.output, rs, p, a),
            body: scoped_option(item.body, rs, p, a),
        }
    }
}

/// Appends the occurrences of `p` in an item to `out`.
pub fn collect_item(item: &LoweredItem, p: &GenericParam, out: &mut Vec<Occurrence>)
    ensures
        final(out)@ == old(out)@ + item_occurrences(item@, p@),
{
    if param_list_name_conflict(p, &item.generics.params) {
        collect_hidden(&item.generics.params, p, out);
        return ;
    }
    collect_generics(&item.generics, p, out);
    collect_list(&item.header, p, false, out);
    collect_option(&item.output, p, out);
    collect_option(&item.body, p, out);
    assert(out@ =~= old(out)@ + item_occurrences(item@, p@));
}

/// Applies renamings and then one substitution to every tree of a list.
fn substitute_scoped_list(nodes: &mut Vec<Node>, rs: &Vec<Rename>, p: &GenericParam, a: ParamSubstArg)
    ensures
        nodes_view(final(nodes)@) == scoped_list(nodes_view(old(nodes)@), renames_view(rs@), p@, a@),
{
    let ghost before = nodes@;
    let mut i: usize = 0;
    while i < nodes.len()
        invariant
            i <= nodes@.len(),
            nodes@.len() == before.len(),
            forall|j: int|
                0 <= j < i ==> (#[trigger] nodes@[j])@ == substituted(
                    renamed_body::<Node>(before[j]@, renames_view(rs@)),
                    p@,
                    a@,
                    false,
                ),
            forall|j: int| i <= j < before.len() ==> nodes@[j] == before[j],
        decreases nodes@.len() - i,
    {
        apply_renames(&mut nodes[i], rs);
        substitute_node(&mut nodes[i], p, a, false);
        i += 1;
    }
    assert(nodes_view(nodes@) =~= scoped_list(nodes_view(before), renames_view(rs@), p@, a@));
}

/// Applies renamings and then one substitution to an optional tree.
fn substitute_scoped_option(node: &mut Option<Node>, rs: &Vec<Rename>, p: &GenericParam, a: ParamSubstArg)
    ensures
        option_view(*final(node)) == scoped_option(option_view(*old(node)), renames_view(rs@), p@, a@),
{
    match node {
        Some(n) => {
            apply_renames(n, rs);
            substitute_node(n, p, a, false);
        },
        None => {},
    }
}

/// Puts `a` in the place of `p` in an item.
pub fn substitute_item(item: &mut LoweredItem, p: &GenericParam, a: ParamSubstArg)
    ensures
        final(item)@ == item_substituted(old(item)@, p@, a@),
{
    let mut found: Vec<Occurrence> = Vec::new();
    collect_item(item, p, &mut found);
    if found.len() == 0 {
        return ;
    }
    if param_list_name_conflict(p, &item.generics.params) {
        substitute_hidden(&mut item.generics, p, a);
        return ;
    }
    let none: Vec<GenericParam> = Vec::new();
    let conflict = match a {
        ParamSubstArg::Param(q) => Conflict::Param(q),
        ParamSubstArg::Arg(m) => Conflict::Node(m),
        ParamSubstArg::TestOnly => Conflict::Params(&none),
    };
    assert(conflict@ == conflict_of(a@)) by {
        if a is TestOnly {
            assert(crate::generics::params_view(none@) =~= Seq::empty());
        }
    }
    let rs = rename_params(&mut item.generics, &conflict);
    substitute_scoped_list(&mut item.header, &rs, p, a);
    substitute_scoped_option(&mut item.output, &rs, p, a);
    substitute_scoped_option(&mut item.body, &rs, p, a);
    substitute_generics(&mut item.generics, p, a);
}

impl Substitutable for LoweredItem {
    open spec fn unsupported(v: LoweredItemView) -> Option<ErrorView> {
        None
    }

    open spec fn occurrences_in(v: LoweredItemView, p: GenericParamView) -> Seq<Occurrence> {
        item_occurrences(v, p)
    }

    open spec fn substituted_in(v: LoweredItemView, p: GenericParamView, a: ArgView) -> LoweredItemView {
        item_substituted(v, p, a)
    }

    proof fn lemma_absent(v: LoweredItemView, p: GenericParamView, a: ArgView) {
    }

    fn check_supported(&self) -> (res: Result<(), Error>) {
        Ok(())
    }

    fn collect_references(&self, param: &GenericParam, out: &mut Vec<Occurrence>) {
        collect_item(self, param, out);
    }

    fn substitute_impl(&mut self, subst: &ParamSubst) {
        substitute_item(self, subst.param, subst.arg);
    }
}

/// An item of an implementation: a constant, a type or a function, or
/// something else that is not rewritten.
#[derive(Debug, PartialEq, Eq, Hash)]
pub enum ImplItem {
    Item(LoweredItem),
    /// Any other item; only its place is known.
    Other { span: Span },
}

pub enum ImplItemView {
    Item(LoweredItemView),
    Other { span: Span },
}

impl View for ImplItem {
    type V = ImplItemView;

    open spec fn view(&self) -> ImplItemView {
        match self {
            ImplItem::Item(item) => ImplItemView::Item(item@),
            ImplItem::Other { span } => ImplItemView::Other { span: *span },
        }
    }
}

impl Substitutable for ImplItem {
    open spec fn unsupported(v: ImplItemView) -> Option<ErrorView> {
        match v {
            ImplItemView::Item(_) => None,
            ImplItemView::Other { span } => Some(plain_error(Reason::UnsupportedItem, span)),
        }
    }

    open spec fn occurrences_in(v: ImplItemView, p: GenericParamView) -> Seq<Occurrence> {
        match v {
            ImplItemView::Item(item) => item_occurrences(item, p),
            ImplItemView::Other { .. } => Seq::empty(),
        }
    }

    open spec fn substituted_in(v: ImplItemView, p: GenericParamView, a: ArgView) -> ImplItemView {
        match v {
            ImplItemView::Item(item) => ImplItemView::Item(item_substituted(item, p, a)),
            ImplItemView::Other { .. } => v,
        }
    }

    proof fn lemma_absent(v: ImplItemView, p: GenericParamView, a: ArgView) {
    }

    fn check_supported(&self) -> (res: Result<(), Error>) {
        match self {
            ImplItem::Item(_) => Ok(()),
            ImplItem::Other { span } => Err(Error::new(Reason::UnsupportedItem, *span)),
        }
    }

    fn collect_references(&self, param: &GenericParam, out: &mut Vec<Occurrence>) {
        match self {
            ImplItem::Item(item) => {
                collect_item(item, param, out);
            },
            ImplItem::Other { .. } => {
                assert(out@ =~= old(out)@ + Seq::<Occurrence>::empty());
            },
        }
    }

    fn substitute_impl(&mut self, subst: &ParamSubst) {
        match self {
            ImplItem::Item(item) => {
                substitute_item(item, subst.param, subst.arg);
            },
            ImplItem::Other { .. } => {},
        }
    }
}

} // verus!
