//! What the items of a trait depend on: the trait itself, and other traits
//! whose items must be known first.

use vstd::prelude::*;
use crate::generics::{self_type_name, GenericParam, GenericParamView, Generics};
use crate::item::{
    idents_view, ItemTraitDef, ItemTraitDefView, MetaGenerics, MetaGenericsView, TraitContents,
    TraitContentsView,
};
use crate::occurrence::{is_plain_ident, node_is_ident};
use crate::syntax::{
    lemma_view_path, lemma_view_tree, nodes_view, Ident, IdentView, Node, NodeKind, NodeView,
    PathPlace, Span,
};

verus! {

/// Whether one of `idents` has the given name.
pub open spec fn names_contain(idents: Seq<IdentView>, name: Seq<char>) -> bool {
    exists|i: int| 0 <= i < idents.len() && (#[trigger] idents[i]).name == name
}

/// Whether one of `idents` has the given name.
pub fn contains_name(idents: &Vec<Ident>, name: &String) -> (res: bool)
    ensures
        res == names_contain(idents_view(idents@), name@),
{
    let mut i: usize = 0;
    while i < idents.len()
        invariant
            i <= idents@.len(),
            forall|j: int| 0 <= j < i ==> (#[trigger] idents_view(idents@)[j]).name != name@,
        decreases idents@.len() - i,
    {
        if idents[i].name == *name {
            assert(idents_view(idents@)[i as int].name == name@);
            return true;
        }
        i += 1;
    }
    false
}

/// Whether `path` is the bare name of one of the parameters.
pub open spec fn contained_in_path(g: MetaGenericsView, path: NodeView) -> bool {
    exists|i: int| 0 <= i < g.params.len() && is_plain_ident(path, (#[trigger] g.params[i]).ident().name)
}

impl MetaGenerics {
    /// Whether `path` is the bare name of one of the parameters.
    pub fn contained_in_path(&self, path: &Node) -> (res: bool)
        ensures
            res == contained_in_path(self@, path@),
    {
        let mut i: usize = 0;
        while i < self.params.len()
            invariant
                i <= self.params@.len(),
                forall|j: int| 0 <= j < i ==> !is_plain_ident(path@, (#[trigger] self@.params[j]).ident().name),
            decreases self.params@.len() - i,
        {
            if node_is_ident(path, &self.params[i].ident().name) {
                assert(is_plain_ident(path@, self@.params[i as int].ident().name));
                return true;
            }
            i += 1;
        }
        false
    }
}

/// The identifier `Self`, at no place of the input.
pub open spec fn self_ident() -> IdentView {
    IdentView { name: self_type_name(), span: Span::spec_call_site() }
}

/// The identifier `Self`, at a given place or at no place of the input.
pub fn self_type_ident(span: Option<Span>) -> (ident: Ident)
    ensures
        ident@ == (IdentView {
            name: self_type_name(),
            span: match span {
                Some(s) => s,
                None => Span::spec_call_site(),
            },
        }),
{
    let span = match span {
        Some(s) => s,
        None => Span::call_site(),
    };
    Ident::new("Self", span)
}

/// Whether `n` is an unqualified path of one segment, without a leading
/// colon.
pub open spec fn is_single_segment(n: NodeView) -> bool {
    n is Path && n->qself is None && !n->leading_colon && n->segments.len() == 1
}

/// Whether the trait is another name for the trait `name`, without a path.
pub open spec fn is_super_trait(def: ItemTraitDefView, name: Seq<char>) -> bool {
    match def.contents {
        TraitContentsView::Alias { path } => !path.leading_colon && path.segments.len() == 1
            && path.segments[0].name == name,
        TraitContentsView::Enum { .. } => false,
    }
}

/// Whether the tree is what a parameter list depends on: the type `Self`, or
/// the bare name of one of the parameters, as a type.
pub open spec fn is_dependent_arg(g: MetaGenericsView, arg: NodeView) -> bool {
    arg is Path && arg->place == PathPlace::Type && arg->qself is None && (is_plain_ident(
        arg,
        self_type_name(),
    ) || contained_in_path(g, arg))
}

/// Whether one of the arguments of a path segment is `Self` or the bare name
/// of one of the trait's parameters.
pub open spec fn arguments_dependent(def: ItemTraitDefView, arguments: Option<Box<NodeView>>) -> bool {
    match arguments {
        Some(a) => *a is Tree && a->kind == NodeKind::AngleBracketed && exists|i: int|
            0 <= i < a->children.len() && is_dependent_arg(def.generics, #[trigger] a->children[i]),
        None => false,
    }
}

/// The part that an item belongs to and the traits it depends on, after the
/// path of one of its bounds was looked at.
///
/// A path that names the trait itself, or one of the trait's parameters,
/// puts the item into the part that knows `Self`. A path that names another
/// trait adds that trait to the dependencies, once, if it is the aliased
/// trait or is applied to `Self` or to a parameter of the trait.
pub open spec fn path_dependencies(
    def: ItemTraitDefView,
    path: NodeView,
    part: Option<IdentView>,
    deps: Seq<IdentView>,
) -> (Option<IdentView>, Seq<IdentView>) {
    let first = if is_single_segment(path) {
        let segment = path->segments[0];
        if segment.ident.name == def.ident.name {
            (
                if part is None {
                    Some(self_ident())
                } else {
                    part
                },
                deps,
            )
        } else if !names_contain(deps, segment.ident.name) && (is_super_trait(
            def,
            segment.ident.name,
        ) || arguments_dependent(def, segment.arguments)) {
            (part, deps.push(segment.ident))
        } else {
            (part, deps)
        }
    } else {
        (part, deps)
    };
    if first.0 is None && path is Path && contained_in_path(def.generics, path) {
        (Some(self_ident()), first.1)
    } else {
        first
    }
}

/// The path of a trait bound; none for a lifetime or any other bound.
pub open spec fn bound_path(bound: NodeView) -> Option<NodeView> {
    if bound is Tree && bound->kind == NodeKind::TraitBound && bound->children.len() > 0
        && bound->children.last() is Path {
        Some(bound->children.last())
    } else {
        None
    }
}

/// The part and the dependencies after the first `n` of `bounds` were looked
/// at in order.
pub open spec fn bounds_dependencies(
    def: ItemTraitDefView,
    bounds: Seq<NodeView>,
    part: Option<IdentView>,
    deps: Seq<IdentView>,
    n: nat,
) -> (Option<IdentView>, Seq<IdentView>)
    decreases n,
{
    if n == 0 || n > bounds.len() {
        (part, deps)
    } else {
        let earlier = bounds_dependencies(def, bounds, part, deps, (n - 1) as nat);
        match bound_path(bounds[n - 1]) {
            Some(path) => path_dependencies(def, path, earlier.0, earlier.1),
            None => earlier,
        }
    }
}

/// The part and the dependencies after the bounds of the first `n` of
/// `params` were looked at in order. Only type parameters have such bounds.
pub open spec fn generics_dependencies(
    def: ItemTraitDefView,
    params: Seq<GenericParamView>,
    part: Option<IdentView>,
    deps: Seq<IdentView>,
    n: nat,
) -> (Option<IdentView>, Seq<IdentView>)
    decreases n,
{
    if n == 0 || n > params.len() {
        (part, deps)
    } else {
        let earlier = generics_dependencies(def, params, part, deps, (n - 1) as nat);
        match params[n - 1] {
            GenericParamView::Type { bounds, .. } => bounds_dependencies(
                def,
                bounds,
                earlier.0,
                earlier.1,
                bounds.len(),
            ),
            _ => earlier,
        }
    }
}

/// The view of an optional identifier.
pub open spec fn part_view(part: Option<Ident>) -> Option<IdentView> {
    match part {
        Some(ident) => Some(ident@),
        None => None,
    }
}

/// The dependencies with the single-segment path `path` added, unless it
/// names the trait itself or is there already.
pub open spec fn path_added(def: ItemTraitDefView, path: NodeView, deps: Seq<IdentView>) -> Seq<IdentView> {
    if is_single_segment(path) {
        ident_added(def, path->segments[0].ident, deps)
    } else {
        deps
    }
}

/// The dependencies with `ident` added, unless it names the trait itself or
/// is there already.
pub open spec fn ident_added(def: ItemTraitDefView, ident: IdentView, deps: Seq<IdentView>) -> Seq<IdentView> {
    if ident.name != def.ident.name && !names_contain(deps, ident.name) {
        deps.push(ident)
    } else {
        deps
    }
}

/// Whether `n` is an unqualified path of one segment, without a leading
/// colon.
pub fn node_is_single_segment(n: &Node) -> (res: bool)
    ensures
        res == is_single_segment(n@),
{
    match n {
        Node::Path { qself, leading_colon, segments, .. } => {
            proof {
                lemma_view_path(n);
            }
            qself.is_none() && !*leading_colon && segments.len() == 1
        },
        _ => false,
    }
}

impl ItemTraitDef {
    /// Looks at the bounds of the type parameters of `generics`.
    pub fn collect_dependencies_in_generics(
        &self,
        generics: &Generics,
        part_ident: &mut Option<Ident>,
        dependent_idents: &mut Vec<Ident>,
    )
        ensures
            (part_view(*final(part_ident)), idents_view(final(dependent_idents)@))
                == generics_dependencies(
                self@,
                generics@.params,
                part_view(*old(part_ident)),
                idents_view(old(dependent_idents)@),
                generics@.params.len(),
            ),
    {
        let ghost part0 = part_view(*part_ident);
        let ghost deps0 = idents_view(dependent_idents@);
        let ghost params = generics@.params;
        let mut i: usize = 0;
        while i < generics.params.len()
            invariant
                i <= generics.params@.len(),
                params == generics@.params,
                (part_view(*part_ident), idents_view(dependent_idents@)) == generics_dependencies(
                    self@,
                    params,
                    part0,
                    deps0,
                    i as nat,
                ),
            decreases generics.params@.len() - i,
        {
            assert(params[i as int] == generics.params@[i as int]@);
            match &generics.params[i] {
                GenericParam::Type { bounds, .. } => {
                    self.collect_dependencies_in_bounds(bounds, part_ident, dependent_idents);
                },
                _ => {},
            }
            i += 1;
        }
    }

    /// Looks at the paths of the trait bounds among `bounds`.
    pub fn collect_dependencies_in_bounds(
        &self,
        bounds: &Vec<Node>,
        part_ident: &mut Option<Ident>,
        dependent_idents: &mut Vec<Ident>,
    )
        ensures
            (part_view(*final(part_ident)), idents_view(final(dependent_idents)@))
                == bounds_dependencies(
                self@,
                nodes_view(bounds@),
                part_view(*old(part_ident)),
                idents_view(old(dependent_idents)@),
                bounds@.len(),
            ),
    {
        let ghost part0 = part_view(*part_ident);
        let ghost deps0 = idents_view(dependent_idents@);
        let ghost views = nodes_view(bounds@);
        let mut i: usize = 0;
        while i < bounds.len()
            invariant
                i <= bounds@.len(),
                views == nodes_view(bounds@),
                (part_view(*part_ident), idents_view(dependent_idents@)) == bounds_dependencies(
                    self@,
                    views,
                    part0,
                    deps0,
                    i as nat,
                ),
            decreases bounds@.len() - i,
        {
            assert(views[i as int] == bounds@[i as int]@);
            match &bounds[i] {
                Node::Tree { kind, children, .. } => {
                    proof {
                        lemma_view_tree(&bounds@[i as int]);
                    }
                    if *kind == NodeKind::TraitBound && children.len() > 0 {
                        let path = &children[children.len() - 1];
                        assert(nodes_view(children@).last() == path@);
                        match path {
                            Node::Path { .. } => {
                                self.collect_dependencies_in_trait_path(
                                    path,
                                    part_ident,
                                    dependent_idents,
                                );
                            },
                            _ => {},
                        }
                    }
                },
                _ => {},
            }
            i += 1;
        }
    }

    /// Looks at the path of one trait bound.
    pub fn collect_dependencies_in_trait_path(
        &self,
        path: &Node,
        part_ident: &mut Option<Ident>,
        dependent_idents: &mut Vec<Ident>,
    )
        ensures
            (part_view(*final(part_ident)), idents_view(final(dependent_idents)@))
                == path_dependencies(
                self@,
                path@,
                part_view(*old(part_ident)),
                idents_view(old(dependent_idents)@),
            ),
    {
        proof {
            if path is Path {
                lemma_view_path(path);
            }
        }
        if node_is_single_segment(path) {
            match path {
                Node::Path { segments, .. } => {
                    let segment = &segments[0];
                    assert(path@->segments[0] == segment@);
                    if segment.ident.name == self.ident.name {
                        if part_ident.is_none() {
                            *part_ident = Some(self_type_ident(None));
                        }
                    } else if !contains_name(dependent_idents, &segment.ident.name) && (
                    self.is_super_trait_ident(&segment.ident) || self.are_path_arguments_dependent(
                        &segment.arguments,
                    )) {
                        let ghost before = idents_view(dependent_idents@);
                        dependent_idents.push(segment.ident.clone());
                        assert(idents_view(dependent_idents@) =~= before.push(segment.ident@));
                    }
                },
                _ => {},
            }
        }
        let is_path = match path {
            Node::Path { .. } => true,
            _ => false,
        };
        if part_ident.is_none() && is_path && self.generics.contained_in_path(path) {
            *part_ident = Some(self_type_ident(None));
        }
    }

    /// Whether the trait is another name for the trait `ident`.
    pub fn is_super_trait_ident(&self, ident: &Ident) -> (res: bool)
        ensures
            res == is_super_trait(self@, ident@.name),
    {
        match &self.contents {
            TraitContents::Alias { path } => {
                if !path.leading_colon && path.segments.len() == 1 {
                    assert(path@.segments[0] == path.segments@[0]@);
                    path.segments[0].name == ident.name
                } else {
                    false
                }
            },
            TraitContents::Enum { .. } => false,
        }
    }

    /// Whether one of the arguments is `Self` or the bare name of one of the
    /// trait's parameters.
    pub fn are_path_arguments_dependent(&self, arguments: &Option<Box<Node>>) -> (res: bool)
        ensures
            res == arguments_dependent(self@, crate::syntax::boxed_view(*arguments)),
    {
        match arguments {
            Some(a) => match &**a {
                Node::Tree { kind, children, .. } => {
                    proof {
                        lemma_view_tree(&**a);
                    }
                    if *kind != NodeKind::AngleBracketed {
                        return false;
                    }
                    let ghost views = nodes_view(children@);
                    let ghost target = arguments_dependent(self@, crate::syntax::boxed_view(*arguments));
                    assert(target == exists|i: int|
                        0 <= i < views.len() && is_dependent_arg(self@.generics, #[trigger] views[i]));
                    let self_name = "Self".to_owned();
                    let mut i: usize = 0;
                    while i < children.len()
                        invariant
                            i <= children@.len(),
                            views == nodes_view(children@),
                            self_name@ == self_type_name(),
                            target == arguments_dependent(self@, crate::syntax::boxed_view(*arguments)),
                            target == exists|i: int|
                                0 <= i < views.len() && is_dependent_arg(
                                    self@.generics,
                                    #[trigger] views[i],
                                ),
                            forall|j: int| 0 <= j < i ==> !is_dependent_arg(self@.generics, #[trigger] views[j]),
                        decreases children@.len() - i,
                    {
                        let arg = &children[i];
                        assert(views[i as int] == arg@);
                        match arg {
                            Node::Path { place, qself, .. } => {
                                proof {
                                    lemma_view_path(arg);
                                }
                                if *place == PathPlace::Type && qself.is_none() && (node_is_ident(
                                    arg,
                                    &self_name,
                                ) || self.generics.contained_in_path(arg)) {
                                    return true;
                                }
                            },
                            _ => {},
                        }
                        i += 1;
                    }
                    false
                },
                _ => false,
            },
            None => false,
        }
    }

    /// Adds the trait that a single-segment path names to the dependencies.
    pub fn add_path_to_dependencies(&self, path: &Node, dependent_idents: &mut Vec<Ident>)
        ensures
            idents_view(final(dependent_idents)@) == path_added(
                self@,
                path@,
                idents_view(old(dependent_idents)@),
            ),
    {
        if node_is_single_segment(path) {
            match path {
                Node::Path { segments, .. } => {
                    proof {
                        lemma_view_path(path);
                    }
                    assert(path@->segments[0] == segments@[0]@);
                    self.add_ident_to_dependencies(&segments[0].ident, dependent_idents);
                },
                _ => {},
            }
        }
    }

    /// Adds a trait to the dependencies, unless it is the trait itself or is
    /// there already.
    pub fn add_ident_to_dependencies(&self, ident: &Ident, dependent_idents: &mut Vec<Ident>)
        ensures
            idents_view(final(dependent_idents)@) == ident_added(
                self@,
                ident@,
                idents_view(old(dependent_idents)@),
            ),
    {
        if ident.name != self.ident.name && !contains_name(dependent_idents, &ident.name) {
            let ghost before = idents_view(dependent_idents@);
            dependent_idents.push(ident.clone());
            assert(idents_view(dependent_idents@) =~= before.push(ident@));
        }
    }
}

} // verus!
