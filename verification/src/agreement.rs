//! The agreement between an implementation block and the trait it is for.

use vstd::prelude::*;
use crate::error::{plain_error, Error, ErrorView, Reason};
use crate::generics::{GenericParam, GenericParamView, ParamKind};
use crate::item::{
    MetaGenericArgument, MetaGenericArguments, MetaGenericArgumentsView, MetaGenericParam,
    MetaGenericParamView, MetaGenerics, MetaGenericsView, MetaItemList, TraitPath, TraitPathView,
};
use crate::occurrence::{is_plain_ident, node_is_ident};
use crate::subst::{node_param_kind, node_span, param_kind_of, span_of};
use crate::syntax::{
    boxed_view, clone_node, lemma_view_path, lemma_view_tree, nodes_view, IdentView, Node,
    NodeKind, NodeView, PathPlace, PathSegment, PathSegmentView, Span,
};

verus! {

/// Where the arguments of a path segment stand.
pub open spec fn arguments_span(arguments: Option<Box<NodeView>>) -> Span {
    match arguments {
        Some(a) => node_span(*a),
        None => Span::spec_call_site(),
    }
}

/// The failure that names what an argument should have been.
pub open spec fn expected_error(reason: Reason, arg: NodeView, ident: IdentView) -> ErrorView {
    ErrorView { reason, span: node_span(arg), name: ident.name }
}

/// Why `arg` is not the bare name of `param`, if it is not.
pub open spec fn argument_error(param: MetaGenericParamView, arg: NodeView) -> Option<ErrorView> {
    match param {
        MetaGenericParamView::Generic(GenericParamView::Lifetime { lifetime, .. }) => {
            if !(arg is Lifetime) {
                Some(plain_error(Reason::LifetimeExpected, node_span(arg)))
            } else if arg->ident.name != lifetime.name {
                Some(expected_error(Reason::LifetimeNamed, arg, lifetime))
            } else {
                None
            }
        },
        _ => {
            if node_param_kind(arg) != Some(ParamKind::Type) {
                Some(plain_error(Reason::VariableExpected, node_span(arg)))
            } else if !is_plain_ident(arg, param.ident().name) {
                Some(
                    expected_error(
                        match param {
                            MetaGenericParamView::Generic(GenericParamView::Const { .. }) => Reason::ConstantNamed,
                            MetaGenericParamView::TypeBound { .. } => Reason::TypeBoundNamed,
                            _ => Reason::TypeNamed,
                        },
                        arg,
                        param.ident(),
                    ),
                )
            } else {
                None
            }
        },
    }
}

/// Why the arguments from position `i` on are not the bare names of the
/// parameters at their positions, if they are not. An argument behind the
/// last parameter is one too many.
pub open spec fn arguments_error(
    params: Seq<MetaGenericParamView>,
    args: Seq<NodeView>,
    span: Span,
    i: int,
) -> Option<ErrorView>
    decreases params.len() - i,
{
    if i < 0 {
        None
    } else if i >= params.len() {
        if i < args.len() {
            Some(plain_error(Reason::SuperfluousArgument, node_span(args[i])))
        } else {
            None
        }
    } else if i >= args.len() {
        Some(plain_error(Reason::TooFewArguments, span))
    } else {
        match argument_error(params[i], args[i]) {
            Some(e) => Some(e),
            None => arguments_error(params, args, span, i + 1),
        }
    }
}

/// Why the arguments that an implementation block gives to its trait are not
/// the block's own parameters, each by its bare name and at its position, if
/// they are not.
pub open spec fn impl_args_error(g: MetaGenericsView, arguments: Option<Box<NodeView>>) -> Option<
    ErrorView,
> {
    if g.params.len() == 0 {
        if arguments is Some {
            Some(plain_error(Reason::NoArgumentsExpected, arguments_span(arguments)))
        } else {
            None
        }
    } else {
        match arguments {
            Some(a) => if *a is Tree && a->kind == NodeKind::AngleBracketed {
                arguments_error(g.params, a->children, node_span(*a), 0)
            } else {
                Some(plain_error(Reason::AngleBracketsExpected, arguments_span(arguments)))
            },
            None => Some(plain_error(Reason::AngleBracketsExpected, arguments_span(arguments))),
        }
    }
}

/// Where the arguments of a path segment stand.
pub fn span_of_arguments(arguments: &Option<Box<Node>>) -> (span: Span)
    ensures
        span == arguments_span(boxed_view(*arguments)),
{
    match arguments {
        Some(a) => span_of(&**a),
        None => Span::call_site(),
    }
}

/// Why `arg` is not the bare name of `param`, if it is not.
fn check_argument(param: &MetaGenericParam, arg: &Node) -> (res: Result<(), Error>)
    ensures
        match res {
            Ok(_) => argument_error(param@, arg@) is None,
            Err(e) => argument_error(param@, arg@) == Some(e@),
        },
{
    match param {
        MetaGenericParam::Generic(GenericParam::Lifetime { lifetime, .. }) => {
            match arg {
                Node::Lifetime { ident } => {
                    if ident.name != lifetime.name {
                        return Err(Error::named(Reason::LifetimeNamed, span_of(arg), &lifetime.name));
                    }
                    Ok(())
                },
                _ => Err(Error::new(Reason::LifetimeExpected, span_of(arg))),
            }
        },
        _ => {
            if param_kind_of(arg) != Some(ParamKind::Type) {
                return Err(Error::new(Reason::VariableExpected, span_of(arg)));
            }
            let ident = param.ident();
            if !node_is_ident(arg, &ident.name) {
                let reason = match param {
                    MetaGenericParam::Generic(GenericParam::Const { .. }) => Reason::ConstantNamed,
                    MetaGenericParam::TypeBound { .. } => Reason::TypeBoundNamed,
                    _ => Reason::TypeNamed,
                };
                return Err(Error::named(reason, span_of(arg), &ident.name));
            }
            Ok(())
        },
    }
}

impl MetaItemList {
    /// Checks that an implementation block gives its trait the block's own
    /// parameters as arguments: each by its bare name, at its position, and
    /// no argument more.
    pub fn check_trait_impl_args(
        impl_item_generics: &MetaGenerics,
        impl_item_args: &Option<Box<Node>>,
    ) -> (res: Result<(), Error>)
        ensures
            match res {
                Ok(_) => impl_args_error(impl_item_generics@, boxed_view(*impl_item_args)) is None,
                Err(e) => impl_args_error(impl_item_generics@, boxed_view(*impl_item_args)) == Some(e@),
            },
    {
        if impl_item_generics.params.len() == 0 {
            if impl_item_args.is_some() {
                return Err(Error::new(Reason::NoArgumentsExpected, span_of_arguments(impl_item_args)));
            }
            return Ok(());
        }
        let unbracketed = Error::new(Reason::AngleBracketsExpected, span_of_arguments(impl_item_args));
        match impl_item_args {
            Some(a) => match &**a {
                Node::Tree { kind, children, .. } => {
                    proof {
                        lemma_view_tree(&**a);
                    }
                    if *kind != NodeKind::AngleBracketed {
                        return Err(unbracketed);
                    }
                    let span = span_of(&**a);
                    let ghost params = impl_item_generics@.params;
                    let ghost args = nodes_view(children@);
                    let ghost target = impl_args_error(impl_item_generics@, boxed_view(*impl_item_args));
                    assert(target == arguments_error(params, args, span, 0));
                    let mut i: usize = 0;
                    while i < impl_item_generics.params.len()
                        invariant
                            i <= impl_item_generics.params@.len(),
                            params == impl_item_generics@.params,
                            args == nodes_view(children@),
                            target == impl_args_error(impl_item_generics@, boxed_view(*impl_item_args)),
                            target == arguments_error(params, args, span, 0),
                            arguments_error(params, args, span, i as int) == arguments_error(
                                params,
                                args,
                                span,
                                0,
                            ),
                        decreases impl_item_generics.params@.len() - i,
                    {
                        if i >= children.len() {
                            return Err(Error::new(Reason::TooFewArguments, span));
                        }
                        assert(params[i as int] == impl_item_generics.params@[i as int]@);
                        assert(args[i as int] == children@[i as int]@);
                        match check_argument(&impl_item_generics.params[i], &children[i]) {
                            Err(e) => {
                                return Err(e);
                            },
                            Ok(_) => {},
                        }
                        i += 1;
                    }
                    if i < children.len() {
                        assert(args[i as int] == children@[i as int]@);
                        return Err(Error::new(Reason::SuperfluousArgument, span_of(&children[i])));
                    }
                    Ok(())
                },
                _ => Err(unbracketed),
            },
            None => Err(unbracketed),
        }
    }
}

/// The arguments of a trait path as the arguments of a path segment: none
/// where the list is empty.
pub open spec fn path_arguments(arguments: MetaGenericArgumentsView) -> Option<Box<NodeView>> {
    if arguments.args.len() == 0 {
        None
    } else {
        Some(
            Box::new(
                NodeView::Tree {
                    kind: NodeKind::AngleBracketed,
                    text: Seq::empty(),
                    span: arguments.span,
                    children: Seq::new(arguments.args.len(), |i: int| arguments.args[i].node()),
                },
            ),
        )
    }
}

/// The path of an aliased trait as a plain path: the arguments stand behind
/// the last name.
pub open spec fn extracted_path(path: TraitPathView) -> NodeView {
    NodeView::Path {
        place: PathPlace::Plain,
        qself: None,
        leading_colon: path.leading_colon,
        segments: Seq::new(
            path.segments.len(),
            |i: int|
                PathSegmentView {
                    ident: path.segments[i],
                    arguments: if i == path.segments.len() - 1 {
                        path_arguments(path.arguments)
                    } else {
                        None
                    },
                },
        ),
    }
}

impl MetaGenericArguments {
    /// The arguments as the arguments of a path segment.
    pub fn extract_path_arguments(&self) -> (res: Option<Box<Node>>)
        ensures
            boxed_view(res) == path_arguments(self@),
    {
        if self.args.len() == 0 {
            return None;
        }
        let mut children: Vec<Node> = Vec::new();
        let mut i: usize = 0;
        while i < self.args.len()
            invariant
                i <= self.args@.len(),
                children@.len() == i,
                forall|j: int| 0 <= j < i ==> (#[trigger] children@[j])@ == self@.args[j].node(),
            decreases self.args@.len() - i,
        {
            let node = match &self.args[i] {
                MetaGenericArgument::Generic(n) => clone_node(n),
                MetaGenericArgument::TraitAlias { value } => clone_node(value),
            };
            children.push(node);
            i += 1;
        }
        let tree = Node::Tree {
            kind: NodeKind::AngleBracketed,
            text: String::new(),
            span: self.span,
            children,
        };
        proof {
            lemma_view_tree(&tree);
            assert(tree@->children =~= Seq::new(self@.args.len(), |i: int| self@.args[i].node()));
        }
        Some(Box::new(tree))
    }
}

impl TraitPath {
    /// The path as a plain path.
    pub fn extract_path(&self) -> (path: Node)
        ensures
            path@ == extracted_path(self@),
    {
        let mut segments: Vec<PathSegment> = Vec::new();
        let mut i: usize = 0;
        while i < self.segments.len()
            invariant
                i <= self.segments@.len(),
                segments@.len() == i,
                forall|j: int|
                    0 <= j < i ==> (#[trigger] segments@[j])@ == (PathSegmentView {
                        ident: self.segments@[j]@,
                        arguments: None,
                    }),
            decreases self.segments@.len() - i,
        {
            segments.push(PathSegment { ident: self.segments[i].clone(), arguments: None });
            i += 1;
        }
        let count = segments.len();
        if count > 0 {
            segments[count - 1].arguments = self.arguments.extract_path_arguments();
        }
        let path = Node::Path {
            place: PathPlace::Plain,
            qself: None,
            leading_colon: self.leading_colon,
            segments,
        };
        proof {
            lemma_view_path(&path);
            assert(path@->segments =~= extracted_path(self@)->segments);
        }
        path
    }
}

} // verus!
