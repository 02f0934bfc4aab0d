use enum_trait::error::{Error, ErrorKind, Reason};
use enum_trait::expr::{TypeLevelArm, TypeLevelArmSelector, TypeLevelExpr, TypeLevelExprMatch};
use enum_trait::generics::{GenericParam, Generics};
use enum_trait::item::{
    ItemFnExt, ItemKind, ItemTraitDef, ItemTraitImpl, ItemTypeExt, MetaGenericArgument,
    MetaGenericArguments, MetaGenericParam, MetaGenerics, MetaItem, MetaItemList, MetaSignature,
    TraitContents, TraitImplItem, TraitImplItemConst, TraitImplItemFn, TraitImplItemType,
    TraitPath, TraitVariant, WhereClause, Signature,
};
use enum_trait::output::{LoweredItem, OutputItemTraitDef, OutputMetaItem, OutputMetaItemList};
use enum_trait::syntax::{
    ExprKind, Ident, Node, NodeKind, PatKind, PathPlace, PathSegment, Span, TypeKind,
};

fn sp() -> Span {
    Span { id: 0 }
}

fn id(name: &str) -> Ident {
    Ident::new(name, sp())
}

fn tree(kind: NodeKind, text: &str, children: Vec<Node>) -> Node {
    Node::Tree { kind, text: text.to_string(), span: sp(), children }
}

fn angle(args: Vec<Node>) -> Option<Box<Node>> {
    Some(Box::new(tree(NodeKind::AngleBracketed, "", args)))
}

fn path(place: PathPlace, parts: Vec<(&str, Vec<Node>)>) -> Node {
    let segments = parts
        .into_iter()
        .map(|(name, args)| PathSegment {
            ident: id(name),
            arguments: if args.is_empty() { None } else { angle(args) },
        })
        .collect();
    Node::Path { place, qself: None, leading_colon: false, segments }
}

fn t(name: &str) -> Node {
    path(PathPlace::Type, vec![(name, vec![])])
}

fn applied(name: &str, args: Vec<Node>) -> Node {
    path(PathPlace::Type, vec![(name, args)])
}

fn bound(name: &str, args: Vec<Node>) -> Node {
    tree(NodeKind::TraitBound, "", vec![path(PathPlace::Plain, vec![(name, args)])])
}

fn type_param(name: &str, bounds: Vec<Node>) -> GenericParam {
    GenericParam::Type { ident: id(name), bounds, default: None }
}

fn generics(params: Vec<GenericParam>) -> Generics {
    Generics { params, where_clause: vec![] }
}

fn meta(params: Vec<GenericParam>) -> MetaGenerics {
    MetaGenerics { params: params.into_iter().map(MetaGenericParam::Generic).collect(), where_clause: None }
}

fn plain(n: Node) -> TypeLevelExpr {
    TypeLevelExpr::Expr(n)
}

fn specific(name: &str, params: Vec<GenericParam>) -> TypeLevelArmSelector {
    TypeLevelArmSelector::Specific { ident: id(name), generics: generics(params) }
}

fn arm(selector: TypeLevelArmSelector, body: Node) -> TypeLevelArm {
    TypeLevelArm { selectors: vec![selector], body: plain(body) }
}

fn matching(on: Node, arms: Vec<TypeLevelArm>) -> TypeLevelExpr {
    TypeLevelExpr::Match(TypeLevelExprMatch { types: vec![on], arms })
}

fn impl_type(name: &str, bounds: Vec<Node>, ty: TypeLevelExpr) -> TraitImplItem {
    TraitImplItem::Type(TraitImplItemType {
        attrs: vec![],
        vis: vec![],
        ident: id(name),
        generics: generics(vec![]),
        bounds,
        ty,
    })
}

fn list_def() -> MetaItem {
    MetaItem::TraitDef(ItemTraitDef {
        attrs: vec![],
        vis: vec![],
        ident: id("List"),
        generics: meta(vec![type_param("T", vec![])]),
        contents: TraitContents::Enum {
            variants: vec![
                TraitVariant { attrs: vec![], ident: id("Empty"), generics: generics(vec![]) },
                TraitVariant {
                    attrs: vec![],
                    ident: id("Cons"),
                    generics: generics(vec![
                        type_param("H", vec![]),
                        type_param("R", vec![bound("List", vec![t("T")])]),
                    ]),
                },
            ],
        },
    })
}

fn list_impl(items: Vec<TraitImplItem>) -> MetaItem {
    MetaItem::TraitImpl(ItemTraitImpl {
        generics: meta(vec![type_param("T", vec![])]),
        self_trait: path(PathPlace::Plain, vec![("List", vec![t("T")])]),
        items,
    })
}

fn is_empty_item() -> TraitImplItem {
    impl_type(
        "IsEmpty",
        vec![bound("Bool", vec![])],
        matching(
            t("Self"),
            vec![
                arm(specific("Empty", vec![]), t("True")),
                arm(
                    specific(
                        "Cons",
                        vec![type_param("A", vec![]), type_param("B", vec![bound("List", vec![t("T")])])],
                    ),
                    t("False"),
                ),
            ],
        ),
    )
}

fn head_item() -> TraitImplItem {
    impl_type(
        "Head",
        vec![],
        matching(
            t("Self"),
            vec![
                arm(specific("Cons", vec![type_param("A", vec![]), type_param("B", vec![])]), applied("Some", vec![t("A")])),
                arm(TypeLevelArmSelector::Default { span: sp() }, t("Nothing")),
            ],
        ),
    )
}

fn show(n: &Node) -> String {
    match n {
        Node::Lifetime { ident } => format!("'{}", ident.name),
        Node::Path { qself, leading_colon, segments, .. } => {
            let mut out = String::new();
            let shown: Vec<String> = segments
                .iter()
                .map(|s| match &s.arguments {
                    Some(a) => format!("{}{}", s.ident.name, show(a)),
                    None => s.ident.name.clone(),
                })
                .collect();
            match qself {
                Some(q) => {
                    let (inside, outside) = shown.split_at(q.position);
                    out.push_str(&format!("<{}", show(&q.ty)));
                    if q.as_token {
                        out.push_str(&format!(" as {}", inside.join("::")));
                    }
                    out.push_str(">::");
                    out.push_str(&outside.join("::"));
                }
                None => {
                    if *leading_colon {
                        out.push_str("::");
                    }
                    out.push_str(&shown.join("::"));
                }
            }
            out
        }
        Node::Tree { kind, text, children, .. } => {
            let parts: Vec<String> = children.iter().map(show).collect();
            match kind {
                NodeKind::AngleBracketed => format!("<{}>", parts.join(", ")),
                NodeKind::TraitBound => parts.join(""),
                NodeKind::Expr(ExprKind::Call) => format!("{}({})", parts[0], parts[1..].join(", ")),
                NodeKind::Expr(ExprKind::Lit) => text.clone(),
                NodeKind::Type(TypeKind::Tuple) => format!("({})", parts.join(", ")),
                other => panic!("no way to print {other:?}"),
            }
        }
    }
}

fn show_generics(g: &Generics) -> String {
    let shown: Vec<String> = g
        .params
        .iter()
        .map(|p| match p {
            GenericParam::Type { ident, bounds, .. } => {
                if bounds.is_empty() {
                    ident.name.clone()
                } else {
                    let b: Vec<String> = bounds.iter().map(show).collect();
                    format!("{}: {}", ident.name, b.join(" + "))
                }
            }
            GenericParam::Lifetime { lifetime, .. } => format!("'{}", lifetime.name),
            GenericParam::Const { ident, ty, .. } => format!("const {}: {}", ident.name, show(ty)),
        })
        .collect();
    format!("<{}>", shown.join(", "))
}

fn trait_at(out: &OutputMetaItemList, i: usize) -> &OutputItemTraitDef {
    match &out.0[i] {
        OutputMetaItem::TraitDef(def) => def,
        other => panic!("a trait was expected, not {other:?}"),
    }
}

fn item_at(out: &OutputMetaItemList, i: usize) -> &LoweredItem {
    match &out.0[i] {
        OutputMetaItem::Item(item) => item,
        other => panic!("an item was expected, not {other:?}"),
    }
}

fn bodies(items: &[LoweredItem]) -> Vec<(String, Option<String>)> {
    items.iter().map(|i| (i.ident.name.clone(), i.body.as_ref().map(show))).collect()
}

fn named(name: &str, body: Option<&str>) -> (String, Option<String>) {
    (name.to_string(), body.map(|b| b.to_string()))
}

fn failure(items: Vec<MetaItem>) -> Error {
    MetaItemList(items).output().unwrap_err()
}

#[test]
fn traits_are_registered_whatever_the_order() {
    let out = MetaItemList(vec![list_impl(vec![is_empty_item()]), list_def()]).output().unwrap();
    assert_eq!(out.0.len(), 1);
    let def = trait_at(&out, 0);
    assert_eq!(def.source, 1);
    assert_eq!(def.ident.name, "List");
    assert_eq!(show_generics(&def.extracted_generics), "<T>");
    let variants = def.variants.as_ref().unwrap();
    assert_eq!(variants.len(), 2);
    assert_eq!(variants[0].variant.variant.ident.name, "Empty");
    assert_eq!(show_generics(&variants[0].variant.impl_generics), "<T_>");
    assert_eq!(variants[0].variant.trait_args.iter().map(show).collect::<Vec<_>>(), vec!["T_"]);
    assert_eq!(show_generics(&variants[1].variant.variant.generics), "<H_, R_: List<T>>");
}

#[test]
fn the_arms_of_a_match_define_an_item_for_the_variants() {
    let out = MetaItemList(vec![
        list_def(),
        list_impl(vec![is_empty_item(), impl_type("Plain", vec![], plain(t("u8"))), head_item()]),
    ])
    .output()
    .unwrap();
    let def = trait_at(&out, 0);
    assert_eq!(
        bodies(&def.impl_items),
        vec![named("IsEmpty", None), named("Plain", Some("u8")), named("Head", None)]
    );
    assert_eq!(def.impl_items[0].kind, ItemKind::Type);
    assert_eq!(def.impl_items[0].header.iter().map(show).collect::<Vec<_>>(), vec!["Bool"]);
    assert_eq!(def.impl_items[0].part, None);
    let variants = def.variants.as_ref().unwrap();
    assert_eq!(
        bodies(&variants[0].impl_items),
        vec![named("IsEmpty", Some("True")), named("Head", Some("Nothing"))]
    );
    assert_eq!(
        bodies(&variants[1].impl_items),
        vec![named("IsEmpty", Some("False")), named("Head", Some("Some<H_>"))]
    );
    assert_eq!(def.next_internal_item_idx, 0);
}

#[test]
fn an_item_that_refers_to_its_trait_belongs_to_the_part_that_knows_self() {
    let item = impl_type("Tail", vec![bound("List", vec![t("T")])], plain(t("Nil")));
    let other = impl_type("Len", vec![bound("Num", vec![t("Self")])], plain(t("Zero")));
    let out = MetaItemList(vec![list_def(), list_impl(vec![item, other])]).output().unwrap();
    let def = trait_at(&out, 0);
    assert_eq!(def.impl_items[0].part, Some(Ident::new("Self", sp())));
    assert_eq!(def.impl_items[1].part, None);
    assert_eq!(def.dependent_idents.iter().map(|i| i.name.as_str()).collect::<Vec<_>>(), vec!["Num"]);
}

fn first_item() -> MetaItem {
    MetaItem::Type(ItemTypeExt {
        attrs: vec![],
        vis: vec![],
        ident: id("First"),
        generics: meta(vec![
            type_param("L", vec![bound("List", vec![t("X")])]),
            type_param("X", vec![]),
            type_param("Y", vec![]),
        ]),
        bounds: vec![],
        ty: matching(
            t("L"),
            vec![
                arm(specific("Empty", vec![]), t("X")),
                arm(specific("Cons", vec![type_param("P", vec![]), type_param("Q", vec![])]), applied("Pair", vec![t("P"), t("L")])),
            ],
        ),
    })
}

#[test]
fn a_free_match_becomes_an_item_of_the_trait_that_bounds_its_subject() {
    let out = MetaItemList(vec![first_item(), list_def()]).output().unwrap();
    assert_eq!(out.0.len(), 2);
    let def = trait_at(&out, 0);
    assert_eq!(bodies(&def.impl_items), vec![named("__First", None)]);
    assert_eq!(show_generics(&def.impl_items[0].generics), "<X>");
    assert_eq!(def.next_internal_item_idx, 1);
    let variants = def.variants.as_ref().unwrap();
    assert_eq!(bodies(&variants[0].impl_items), vec![named("__First", Some("X"))]);
    assert_eq!(bodies(&variants[1].impl_items), vec![named("__First", Some("Pair<H_, Self>"))]);
    let free = item_at(&out, 1);
    assert_eq!(free.ident.name, "First");
    assert_eq!(free.kind, ItemKind::Type);
    assert_eq!(show_generics(&free.generics), "<L: List<X>, X, Y>");
    assert_eq!(show(free.body.as_ref().unwrap()), "<L as List<X>>::__First<X>");
}

#[test]
fn a_free_item_with_a_plain_body_stays() {
    let item = MetaItem::Type(ItemTypeExt {
        attrs: vec![],
        vis: vec![],
        ident: id("Alias"),
        generics: MetaGenerics {
            params: vec![MetaGenericParam::TypeBound { ident: id("B"), bounds: vec![bound("Sized", vec![])] }],
            where_clause: None,
        },
        bounds: vec![],
        ty: plain(applied("Vec", vec![t("u8")])),
    });
    let out = MetaItemList(vec![item]).output().unwrap();
    let free = item_at(&out, 0);
    assert_eq!(show_generics(&free.generics), "<B: Sized>");
    assert_eq!(show(free.body.as_ref().unwrap()), "Vec<u8>");
}

fn input(name: &str, ty: Node) -> Node {
    tree(NodeKind::FnArg, "", vec![tree(NodeKind::Pat(PatKind::Ident), name, vec![]), ty])
}

fn free_fn(inputs: Vec<Node>) -> MetaItem {
    MetaItem::Fn(ItemFnExt {
        attrs: vec![],
        vis: vec![],
        sig: MetaSignature {
            ident: id("len"),
            generics: meta(vec![type_param("L", vec![bound("List", vec![t("u8")])])]),
            inputs,
            output: Some(t("usize")),
        },
        block: matching(
            t("L"),
            vec![
                arm(specific("Empty", vec![]), tree(NodeKind::Expr(ExprKind::Lit), "0", vec![])),
                arm(TypeLevelArmSelector::Default { span: sp() }, tree(NodeKind::Expr(ExprKind::Lit), "1", vec![])),
            ],
        ),
    })
}

#[test]
fn a_free_function_hands_its_inputs_on() {
    let out = MetaItemList(vec![list_def(), free_fn(vec![input("a", t("u8")), input("b", t("L"))])])
        .output()
        .unwrap();
    let def = trait_at(&out, 0);
    assert_eq!(bodies(&def.impl_items), vec![named("__len", None)]);
    assert_eq!(def.impl_items[0].kind, ItemKind::Fn);
    assert_eq!(def.impl_items[0].output.as_ref().map(show), Some("usize".to_string()));
    let variants = def.variants.as_ref().unwrap();
    assert_eq!(bodies(&variants[0].impl_items), vec![named("__len", Some("0"))]);
    assert_eq!(bodies(&variants[1].impl_items), vec![named("__len", Some("1"))]);
    let free = item_at(&out, 1);
    assert_eq!(show(free.body.as_ref().unwrap()), "<L as List<u8>>::__len(a, b)");
    let err = failure(vec![list_def(), free_fn(vec![tree(NodeKind::Receiver, "self", vec![])])]);
    assert_eq!(err.reason, Reason::UnsupportedItem);
}

fn alias(name: &str, target: &str, args: Vec<MetaGenericArgument>, where_clause: Option<WhereClause>) -> MetaItem {
    MetaItem::TraitDef(ItemTraitDef {
        attrs: vec![],
        vis: vec![],
        ident: id(name),
        generics: MetaGenerics {
            params: vec![MetaGenericParam::Generic(type_param("N", vec![]))],
            where_clause,
        },
        contents: TraitContents::Alias {
            path: TraitPath {
                leading_colon: false,
                segments: vec![id(target)],
                arguments: MetaGenericArguments { span: Span { id: 77 }, args },
            },
        },
    })
}

fn alias_impl(name: &str, items: Vec<TraitImplItem>) -> MetaItem {
    MetaItem::TraitImpl(ItemTraitImpl {
        generics: meta(vec![type_param("N", vec![])]),
        self_trait: path(PathPlace::Plain, vec![(name, vec![t("N")])]),
        items,
    })
}

#[test]
fn a_trait_that_needs_a_match_and_gets_none_is_refused() {
    let complex = MetaGenericArgument::Generic(path(PathPlace::Type, vec![("N", vec![]), ("Len", vec![])]));
    let err = failure(vec![alias("Index", "Less", vec![complex], None)]);
    assert_eq!(err.reason, Reason::MatchRequiredForAlias);
    assert_eq!(err.kind(), ErrorKind::MissingDispatch);
    assert_eq!(err.span, Span { id: 77 });
    assert_eq!(
        err.message(),
        "at least one `match` expression corresponding to alias arguments required"
    );
    let clause = WhereClause { span: Span { id: 5 }, predicates: vec![] };
    let err = failure(vec![alias("Index", "Less", vec![MetaGenericArgument::Generic(t("N"))], Some(clause))]);
    assert_eq!(err.reason, Reason::MatchRequiredForWhere);
    assert_eq!(err.span, Span { id: 5 });
    let simple = alias("Index", "Less", vec![MetaGenericArgument::Generic(t("N"))], None);
    let out = MetaItemList(vec![simple]).output().unwrap();
    assert!(trait_at(&out, 0).variants.is_none());
}

#[test]
fn a_match_makes_the_variants_of_an_alias_known() {
    let complex = MetaGenericArgument::Generic(path(PathPlace::Type, vec![("N", vec![]), ("Len", vec![])]));
    let item = impl_type(
        "Pred",
        vec![],
        matching(
            t("Self"),
            vec![arm(specific("Zero", vec![]), t("Zero")), arm(specific("Succ", vec![type_param("P", vec![])]), t("P"))],
        ),
    );
    let out = MetaItemList(vec![alias("Index", "Less", vec![complex], None), alias_impl("Index", vec![item])])
        .output()
        .unwrap();
    let def = trait_at(&out, 0);
    let variants = def.variants.as_ref().unwrap();
    assert_eq!(variants.len(), 2);
    assert_eq!(variants[1].variant.variant.ident.name, "Succ");
    assert_eq!(show_generics(&variants[1].variant.variant.generics), "<P_>");
    assert_eq!(bodies(&variants[1].impl_items), vec![named("Pred", Some("P_"))]);
}

#[test]
fn an_alias_depends_on_the_traits_named_for_its_bounds() {
    let args = vec![
        MetaGenericArgument::TraitAlias { value: path(PathPlace::Plain, vec![("Bound", vec![])]) },
        MetaGenericArgument::TraitAlias { value: path(PathPlace::Plain, vec![("Index", vec![])]) },
        MetaGenericArgument::TraitAlias { value: path(PathPlace::Plain, vec![("Bound", vec![])]) },
        MetaGenericArgument::TraitAlias { value: path(PathPlace::Plain, vec![("a", vec![]), ("B", vec![])]) },
    ];
    let out = MetaItemList(vec![alias("Index", "Less", args, None)]).output().unwrap();
    let def = trait_at(&out, 0);
    assert_eq!(def.dependent_idents.iter().map(|i| i.name.as_str()).collect::<Vec<_>>(), vec!["Bound"]);
}

#[test]
fn an_alias_for_itself_is_refused() {
    let err = failure(vec![list_def(), alias("Index", "Index", vec![], None)]);
    assert_eq!(err.reason, Reason::CyclicAlias);
    assert_eq!(err.message(), "trait alias `Index` refers to itself");
}

#[test]
fn an_implementation_must_agree_with_its_trait() {
    let nontrivial = MetaItem::TraitImpl(ItemTraitImpl {
        generics: meta(vec![type_param("T", vec![])]),
        self_trait: path(PathPlace::Plain, vec![("a", vec![]), ("List", vec![t("T")])]),
        items: vec![],
    });
    let err = failure(vec![list_def(), nontrivial]);
    assert_eq!(err.reason, Reason::NontrivialImplPath);
    assert_eq!(err.kind(), ErrorKind::StructuralMismatch);
    let err = failure(vec![list_impl(vec![])]);
    assert_eq!(err.reason, Reason::TraitNotFound);
    assert_eq!(err.kind(), ErrorKind::UnknownTarget);
    assert_eq!(err.message(), "trait `List` not found");
    let other_params = MetaItem::TraitImpl(ItemTraitImpl {
        generics: meta(vec![type_param("T", vec![bound("Sized", vec![])])]),
        self_trait: path(PathPlace::Plain, vec![("List", vec![t("T")])]),
        items: vec![],
    });
    let err = failure(vec![list_def(), other_params]);
    assert_eq!(err.reason, Reason::ParamsDiffer);
    let other_args = MetaItem::TraitImpl(ItemTraitImpl {
        generics: meta(vec![type_param("T", vec![])]),
        self_trait: path(PathPlace::Plain, vec![("List", vec![t("U")])]),
        items: vec![],
    });
    let err = failure(vec![list_def(), other_args]);
    assert_eq!(err.reason, Reason::TypeNamed);
    assert_eq!(err.message(), "type `T` expected");
}

#[test]
fn the_same_parameters_at_other_places_agree() {
    let imp = MetaItem::TraitImpl(ItemTraitImpl {
        generics: MetaGenerics {
            params: vec![MetaGenericParam::Generic(GenericParam::Type {
                ident: Ident::new("T", Span { id: 90 }),
                bounds: vec![],
                default: None,
            })],
            where_clause: None,
        },
        self_trait: path(PathPlace::Plain, vec![("List", vec![t("T")])]),
        items: vec![],
    });
    assert!(MetaItemList(vec![list_def(), imp]).output().is_ok());
}

#[test]
fn an_item_is_defined_once() {
    let err = failure(vec![list_def(), list_impl(vec![is_empty_item()]), list_impl(vec![is_empty_item()])]);
    assert_eq!(err.reason, Reason::DuplicateItem);
    assert_eq!(err.message(), "duplicate item `IsEmpty`");
    let twice = impl_type(
        "Twice",
        vec![],
        matching(t("Self"), vec![arm(specific("Empty", vec![]), t("A")), arm(specific("Empty", vec![]), t("B"))]),
    );
    let err = failure(vec![list_def(), list_impl(vec![twice])]);
    assert_eq!(err.reason, Reason::DuplicateItem);
}

#[test]
fn the_arms_of_a_match_must_fit_the_variants() {
    let unknown = impl_type("X", vec![], matching(t("Self"), vec![arm(specific("Other", vec![]), t("A"))]));
    let err = failure(vec![list_def(), list_impl(vec![unknown])]);
    assert_eq!(err.reason, Reason::VariantNotFound);
    assert_eq!(err.message(), "variant `Other` not found");
    let few = impl_type(
        "X",
        vec![],
        matching(t("Self"), vec![arm(specific("Cons", vec![type_param("A", vec![])]), t("A"))]),
    );
    let err = failure(vec![list_def(), list_impl(vec![few])]);
    assert_eq!(err.reason, Reason::SuperfluousParameter);
    let many = impl_type(
        "X",
        vec![],
        matching(t("Self"), vec![arm(specific("Empty", vec![type_param("A", vec![])]), t("A"))]),
    );
    let err = failure(vec![list_def(), list_impl(vec![many])]);
    assert_eq!(err.reason, Reason::TooFewParameters);
    let nested = impl_type(
        "X",
        vec![],
        matching(
            t("Self"),
            vec![TypeLevelArm {
                selectors: vec![specific("Empty", vec![])],
                body: matching(t("Self"), vec![]),
            }],
        ),
    );
    let err = failure(vec![list_def(), list_impl(vec![nested])]);
    assert_eq!(err.reason, Reason::NestedMatch);
    assert_eq!(err.kind(), ErrorKind::Unsupported);
    let two = impl_type(
        "X",
        vec![],
        TypeLevelExpr::Match(TypeLevelExprMatch { types: vec![t("Self"), t("T")], arms: vec![] }),
    );
    let err = failure(vec![list_def(), list_impl(vec![two])]);
    assert_eq!(err.reason, Reason::OneTypeExpected);
}

#[test]
fn a_free_match_needs_a_subject_with_a_trait() {
    let on = |subject: Node, params: Vec<GenericParam>| {
        MetaItem::Type(ItemTypeExt {
            attrs: vec![],
            vis: vec![],
            ident: id("F"),
            generics: meta(params),
            bounds: vec![],
            ty: matching(subject, vec![arm(specific("Empty", vec![]), t("A"))]),
        })
    };
    let err = failure(vec![list_def(), on(applied("Vec", vec![t("L")]), vec![type_param("L", vec![])])]);
    assert_eq!(err.reason, Reason::OneTypeExpected);
    let err = failure(vec![list_def(), on(t("M"), vec![type_param("L", vec![])])]);
    assert_eq!(err.reason, Reason::TypeParamNotFound);
    let err = failure(vec![list_def(), on(t("L"), vec![type_param("L", vec![])])]);
    assert_eq!(err.reason, Reason::NoTraitBound);
    assert_eq!(err.message(), "type param `L` has no trait to match on");
    let err = failure(vec![list_def(), on(t("L"), vec![type_param("L", vec![bound("Other", vec![])])])]);
    assert_eq!(err.reason, Reason::TraitNotFound);
    let constant = GenericParam::Const { ident: id("L"), ty: t("u8"), default: None };
    let err = failure(vec![list_def(), on(t("L"), vec![constant])]);
    assert_eq!(err.reason, Reason::ConstParamFound);
}

#[test]
fn the_arguments_of_an_implementation_are_its_own_parameters() {
    let params = MetaGenerics {
        params: vec![
            MetaGenericParam::Generic(GenericParam::Lifetime { lifetime: id("a"), bounds: vec![] }),
            MetaGenericParam::Generic(type_param("T", vec![])),
            MetaGenericParam::Generic(GenericParam::Const { ident: id("N"), ty: t("u8"), default: None }),
            MetaGenericParam::TypeBound { ident: id("B"), bounds: vec![] },
        ],
        where_clause: None,
    };
    let lifetime = |name: &str| Node::Lifetime { ident: id(name) };
    let check = |args: Vec<Node>| MetaItemList::check_trait_impl_args(&params, &angle(args));
    assert_eq!(check(vec![lifetime("a"), t("T"), t("N"), t("B")]), Ok(()));
    let err = check(vec![lifetime("a"), t("T"), t("N"), t("B"), t("More")]).unwrap_err();
    assert_eq!(err.reason, Reason::SuperfluousArgument);
    assert_eq!(err.kind(), ErrorKind::Cardinality);
    assert_eq!(err.message(), "superfluous argument");
    assert_eq!(check(vec![lifetime("a"), t("T")]).unwrap_err().reason, Reason::TooFewArguments);
    assert_eq!(check(vec![t("a"), t("T"), t("N"), t("B")]).unwrap_err().reason, Reason::LifetimeExpected);
    let err = check(vec![lifetime("b"), t("T"), t("N"), t("B")]).unwrap_err();
    assert_eq!(err.reason, Reason::LifetimeNamed);
    assert_eq!(err.message(), "lifetime `a` expected");
    let err = check(vec![lifetime("a"), lifetime("a"), t("N"), t("B")]).unwrap_err();
    assert_eq!(err.reason, Reason::VariableExpected);
    assert_eq!(check(vec![lifetime("a"), t("U"), t("N"), t("B")]).unwrap_err().reason, Reason::TypeNamed);
    let err = check(vec![lifetime("a"), t("T"), applied("N", vec![t("X")]), t("B")]).unwrap_err();
    assert_eq!(err.reason, Reason::ConstantNamed);
    assert_eq!(err.message(), "constant `N` expected");
    let err = check(vec![lifetime("a"), t("T"), t("N"), t("C")]).unwrap_err();
    assert_eq!(err.reason, Reason::TypeBoundNamed);
    assert_eq!(err.message(), "type bound `B` expected");
    let err = MetaItemList::check_trait_impl_args(&params, &None).unwrap_err();
    assert_eq!(err.reason, Reason::AngleBracketsExpected);
    let parens = Some(Box::new(tree(NodeKind::Parenthesized, "", vec![t("T")])));
    let err = MetaItemList::check_trait_impl_args(&params, &parens).unwrap_err();
    assert_eq!(err.reason, Reason::AngleBracketsExpected);
    let none = meta(vec![]);
    assert_eq!(MetaItemList::check_trait_impl_args(&none, &None), Ok(()));
    let err = MetaItemList::check_trait_impl_args(&none, &angle(vec![t("T")])).unwrap_err();
    assert_eq!(err.reason, Reason::NoArgumentsExpected);
    assert_eq!(err.kind(), ErrorKind::Cardinality);
}

#[test]
fn the_path_of_an_alias_carries_its_arguments_behind_the_last_name() {
    let trait_path = TraitPath {
        leading_colon: true,
        segments: vec![id("a"), id("Less")],
        arguments: MetaGenericArguments {
            span: sp(),
            args: vec![
                MetaGenericArgument::Generic(t("N")),
                MetaGenericArgument::TraitAlias { value: path(PathPlace::Plain, vec![("B", vec![])]) },
            ],
        },
    };
    assert_eq!(show(&trait_path.extract_path()), "::a::Less<N, B>");
    let bare = TraitPath {
        leading_colon: false,
        segments: vec![id("Less")],
        arguments: MetaGenericArguments { span: sp(), args: vec![] },
    };
    assert_eq!(show(&bare.extract_path()), "Less");
    assert_eq!(bare.extract_path(), path(PathPlace::Plain, vec![("Less", vec![])]));
}

#[test]
fn dependencies_are_collected_from_bounds() {
    let def = match list_def() {
        MetaItem::TraitDef(def) => def,
        _ => unreachable!(),
    };
    let mut part = None;
    let mut deps = vec![];
    let g = generics(vec![
        type_param("A", vec![bound("Num", vec![t("T")]), bound("Other", vec![t("X")])]),
        GenericParam::Lifetime { lifetime: id("a"), bounds: vec![] },
        type_param("B", vec![bound("Num", vec![t("Self")]), bound("Ord", vec![t("Self")])]),
    ]);
    def.collect_dependencies_in_generics(&g, &mut part, &mut deps);
    assert_eq!(part, None);
    assert_eq!(deps.iter().map(|i| i.name.as_str()).collect::<Vec<_>>(), vec!["Num", "Ord"]);
    def.collect_dependencies_in_bounds(&vec![bound("T", vec![])], &mut part, &mut deps);
    assert_eq!(part, Some(Ident::new("Self", sp())));
    let mut part = None;
    def.collect_dependencies_in_bounds(&vec![Node::Lifetime { ident: id("a") }, bound("List", vec![])], &mut part, &mut deps);
    assert_eq!(part, Some(Ident::new("Self", sp())));
    assert_eq!(deps.len(), 2);
    def.add_ident_to_dependencies(&id("List"), &mut deps);
    def.add_ident_to_dependencies(&id("Num"), &mut deps);
    assert_eq!(deps.len(), 2);
    def.add_ident_to_dependencies(&id("New"), &mut deps);
    def.add_path_to_dependencies(&path(PathPlace::Plain, vec![("Newer", vec![])]), &mut deps);
    def.add_path_to_dependencies(&path(PathPlace::Plain, vec![("a", vec![]), ("b", vec![])]), &mut deps);
    assert_eq!(
        deps.iter().map(|i| i.name.as_str()).collect::<Vec<_>>(),
        vec!["Num", "Ord", "New", "Newer"]
    );
}

#[test]
fn constants_and_functions_are_items_too() {
    let constant = TraitImplItem::Const(TraitImplItemConst {
        attrs: vec![],
        vis: vec![],
        ident: id("LEN"),
        ty: t("usize"),
        expr: matching(
            t("Self"),
            vec![
                arm(specific("Empty", vec![]), tree(NodeKind::Expr(ExprKind::Lit), "0", vec![])),
                arm(TypeLevelArmSelector::Default { span: sp() }, tree(NodeKind::Expr(ExprKind::Lit), "1", vec![])),
            ],
        ),
    });
    let function = TraitImplItem::Fn(TraitImplItemFn {
        attrs: vec![],
        vis: vec![],
        sig: Signature { ident: id("get"), generics: generics(vec![]), inputs: vec![], output: Some(t("u8")) },
        block: plain(tree(NodeKind::Expr(ExprKind::Lit), "7", vec![])),
    });
    let out = MetaItemList(vec![list_def(), list_impl(vec![constant, function])]).output().unwrap();
    let def = trait_at(&out, 0);
    assert_eq!(bodies(&def.impl_items), vec![named("LEN", None), named("get", Some("7"))]);
    assert_eq!(def.impl_items[0].kind, ItemKind::Const);
    assert_eq!(def.impl_items[0].header.iter().map(show).collect::<Vec<_>>(), vec!["usize"]);
    assert_eq!(def.impl_items[1].kind, ItemKind::Fn);
    let variants = def.variants.as_ref().unwrap();
    assert_eq!(bodies(&variants[1].impl_items), vec![named("LEN", Some("1"))]);
}

#[test]
fn a_definition_goes_by_the_names_of_its_implementation() {
    let elem = impl_type(
        "Elem",
        vec![bound("From", vec![t("T")])],
        matching(
            t("Self"),
            vec![
                arm(
                    specific("Cons", vec![type_param("A", vec![]), type_param("B", vec![])]),
                    applied("Pair", vec![t("A"), t("T")]),
                ),
                arm(TypeLevelArmSelector::Default { span: sp() }, t("T")),
            ],
        ),
    );
    let out = MetaItemList(vec![list_def(), list_impl(vec![elem])]).output().unwrap();
    let def = trait_at(&out, 0);
    assert_eq!(def.impl_items[0].header.iter().map(show).collect::<Vec<_>>(), vec!["From<T>"]);
    let variants = def.variants.as_ref().unwrap();
    assert_eq!(show_generics(&variants[1].variant.impl_generics), "<T_>");
    assert_eq!(bodies(&variants[0].impl_items), vec![named("Elem", Some("T_"))]);
    assert_eq!(bodies(&variants[1].impl_items), vec![named("Elem", Some("Pair<H_, T_>"))]);
    assert_eq!(variants[1].impl_items[0].header.iter().map(show).collect::<Vec<_>>(), vec!["From<T_>"]);
}

#[test]
fn an_item_of_an_implementation_matches_on_self() {
    let other = impl_type("X", vec![], matching(t("T"), vec![arm(specific("Empty", vec![]), t("A"))]));
    let err = failure(vec![list_def(), list_impl(vec![other])]);
    assert_eq!(err.reason, Reason::SelfExpected);
    assert_eq!(err.message(), "`match` on `Self` expected");
    assert_eq!(err.kind(), ErrorKind::Unsupported);
}

#[test]
fn an_implementation_with_an_argument_too_many_is_refused() {
    let extra = MetaItem::TraitImpl(ItemTraitImpl {
        generics: meta(vec![type_param("T", vec![])]),
        self_trait: path(PathPlace::Plain, vec![("List", vec![t("T"), t("U")])]),
        items: vec![],
    });
    let err = failure(vec![list_def(), extra]);
    assert_eq!(err.reason, Reason::SuperfluousArgument);
}
