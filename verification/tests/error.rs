use enum_trait::error::ErrorKind::{
    Cardinality, KindMismatch, MissingDispatch, StructuralMismatch, UnknownTarget, Unsupported,
};
use enum_trait::error::{Error, Reason};
use enum_trait::generics::ParamKind;
use enum_trait::syntax::Span;

fn message(reason: Reason, name: &str) -> String {
    Error::named(reason, Span { id: 1 }, &name.to_string()).message()
}

#[test]
fn plain_messages_do_not_show_a_name() {
    let plain = [
        (Reason::NonLifetimeArg, "non-lifetime arg for lifetime param"),
        (Reason::NonConstArg, "non-const arg for const param"),
        (Reason::NonTypeArg, "non-type arg for type param"),
        (Reason::SingleSegmentPath, "cannot replace single-segment path with type arg"),
        (Reason::UnsupportedItem, "substitution not supported within this item"),
        (Reason::TooFewArguments, "too few arguments"),
        (Reason::SuperfluousArgument, "superfluous argument"),
        (Reason::TooFewParameters, "too few parameters"),
        (Reason::SuperfluousParameter, "superfluous parameter"),
        (Reason::LifetimeParamExpected, "lifetime parameter expected"),
        (Reason::TypeParamExpected, "type parameter expected"),
        (Reason::ConstParamExpected, "const parameter expected"),
        (Reason::NontrivialImplPath, "trait impl cannot have nontrivial path"),
        (Reason::NestedMatch, "`match` within an arm of `match` is not supported"),
        (Reason::OneTypeExpected, "`match` on exactly one type expected"),
        (Reason::SelfExpected, "`match` on `Self` expected"),
        (Reason::NoArgumentsExpected, "no arguments expected"),
        (Reason::AngleBracketsExpected, "arguments in angle brackets expected"),
        (Reason::LifetimeExpected, "lifetime expected"),
        (Reason::VariableExpected, "variable expected"),
        (
            Reason::MatchRequiredForWhere,
            "at least one `match` expression corresponding to `where` clause required",
        ),
        (
            Reason::MatchRequiredForAlias,
            "at least one `match` expression corresponding to alias arguments required",
        ),
    ];
    for (reason, text) in plain {
        assert_eq!(message(reason, "ignored"), text);
        assert_eq!(Error::new(reason, Span { id: 2 }).message(), text);
    }
}

#[test]
fn named_messages_show_the_name() {
    let named = [
        (Reason::TypeParamNotFound, "type param `N` not found"),
        (Reason::ConstParamFound, "type param expected, but `N` is a const param"),
        (Reason::TraitNotFound, "trait `N` not found"),
        (Reason::DuplicateItem, "duplicate item `N`"),
        (Reason::ParamsDiffer, "parameters must match those of trait `N`"),
        (Reason::CyclicAlias, "trait alias `N` refers to itself"),
        (Reason::VariantNotFound, "variant `N` not found"),
        (Reason::NoTraitBound, "type param `N` has no trait to match on"),
        (Reason::LifetimeNamed, "lifetime `N` expected"),
        (Reason::TypeNamed, "type `N` expected"),
        (Reason::ConstantNamed, "constant `N` expected"),
        (Reason::TypeBoundNamed, "type bound `N` expected"),
    ];
    for (reason, text) in named {
        assert_eq!(message(reason, "N"), text);
    }
}

#[test]
fn every_reason_has_its_class() {
    let classes = [
        (Reason::NonLifetimeArg, KindMismatch),
        (Reason::NonConstArg, KindMismatch),
        (Reason::NonTypeArg, KindMismatch),
        (Reason::LifetimeParamExpected, KindMismatch),
        (Reason::TypeParamExpected, KindMismatch),
        (Reason::ConstParamExpected, KindMismatch),
        (Reason::ConstParamFound, KindMismatch),
        (Reason::SingleSegmentPath, Unsupported),
        (Reason::UnsupportedItem, Unsupported),
        (Reason::NestedMatch, Unsupported),
        (Reason::OneTypeExpected, Unsupported),
        (Reason::SelfExpected, Unsupported),
        (Reason::TooFewArguments, Cardinality),
        (Reason::SuperfluousArgument, Cardinality),
        (Reason::TooFewParameters, Cardinality),
        (Reason::SuperfluousParameter, Cardinality),
        (Reason::NoArgumentsExpected, Cardinality),
        (Reason::TypeParamNotFound, UnknownTarget),
        (Reason::TraitNotFound, UnknownTarget),
        (Reason::VariantNotFound, UnknownTarget),
        (Reason::NoTraitBound, UnknownTarget),
        (Reason::MatchRequiredForWhere, MissingDispatch),
        (Reason::MatchRequiredForAlias, MissingDispatch),
        (Reason::NontrivialImplPath, StructuralMismatch),
        (Reason::DuplicateItem, StructuralMismatch),
        (Reason::ParamsDiffer, StructuralMismatch),
        (Reason::CyclicAlias, StructuralMismatch),
        (Reason::AngleBracketsExpected, StructuralMismatch),
        (Reason::LifetimeExpected, StructuralMismatch),
        (Reason::VariableExpected, StructuralMismatch),
        (Reason::LifetimeNamed, StructuralMismatch),
        (Reason::TypeNamed, StructuralMismatch),
        (Reason::ConstantNamed, StructuralMismatch),
        (Reason::TypeBoundNamed, StructuralMismatch),
    ];
    for (reason, class) in classes {
        assert_eq!(reason.kind(), class);
        assert_eq!(Error::new(reason, Span { id: 0 }).kind(), class);
    }
}

#[test]
fn a_mismatch_names_the_kind_of_the_parameter() {
    let here = Span { id: 8 };
    assert_eq!(Error::mismatch(ParamKind::Lifetime, here), Error::new(Reason::NonLifetimeArg, here));
    assert_eq!(Error::mismatch(ParamKind::Type, here), Error::new(Reason::NonTypeArg, here));
    assert_eq!(Error::mismatch(ParamKind::Const, here), Error::new(Reason::NonConstArg, here));
    let error = Error::named(Reason::TraitNotFound, here, &"T".to_string());
    assert_eq!(error.clone(), error);
    assert_eq!(error.name, "T");
    assert_eq!(error.span, here);
}
