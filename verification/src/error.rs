//! The failures that lowering reports: each names the first offending place.

use vstd::prelude::*;
use vstd::string::StringExecFns;
use crate::generics::ParamKind;
use crate::syntax::Span;

verus! {

/// The classes of failure.
#[derive(Clone, Copy, Debug, PartialEq, Eq, Structural, Hash)]
pub enum ErrorKind {
    /// An argument's kind disagrees with the parameter it is given for.
    KindMismatch,
    /// An implementation disagrees with the shape of its target.
    StructuralMismatch,
    /// A trait that must be dispatched on receives no `match`.
    MissingDispatch,
    /// A name refers to nothing that was declared.
    UnknownTarget,
    /// A construct that the engine does not rewrite.
    Unsupported,
    /// Too few or too many arguments or parameters.
    Cardinality,
}

/// What went wrong. Where a reason speaks of a name, the error carries it.
#[derive(Clone, Copy, Debug, PartialEq, Eq, Structural, Hash)]
pub enum Reason {
    NonLifetimeArg,
    NonConstArg,
    NonTypeArg,
    SingleSegmentPath,
    UnsupportedItem,
    TooFewArguments,
    SuperfluousArgument,
    TooFewParameters,
    SuperfluousParameter,
    LifetimeParamExpected,
    TypeParamExpected,
    ConstParamExpected,
    /// No type parameter of the given name is in scope.
    TypeParamNotFound,
    /// The given name is a const parameter where a type parameter is needed.
    ConstParamFound,
    NontrivialImplPath,
    /// No trait of the given name was declared.
    TraitNotFound,
    /// The given item is defined twice for one trait.
    DuplicateItem,
    /// The parameters of an implementation differ from those of its trait.
    ParamsDiffer,
    /// The given alias refers to itself.
    CyclicAlias,
    /// The trait has no variant of the given name.
    VariantNotFound,
    /// The type parameter of the given name has no trait to dispatch on.
    NoTraitBound,
    NestedMatch,
    OneTypeExpected,
    /// An item of an implementation matches on another type than `Self`.
    SelfExpected,
    NoArgumentsExpected,
    AngleBracketsExpected,
    LifetimeExpected,
    VariableExpected,
    /// The argument must be the lifetime of the given name.
    LifetimeNamed,
    /// The argument must be the type parameter of the given name.
    TypeNamed,
    /// The argument must be the const parameter of the given name.
    ConstantNamed,
    /// The argument must be the type bound of the given name.
    TypeBoundNamed,
    MatchRequiredForWhere,
    MatchRequiredForAlias,
}

impl Reason {
    /// The class that a reason belongs to.
    pub open spec fn spec_kind(self) -> ErrorKind {
        match self {
            Reason::NonLifetimeArg | Reason::NonConstArg | Reason::NonTypeArg
            | Reason::LifetimeParamExpected | Reason::TypeParamExpected
            | Reason::ConstParamExpected | Reason::ConstParamFound => ErrorKind::KindMismatch,
            Reason::SingleSegmentPath | Reason::UnsupportedItem | Reason::NestedMatch
            | Reason::OneTypeExpected | Reason::SelfExpected => ErrorKind::Unsupported,
            Reason::TooFewArguments | Reason::SuperfluousArgument | Reason::TooFewParameters
            | Reason::SuperfluousParameter | Reason::NoArgumentsExpected => ErrorKind::Cardinality,
            Reason::TypeParamNotFound | Reason::TraitNotFound | Reason::VariantNotFound
            | Reason::NoTraitBound => ErrorKind::UnknownTarget,
            Reason::MatchRequiredForWhere | Reason::MatchRequiredForAlias => ErrorKind::MissingDispatch,
            _ => ErrorKind::StructuralMismatch,
        }
    }

    pub fn kind(self) -> (kind: ErrorKind)
        ensures
            kind == self.spec_kind(),
    {
        match self {
            Reason::NonLifetimeArg | Reason::NonConstArg | Reason::NonTypeArg
            | Reason::LifetimeParamExpected | Reason::TypeParamExpected
            | Reason::ConstParamExpected | Reason::ConstParamFound => ErrorKind::KindMismatch,
            Reason::SingleSegmentPath | Reason::UnsupportedItem | Reason::NestedMatch
            | Reason::OneTypeExpected | Reason::SelfExpected => ErrorKind::Unsupported,
            Reason::TooFewArguments | Reason::SuperfluousArgument | Reason::TooFewParameters
            | Reason::SuperfluousParameter | Reason::NoArgumentsExpected => ErrorKind::Cardinality,
            Reason::TypeParamNotFound | Reason::TraitNotFound | Reason::VariantNotFound
            | Reason::NoTraitBound => ErrorKind::UnknownTarget,
            Reason::MatchRequiredForWhere | Reason::MatchRequiredForAlias => ErrorKind::MissingDispatch,
            _ => ErrorKind::StructuralMismatch,
        }
    }
}

/// The reason for which an argument that is no `kind` is refused.
pub open spec fn mismatch_reason(kind: ParamKind) -> Reason {
    match kind {
        ParamKind::Lifetime => Reason::NonLifetimeArg,
        ParamKind::Type => Reason::NonTypeArg,
        ParamKind::Const => Reason::NonConstArg,
    }
}

/// A failure: what went wrong, where, and the name it is about, if any.
#[derive(Debug, PartialEq, Eq, Hash)]
pub struct Error {
    pub reason: Reason,
    pub span: Span,
    /// The name that the reason speaks of; empty where it speaks of none.
    pub name: String,
}

pub struct ErrorView {
    pub reason: Reason,
    pub span: Span,
    pub name: Seq<char>,
}

impl View for Error {
    type V = ErrorView;

    open spec fn view(&self) -> ErrorView {
        ErrorView { reason: self.reason, span: self.span, name: self.name@ }
    }
}

impl Clone for Error {
    fn clone(&self) -> (res: Error)
        ensures
            res@ == self@,
    {
        Error { reason: self.reason, span: self.span, name: self.name.clone() }
    }
}

/// A failure that speaks of no name, as a value.
pub open spec fn plain_error(reason: Reason, span: Span) -> ErrorView {
    ErrorView { reason, span, name: Seq::empty() }
}

impl Error {
    /// A failure that speaks of no name.
    pub fn new(reason: Reason, span: Span) -> (error: Error)
        ensures
            error@ == plain_error(reason, span),
    {
        Error { reason, span, name: String::new() }
    }

    /// A failure that speaks of a name.
    pub fn named(reason: Reason, span: Span, name: &String) -> (error: Error)
        ensures
            error@ == (ErrorView { reason, span, name: name@ }),
    {
        Error { reason, span, name: name.clone() }
    }

    /// The failure for an argument that is no `kind`.
    pub fn mismatch(kind: ParamKind, span: Span) -> (error: Error)
        ensures
            error@ == plain_error(mismatch_reason(kind), span),
    {
        let reason = match kind {
            ParamKind::Lifetime => Reason::NonLifetimeArg,
            ParamKind::Type => Reason::NonTypeArg,
            ParamKind::Const => Reason::NonConstArg,
        };
        Error::new(reason, span)
    }

    pub fn kind(&self) -> (kind: ErrorKind)
        ensures
            kind == self@.reason.spec_kind(),
    {
        self.reason.kind()
    }

    /// The text before and after the name in the message of a reason.
    pub open spec fn spec_frame(reason: Reason) -> (Seq<char>, Seq<char>) {
        match reason {
            Reason::NonLifetimeArg => ("non-lifetime arg for lifetime param"@, ""@),
            Reason::NonConstArg => ("non-const arg for const param"@, ""@),
            Reason::NonTypeArg => ("non-type arg for type param"@, ""@),
            Reason::SingleSegmentPath => ("cannot replace single-segment path with type arg"@, ""@),
            Reason::UnsupportedItem => ("substitution not supported within this item"@, ""@),
            Reason::TooFewArguments => ("too few arguments"@, ""@),
            Reason::SuperfluousArgument => ("superfluous argument"@, ""@),
            Reason::TooFewParameters => ("too few parameters"@, ""@),
            Reason::SuperfluousParameter => ("superfluous parameter"@, ""@),
            Reason::LifetimeParamExpected => ("lifetime parameter expected"@, ""@),
            Reason::TypeParamExpected => ("type parameter expected"@, ""@),
            Reason::ConstParamExpected => ("const parameter expected"@, ""@),
            Reason::TypeParamNotFound => ("type param `"@, "` not found"@),
            Reason::ConstParamFound => ("type param expected, but `"@, "` is a const param"@),
            Reason::NontrivialImplPath => ("trait impl cannot have nontrivial path"@, ""@),
            Reason::TraitNotFound => ("trait `"@, "` not found"@),
            Reason::DuplicateItem => ("duplicate item `"@, "`"@),
            Reason::ParamsDiffer => ("parameters must match those of trait `"@, "`"@),
            Reason::CyclicAlias => ("trait alias `"@, "` refers to itself"@),
            Reason::VariantNotFound => ("variant `"@, "` not found"@),
            Reason::NoTraitBound => ("type param `"@, "` has no trait to match on"@),
            Reason::NestedMatch => ("`match` within an arm of `match` is not supported"@, ""@),
            Reason::OneTypeExpected => ("`match` on exactly one type expected"@, ""@),
            Reason::SelfExpected => ("`match` on `Self` expected"@, ""@),
            Reason::NoArgumentsExpected => ("no arguments expected"@, ""@),
            Reason::AngleBracketsExpected => ("arguments in angle brackets expected"@, ""@),
            Reason::LifetimeExpected => ("lifetime expected"@, ""@),
            Reason::VariableExpected => ("variable expected"@, ""@),
            Reason::LifetimeNamed => ("lifetime `"@, "` expected"@),
            Reason::TypeNamed => ("type `"@, "` expected"@),
            Reason::ConstantNamed => ("constant `"@, "` expected"@),
            Reason::TypeBoundNamed => ("type bound `"@, "` expected"@),
            Reason::MatchRequiredForWhere => (
                "at least one `match` expression corresponding to `where` clause required"@,
                ""@,
            ),
            Reason::MatchRequiredForAlias => (
                "at least one `match` expression corresponding to alias arguments required"@,
                ""@,
            ),
        }
    }

    /// The message of a failure: the reason's text round the name.
    pub open spec fn spec_message(error: ErrorView) -> Seq<char> {
        let frame = Self::spec_frame(error.reason);
        if frame.1.len() == 0 {
            frame.0
        } else {
            frame.0 + error.name + frame.1
        }
    }

    fn frame(reason: Reason) -> (res: (&'static str, &'static str))
        ensures
            (res.0@, res.1@) == Self::spec_frame(reason),
    {
        match reason {
            Reason::NonLifetimeArg => ("non-lifetime arg for lifetime param", ""),
            Reason::NonConstArg => ("non-const arg for const param", ""),
            Reason::NonTypeArg => ("non-type arg for type param", ""),
            Reason::SingleSegmentPath => ("cannot replace single-segment path with type arg", ""),
            Reason::UnsupportedItem => ("substitution not supported within this item", ""),
            Reason::TooFewArguments => ("too few arguments", ""),
            Reason::SuperfluousArgument => ("superfluous argument", ""),
            Reason::TooFewParameters => ("too few parameters", ""),
            Reason::SuperfluousParameter => ("superfluous parameter", ""),
            Reason::LifetimeParamExpected => ("lifetime parameter expected", ""),
            Reason::TypeParamExpected => ("type parameter expected", ""),
            Reason::ConstParamExpected => ("const parameter expected", ""),
            Reason::TypeParamNotFound => ("type param `", "` not found"),
            Reason::ConstParamFound => ("type param expected, but `", "` is a const param"),
            Reason::NontrivialImplPath => ("trait impl cannot have nontrivial path", ""),
            Reason::TraitNotFound => ("trait `", "` not found"),
            Reason::DuplicateItem => ("duplicate item `", "`"),
            Reason::ParamsDiffer => ("parameters must match those of trait `", "`"),
            Reason::CyclicAlias => ("trait alias `", "` refers to itself"),
            Reason::VariantNotFound => ("variant `", "` not found"),
            Reason::NoTraitBound => ("type param `", "` has no trait to match on"),
            Reason::NestedMatch => ("`match` within an arm of `match` is not supported", ""),
            Reason::OneTypeExpected => ("`match` on exactly one type expected", ""),
            Reason::SelfExpected => ("`match` on `Self` expected", ""),
            Reason::NoArgumentsExpected => ("no arguments expected", ""),
            Reason::AngleBracketsExpected => ("arguments in angle brackets expected", ""),
            Reason::LifetimeExpected => ("lifetime expected", ""),
            Reason::VariableExpected => ("variable expected", ""),
            Reason::LifetimeNamed => ("lifetime `", "` expected"),
            Reason::TypeNamed => ("type `", "` expected"),
            Reason::ConstantNamed => ("constant `", "` expected"),
            Reason::TypeBoundNamed => ("type bound `", "` expected"),
            Reason::MatchRequiredForWhere => (
                "at least one `match` expression corresponding to `where` clause required",
                "",
            ),
            Reason::MatchRequiredForAlias => (
                "at least one `match` expression corresponding to alias arguments required",
                "",
            ),
        }
    }

    /// The message of the failure, for a reader.
    pub fn message(&self) -> (text: String)
        ensures
            text@ == Self::spec_message(self@),
    {
        let (before, after) = Self::frame(self.reason);
        let mut text = String::from_str(before);
        if after.unicode_len() > 0 {
            text.append(self.name.as_str());
            text.append(after);
        }
        text
    }
}

} // verus!
