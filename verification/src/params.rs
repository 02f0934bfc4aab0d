//! Renaming whole parameter lists: away from conflicts, to the names of
//! another list, or under a common prefix.

use vstd::prelude::*;
use vstd::string::StringExecFns;
use crate::binder::{generics_substituted, substitute_generics};
use crate::error::{plain_error, Error, ErrorView, Reason};
use crate::generics::{clone_params, GenericParamView, Generics, GenericsView, ParamKind};
use crate::rename::{
    conflicts, rename_params, renamed_generics, renames, renames_view, Conflict, ConflictView,
    Rename, RenameView,
};
use crate::subst::{arg_span, ArgView, ParamSubstArg};
use crate::substitutable::{
    substitute, substitution_error, substitution_result, ParamSubst, Substitutable,
};
use crate::syntax::{nodes_view, Node, NodeView, Span};

verus! {

/// The fragment `v` after the renamings `rs`, one after the other.
pub open spec fn renamed_body<S: Substitutable>(v: S::V, rs: Seq<RenameView>) -> S::V
    decreases rs.len(),
{
    if rs.len() == 0 {
        v
    } else {
        S::substituted_in(
            renamed_body::<S>(v, rs.drop_last()),
            rs.last().from,
            ArgView::Param(rs.last().to),
        )
    }
}

/// Applies renamings to a fragment, one after the other.
pub fn apply_renames<S: Substitutable>(body: &mut S, rs: &Vec<Rename>)
    ensures
        final(body)@ == renamed_body::<S>(old(body)@, renames_view(rs@)),
        S::unsupported(final(body)@) == S::unsupported(old(body)@),
{
    let ghost views = renames_view(rs@);
    let mut k: usize = 0;
    while k < rs.len()
        invariant
            k <= rs@.len(),
            views == renames_view(rs@),
            body@ == renamed_body::<S>(old(body)@, views.take(k as int)),
            S::unsupported(body@) == S::unsupported(old(body)@),
        decreases rs@.len() - k,
    {
        let subst = ParamSubst::new(&rs[k].from, ParamSubstArg::Param(&rs[k].to));
        body.substitute_impl(&subst);
        proof {
            assert(views.take(k + 1).drop_last() =~= views.take(k as int));
            assert(views.take(k + 1).last() == views[k as int]);
        }
        k += 1;
    }
    assert(views.take(k as int) =~= views);
}

/// Renames every parameter of `generics` that is in conflict: underscores are
/// appended to its name until it is in conflict no more, and every reference
/// to it in `generics` and in `body` follows. Says whether any was renamed.
///
/// Fails, and changes nothing, where a parameter has to be renamed and `body`
/// cannot be rewritten. Where nothing has to be renamed, `body` is not looked
/// at.
pub fn rename_conflicting_params<S: Substitutable>(
    generics: &mut Generics,
    conflicting: &Conflict,
    body: &mut S,
) -> (res: Result<bool, Error>)
    ensures
        match res {
            Ok(renamed) => {
                let n = old(generics)@.params.len();
                &&& !(S::unsupported(old(body)@) is Some && renamed)
                &&& final(generics)@ == renamed_generics(conflicting@, old(generics)@, n)
                &&& final(body)@ == renamed_body::<S>(
                    old(body)@,
                    renames(conflicting@, old(generics)@, n),
                )
                &&& renamed == (renames(conflicting@, old(generics)@, n).len() > 0)
            },
            Err(e) => {
                &&& S::unsupported(old(body)@) == Some(e@)
                &&& renames(conflicting@, old(generics)@, old(generics)@.params.len()).len() > 0
                &&& final(generics)@ == old(generics)@
                &&& final(body)@ == old(body)@
            },
        },
        final(generics)@.params.len() == old(generics)@.params.len(),
        res is Ok ==> forall|i: int|
            0 <= i < final(generics)@.params.len() ==> !conflicts(
                conflicting@,
                #[trigger] final(generics)@.params[i],
            ),
        forall|i: int|
            0 <= i < final(generics)@.params.len() ==> (#[trigger] final(generics)@.params[i]).kind()
                == old(generics)@.params[i].kind(),
        S::unsupported(final(body)@) == S::unsupported(old(body)@),
{
    let mut renamed = generics.clone();
    let rs = rename_params(&mut renamed, conflicting);
    if rs.len() > 0 {
        match body.check_supported() {
            Err(e) => {
                return Err(e);
            },
            Ok(_) => {},
        }
    }
    *generics = renamed;
    apply_renames(body, &rs);
    Ok(rs.len() > 0)
}

/// Appends underscores to the name of every parameter of `generics` until it
/// differs from all the names that the list had, and lets the references
/// inside the list follow. Says whether any was renamed.
pub fn add_underscores_to_all_params(generics: &mut Generics) -> (res: Result<bool, Error>)
    ensures
        res is Ok,
        ({
            let c = ConflictView::Params(old(generics)@.params);
            let n = old(generics)@.params.len();
            &&& final(generics)@ == renamed_generics(c, old(generics)@, n)
            &&& res->Ok_0 == (renames(c, old(generics)@, n).len() > 0)
            &&& final(generics)@.params.len() == n
            &&& forall|i: int| 0 <= i < n ==> !conflicts(c, #[trigger] final(generics)@.params[i])
        }),
{
    let copy = clone_params(&generics.params);
    let mut nothing = ();
    rename_conflicting_params(generics, &Conflict::Params(&copy), &mut nothing)
}

/// The reason for which a target parameter of another kind than `kind` is
/// refused.
pub open spec fn expected_reason(kind: ParamKind) -> Reason {
    match kind {
        ParamKind::Lifetime => Reason::LifetimeParamExpected,
        ParamKind::Type => Reason::TypeParamExpected,
        ParamKind::Const => Reason::ConstParamExpected,
    }
}

/// Why the parameters from `i` on cannot take the names of `target`, if they
/// cannot: the first parameter that has no partner or one of another kind, or
/// else the first partner that is left over.
pub open spec fn pairing_error(
    params: Seq<GenericParamView>,
    target: GenericsView,
    i: int,
) -> Option<ErrorView>
    decreases params.len() - i,
{
    if i < 0 {
        None
    } else if i >= params.len() {
        if i < target.params.len() {
            Some(plain_error(Reason::SuperfluousParameter, target.params[i].ident().span))
        } else {
            None
        }
    } else if i >= target.params.len() {
        Some(plain_error(Reason::TooFewParameters, target.span()))
    } else if params[i].kind() != target.params[i].kind() {
        Some(plain_error(expected_reason(params[i].kind()), target.params[i].ident().span))
    } else {
        pairing_error(params, target, i + 1)
    }
}

/// The parameter list after its parameter `i` took the identifier of its
/// partner in `target`, with every reference to it following.
pub open spec fn pair_step(g: GenericsView, target: Seq<GenericParamView>, i: int) -> GenericsView {
    if 0 <= i < g.params.len() && i < target.len() {
        let q = g.params[i];
        generics_substituted(
            GenericsView {
                params: g.params.update(i, q.with_ident(target[i].ident())),
                where_clause: g.where_clause,
            },
            q,
            ArgView::Param(target[i]),
        )
    } else {
        g
    }
}

/// The parameter list after its first `n` parameters took the identifiers of
/// their partners, in order.
pub open spec fn paired_generics(g: GenericsView, target: Seq<GenericParamView>, n: nat) -> GenericsView
    decreases n,
{
    if n == 0 {
        g
    } else {
        pair_step(paired_generics(g, target, (n - 1) as nat), target, n - 1)
    }
}

/// Why the parameters of `generics` cannot take the names of `target`.
fn check_pairing(generics: &Generics, target: &Generics) -> (res: Result<(), Error>)
    ensures
        match res {
            Ok(_) => pairing_error(generics@.params, target@, 0) is None,
            Err(e) => pairing_error(generics@.params, target@, 0) == Some(e@),
        },
        res is Ok ==> generics@.params.len() == target@.params.len(),
{
    let mut i: usize = 0;
    while i < generics.params.len()
        invariant
            i <= generics.params@.len(),
            i <= target.params@.len(),
            pairing_error(generics@.params, target@, i as int) == pairing_error(
                generics@.params,
                target@,
                0,
            ),
        decreases generics.params@.len() - i,
    {
        if i >= target.params.len() {
            return Err(Error::new(Reason::TooFewParameters, target.span()));
        }
        let kind = generics.params[i].kind();
        if kind != target.params[i].kind() {
            let reason = match kind {
                ParamKind::Lifetime => Reason::LifetimeParamExpected,
                ParamKind::Type => Reason::TypeParamExpected,
                ParamKind::Const => Reason::ConstParamExpected,
            };
            return Err(Error::new(reason, target.params[i].ident().span));
        }
        i += 1;
    }
    if i < target.params.len() {
        return Err(Error::new(Reason::SuperfluousParameter, target.params[i].ident().span));
    }
    Ok(())
}

/// Gives the parameters of `generics` the names of the parameters of
/// `target_generics`, position by position, and lets every reference inside
/// the list follow. Parameters whose names are among the target's are renamed
/// out of the way first.
///
/// Fails, and changes nothing, where the lists differ in length or a parameter
/// and its partner differ in kind.
pub fn rename_all_params(generics: &mut Generics, target_generics: &Generics) -> (res: Result<
    (),
    Error,
>)
    ensures
        match res {
            Ok(_) => {
                let n = old(generics)@.params.len();
                let c = ConflictView::Params(target_generics@.params);
                &&& pairing_error(old(generics)@.params, target_generics@, 0) is None
                &&& final(generics)@ == paired_generics(
                    renamed_generics(c, old(generics)@, n),
                    target_generics@.params,
                    n,
                )
                &&& final(generics)@.params.len() == n
                &&& forall|i: int|
                    0 <= i < n ==> (#[trigger] final(generics)@.params[i]).ident()
                        == target_generics@.params[i].ident()
            },
            Err(e) => {
                &&& pairing_error(old(generics)@.params, target_generics@, 0) == Some(e@)
                &&& final(generics)@ == old(generics)@
            },
        },
{
    match check_pairing(generics, target_generics) {
        Err(e) => {
            return Err(e);
        },
        Ok(_) => {},
    }
    let ghost g0 = generics@;
    let ghost target = target_generics@.params;
    let mut nothing = ();
    let _ = rename_conflicting_params(
        generics,
        &Conflict::Params(&target_generics.params),
        &mut nothing,
    );
    let ghost g1 = generics@;
    let mut i: usize = 0;
    while i < generics.params.len()
        invariant
            i <= generics.params@.len(),
            generics.params@.len() == g1.params.len(),
            generics@.params.len() == g1.params.len(),
            target == target_generics@.params,
            target.len() == g1.params.len(),
            target_generics.params@.len() == g1.params.len(),
            generics@ == paired_generics(g1, target, i as nat),
            forall|j: int| 0 <= j < i ==> (#[trigger] generics@.params[j]).ident() == target[j].ident(),
        decreases generics.params@.len() - i,
    {
        let ghost g2 = generics@;
        let target_param = &target_generics.params[i];
        let old_param = generics.params[i].clone();
        generics.params[i].set_ident(target_param.ident().clone());
        proof {
            assert(generics@.params =~= g2.params.update(
                i as int,
                g2.params[i as int].with_ident(target[i as int].ident()),
            ));
        }
        let ghost g3 = generics@;
        substitute_generics(generics, &old_param, ParamSubstArg::Param(target_param));
        proof {
            assert(generics@ == pair_step(g2, target, i as int));
            assert forall|j: int| 0 <= j <= i implies (#[trigger] generics@.params[j]).ident()
                == target[j].ident() by {
                assert(generics@.params[j].ident() == g3.params[j].ident());
            }
            assert(generics.params@.len() == generics@.params.len());
        }
        i += 1;
    }
    Ok(())
}

/// A name with a prefix in front of it.
pub open spec fn prefixed(q: GenericParamView, prefix: Seq<char>) -> GenericParamView {
    q.with_name(prefix + q.name())
}

/// The parameter list after the name of its parameter `i` got the prefix,
/// with every reference to it following.
pub open spec fn prefix_step(g: GenericsView, prefix: Seq<char>, i: int) -> GenericsView {
    if 0 <= i < g.params.len() {
        let q = g.params[i];
        generics_substituted(
            GenericsView { params: g.params.update(i, prefixed(q, prefix)), where_clause: g.where_clause },
            q,
            ArgView::Param(prefixed(q, prefix)),
        )
    } else {
        g
    }
}

/// The parameter list after the names of its first `n` parameters got the
/// prefix, in order.
pub open spec fn prefixed_generics(g: GenericsView, prefix: Seq<char>, n: nat) -> GenericsView
    decreases n,
{
    if n == 0 {
        g
    } else {
        prefix_step(prefixed_generics(g, prefix, (n - 1) as nat), prefix, n - 1)
    }
}

/// Puts `prefix` in front of the name of every parameter of `generics`, and
/// lets every reference inside the list follow.
pub fn add_prefix_to_all_params(generics: &mut Generics, prefix: &str) -> (res: Result<(), Error>)
    ensures
        res is Ok,
        final(generics)@ == prefixed_generics(old(generics)@, prefix@, old(generics)@.params.len()),
        final(generics)@.params.len() == old(generics)@.params.len(),
{
    let ghost g0 = generics@;
    let mut i: usize = 0;
    while i < generics.params.len()
        invariant
            i <= generics.params@.len(),
            generics.params@.len() == g0.params.len(),
            generics@.params.len() == g0.params.len(),
            generics@ == prefixed_generics(g0, prefix@, i as nat),
        decreases generics.params@.len() - i,
    {
        let ghost g1 = generics@;
        let old_param = generics.params[i].clone();
        let mut name = String::from_str(prefix);
        name.append(old_param.ident().name.as_str());
        generics.params[i].set_name(name);
        let new_param = generics.params[i].clone();
        proof {
            assert(generics@.params =~= g1.params.update(i as int, prefixed(g1.params[i as int], prefix@)));
        }
        substitute_generics(generics, &old_param, ParamSubstArg::Param(&new_param));
        proof {
            assert(generics@ == prefix_step(g1, prefix@, i as int));
            assert(generics.params@.len() == generics@.params.len());
        }
        i += 1;
    }
    Ok(())
}

/// The fragment `v` after the first `n` of `params` were replaced by their
/// partners in `args`, one after the other, and whether any of them occurred;
/// or the first failure on the way. A parameter without a partner fails with
/// `missing`.
pub open spec fn filled<S: Substitutable>(
    v: S::V,
    params: Seq<GenericParamView>,
    args: Seq<ArgView>,
    missing: ErrorView,
    n: nat,
) -> Result<(S::V, bool), ErrorView>
    decreases n,
{
    if n == 0 {
        Ok((v, false))
    } else {
        match filled::<S>(v, params, args, missing, (n - 1) as nat) {
            Err(e) => Err(e),
            Ok((earlier, found)) => if n - 1 >= args.len() || n - 1 >= params.len() {
                Err(missing)
            } else {
                match substitution_error::<S>(earlier, params[n - 1], args[n - 1]) {
                    Some(e) => Err(e),
                    None => Ok(
                        (
                            substitution_result::<S>(earlier, params[n - 1], args[n - 1]),
                            found || S::occurrences_in(earlier, params[n - 1]).len() > 0,
                        ),
                    ),
                }
            },
        }
    }
}

/// What replacing all of `generics` in `v` by `args` gives: the parameters are
/// first renamed out of the way of what the arguments refer to, then replaced
/// in order. An argument that is left over fails with `superfluous` at its own
/// location. A fragment that cannot be rewritten fails where the first
/// renaming or the first replacement is asked of it, and not before.
pub open spec fn all_filled<S: Substitutable>(
    v: S::V,
    generics: GenericsView,
    c: ConflictView,
    args: Seq<ArgView>,
    missing: ErrorView,
    superfluous: Reason,
) -> Result<(S::V, bool), ErrorView> {
    let n = generics.params.len();
    let rs = renames(c, generics, n);
    if S::unsupported(v) is Some && rs.len() > 0 {
        Err(S::unsupported(v)->0)
    } else {
        match filled::<S>(
            renamed_body::<S>(v, rs),
            renamed_generics(c, generics, n).params,
            args,
            missing,
            n,
        ) {
            Err(e) => Err(e),
            Ok((after, found)) => if n < args.len() {
                Err(plain_error(superfluous, arg_span(args[n as int])))
            } else {
                Ok((after, found || rs.len() > 0))
            },
        }
    }
}

/// A list of parameters, each as an argument.
pub open spec fn param_args(params: Seq<GenericParamView>) -> Seq<ArgView> {
    Seq::new(params.len(), |i: int| ArgView::Param(params[i]))
}

/// A list of trees, each as an argument.
pub open spec fn node_args(nodes: Seq<NodeView>) -> Seq<ArgView> {
    Seq::new(nodes.len(), |i: int| ArgView::Arg(nodes[i]))
}

/// A failure on the way stays the outcome, however far the work is taken.
pub proof fn lemma_filled_failure<S: Substitutable>(
    v: S::V,
    params: Seq<GenericParamView>,
    args: Seq<ArgView>,
    missing: ErrorView,
    k: nat,
    n: nat,
)
    requires
        k <= n,
        filled::<S>(v, params, args, missing, k) is Err,
    ensures
        filled::<S>(v, params, args, missing, n) == filled::<S>(v, params, args, missing, k),
    decreases n,
{
    if k < n {
        lemma_filled_failure::<S>(v, params, args, missing, k, (n - 1) as nat);
    }
}

/// The fragment as far as the work on the first `n` parameters comes: up to
/// the first failure, if there is one.
pub open spec fn reached<S: Substitutable>(
    v: S::V,
    params: Seq<GenericParamView>,
    args: Seq<ArgView>,
    missing: ErrorView,
    n: nat,
) -> S::V
    decreases n,
{
    if n == 0 {
        v
    } else {
        match filled::<S>(v, params, args, missing, n) {
            Ok((after, _)) => after,
            Err(_) => reached::<S>(v, params, args, missing, (n - 1) as nat),
        }
    }
}

/// What replacing all of `generics` in `v` by `args` leaves of `v` where it
/// fails: `v` with its parameters renamed and those before the failure
/// replaced; `v` itself where it cannot be renamed in.
pub open spec fn all_reached<S: Substitutable>(
    v: S::V,
    generics: GenericsView,
    c: ConflictView,
    args: Seq<ArgView>,
    missing: ErrorView,
) -> S::V {
    let n = generics.params.len();
    if S::unsupported(v) is Some && renames(c, generics, n).len() > 0 {
        v
    } else {
        reached::<S>(
            renamed_body::<S>(v, renames(c, generics, n)),
            renamed_generics(c, generics, n).params,
            args,
            missing,
            n,
        )
    }
}

/// Behind a failure the work comes no further.
pub proof fn lemma_reached_failure<S: Substitutable>(
    v: S::V,
    params: Seq<GenericParamView>,
    args: Seq<ArgView>,
    missing: ErrorView,
    k: nat,
    n: nat,
)
    requires
        k <= n,
        filled::<S>(v, params, args, missing, k) is Err,
    ensures
        reached::<S>(v, params, args, missing, n) == reached::<S>(v, params, args, missing, k),
    decreases n,
{
    if k < n {
        lemma_filled_failure::<S>(v, params, args, missing, k, n);
        lemma_reached_failure::<S>(v, params, args, missing, k, (n - 1) as nat);
    }
}

/// The views of a list of arguments, in order.
pub open spec fn args_view(args: Seq<ParamSubstArg>) -> Seq<ArgView> {
    Seq::new(args.len(), |i: int| args[i]@)
}

/// Replaces each parameter of `generics` in `node` by the argument at the
/// same position.
fn fill_all<S: Substitutable>(
    node: &mut S,
    generics: &Generics,
    conflict: &Conflict,
    args: &Vec<ParamSubstArg>,
    missing: Error,
    superfluous: Reason,
) -> (res: Result<bool, Error>)
    ensures
        match all_filled::<S>(
            old(node)@,
            generics@,
            conflict@,
            args_view(args@),
            missing@,
            superfluous,
        ) {
            Ok((after, found)) => res == Ok::<bool, Error>(found) && final(node)@ == after,
            Err(e) => res is Err && res->Err_0@ == e && final(node)@ == all_reached::<S>(
                old(node)@,
                generics@,
                conflict@,
                args_view(args@),
                missing@,
            ),
        },
{
    let mut own = generics.clone();
    let ghost g0 = generics@;
    let ghost c = conflict@;
    let ghost n = g0.params.len();
    let ghost list = args_view(args@);
    let renamed = match rename_conflicting_params(&mut own, conflict, node) {
        Err(e) => {
            return Err(e);
        },
        Ok(renamed) => renamed,
    };
    let ghost v1 = node@;
    let ghost params = own@.params;
    let mut found = false;
    let mut i: usize = 0;
    while i < own.params.len()
        invariant
            i <= own.params@.len(),
            own.params@.len() == n,
            params == own@.params,
            params.len() == n,
            list == args_view(args@),
            list.len() == args@.len(),
            filled::<S>(v1, params, list, missing@, i as nat) == Ok::<(S::V, bool), ErrorView>(
                (node@, found),
            ),
            reached::<S>(v1, params, list, missing@, i as nat) == node@,
            g0 == generics@,
            c == conflict@,
            n == g0.params.len(),
            !(S::unsupported(old(node)@) is Some && renames(c, g0, n).len() > 0),
            v1 == renamed_body::<S>(old(node)@, renames(c, g0, n)),
            params == renamed_generics(c, g0, n).params,
        decreases own.params@.len() - i,
    {
        if i >= args.len() {
            proof {
                assert(filled::<S>(v1, params, list, missing@, (i + 1) as nat) == Err::<
                    (S::V, bool),
                    ErrorView,
                >(missing@));
                lemma_filled_failure::<S>(v1, params, list, missing@, (i + 1) as nat, n);
                lemma_reached_failure::<S>(v1, params, list, missing@, (i + 1) as nat, n);
            }
            return Err(missing);
        }
        assert(list[i as int] == args@[i as int]@);
        assert(params[i as int] == own.params@[i as int]@);
        match substitute(node, &own.params[i], args[i]) {
            Err(e) => {
                proof {
                    assert(filled::<S>(v1, params, list, missing@, (i + 1) as nat) == Err::<
                        (S::V, bool),
                        ErrorView,
                    >(e@));
                    lemma_filled_failure::<S>(v1, params, list, missing@, (i + 1) as nat, n);
                    lemma_reached_failure::<S>(v1, params, list, missing@, (i + 1) as nat, n);
                }
                return Err(e);
            },
            Ok(here) => {
                found = found || here;
            },
        }
        i += 1;
    }
    if i < args.len() {
        assert(list[n as int] == args@[i as int]@);
        return Err(Error::new(superfluous, args[i].span()));
    }
    Ok(found || renamed)
}

/// Replaces each parameter of `generics` in `node` by the parameter of `args`
/// at the same position, and says whether anything was replaced or renamed.
///
/// On failure `node` is left as far as the work had come: with the
/// parameters renamed and those before the failure replaced.
pub fn substitute_all_params<S: Substitutable>(node: &mut S, generics: &Generics, args: &Generics) -> (res:
    Result<bool, Error>)
    ensures
        match all_filled::<S>(
            old(node)@,
            generics@,
            ConflictView::Params(args@.params),
            param_args(args@.params),
            plain_error(Reason::TooFewParameters, args@.span()),
            Reason::SuperfluousParameter,
        ) {
            Ok((after, found)) => res == Ok::<bool, Error>(found) && final(node)@ == after,
            Err(e) => res is Err && res->Err_0@ == e && final(node)@ == all_reached::<S>(
                old(node)@,
                generics@,
                ConflictView::Params(args@.params),
                param_args(args@.params),
                plain_error(Reason::TooFewParameters, args@.span()),
            ),
        },
{
    let mut list: Vec<ParamSubstArg> = Vec::new();
    let mut i: usize = 0;
    while i < args.params.len()
        invariant
            i <= args.params@.len(),
            list@.len() == i,
            forall|j: int| 0 <= j < i ==> (#[trigger] list@[j])@ == ArgView::Param(args@.params[j]),
        decreases args.params@.len() - i,
    {
        list.push(ParamSubstArg::Param(&args.params[i]));
        i += 1;
    }
    assert(args_view(list@) =~= param_args(args@.params));
    fill_all(
        node,
        generics,
        &Conflict::Params(&args.params),
        &list,
        Error::new(Reason::TooFewParameters, args.span()),
        Reason::SuperfluousParameter,
    )
}

/// Replaces each parameter of `generics` in `node` by the argument of `args`
/// at the same position, and says whether anything was replaced or renamed.
/// `span` is where the arguments stand as a whole.
///
/// On failure `node` is left as far as the work had come: with the
/// parameters renamed and those before the failure replaced.
pub fn substitute_all<S: Substitutable>(
    node: &mut S,
    generics: &Generics,
    args: &Vec<Node>,
    span: Span,
) -> (res: Result<bool, Error>)
    ensures
        match all_filled::<S>(
            old(node)@,
            generics@,
            ConflictView::Nodes(nodes_view(args@)),
            node_args(nodes_view(args@)),
            plain_error(Reason::TooFewArguments, span),
            Reason::SuperfluousArgument,
        ) {
            Ok((after, found)) => res == Ok::<bool, Error>(found) && final(node)@ == after,
            Err(e) => res is Err && res->Err_0@ == e && final(node)@ == all_reached::<S>(
                old(node)@,
                generics@,
                ConflictView::Nodes(nodes_view(args@)),
                node_args(nodes_view(args@)),
                plain_error(Reason::TooFewArguments, span),
            ),
        },
{
    let mut list: Vec<ParamSubstArg> = Vec::new();
    let mut i: usize = 0;
    while i < args.len()
        invariant
            i <= args@.len(),
            list@.len() == i,
            forall|j: int| 0 <= j < i ==> (#[trigger] list@[j])@ == ArgView::Arg(args@[j]@),
        decreases args@.len() - i,
    {
        list.push(ParamSubstArg::Arg(&args[i]));
        i += 1;
    }
    assert(args_view(list@) =~= node_args(nodes_view(args@)));
    fill_all(
        node,
        generics,
        &Conflict::Nodes(args),
        &list,
        Error::new(Reason::TooFewArguments, span),
        Reason::SuperfluousArgument,
    )
}

} // verus!
