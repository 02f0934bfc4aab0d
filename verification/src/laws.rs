//! What holds of substitution in a syntax tree, for every tree.

use vstd::prelude::*;
use crate::arms::{arm_substituted, expr_substituted};
use crate::binder::{
    hidden_occurrences, hidden_substituted, lemma_hidden_absent_unchanged, param_substituted,
};
use crate::conflict::scopes_conflict;
use crate::error::{mismatch_reason, plain_error, ErrorKind, Reason};
use crate::expr::{depth, selector_shadows, TypeLevelArmView, TypeLevelExprView};
use crate::generics::{param_arg, GenericParamView, GenericsView, ParamKind};
use crate::generics::ScopeView;
use crate::indirection::{
    chain_limit, clear_of, first_reference, inner_scopes, lifted, referenced, scope_lifted,
    settled, Lifted,
};
use crate::rename::{
    conflicts, first_free, fresh, lemma_conflict_by_name, lemma_conflict_reach, reach,
    renamed_generics, renames, taken, underscored, ConflictView,
};
use crate::substitutable::{substitution_error, substitution_result, Substitutable};
use crate::subst::arg_span;
use crate::syntax::NodeView;
use crate::occurrence::{
    list_occurrences, occurrences, qself_occurrences, segment_occurrences, segments_occurrences,
    site,
};
use crate::subst::{arg_kind, list_substituted, substituted, ArgView};
use crate::syntax::PathSegmentView;

verus! {

/// A list of trees holds no occurrence only if none of its trees does.
pub proof fn lemma_list_absent(nodes: Seq<NodeView>, p: GenericParamView, in_args: bool)
    requires
        list_occurrences(nodes, p, in_args).len() == 0,
    ensures
        forall|i: int| 0 <= i < nodes.len() ==> (#[trigger] occurrences(nodes[i], p, in_args)).len() == 0,
    decreases nodes.len(),
{
    if nodes.len() > 0 {
        lemma_list_absent(nodes.drop_last(), p, in_args);
        assert forall|i: int| 0 <= i < nodes.len() implies (#[trigger] occurrences(
            nodes[i],
            p,
            in_args,
        )).len() == 0 by {
            if i < nodes.len() - 1 {
                assert(nodes[i] == nodes.drop_last()[i]);
            } else {
                assert(nodes[i] == nodes.last());
            }
        }
    }
}

/// The segments of a path hold no occurrence only if none of them does.
pub proof fn lemma_segments_absent(segments: Seq<PathSegmentView>, p: GenericParamView)
    requires
        segments_occurrences(segments, p).len() == 0,
    ensures
        forall|i: int|
            0 <= i < segments.len() ==> (#[trigger] segment_occurrences(segments[i], p)).len() == 0,
    decreases segments.len(),
{
    if segments.len() > 0 {
        lemma_segments_absent(segments.drop_last(), p);
        assert forall|i: int| 0 <= i < segments.len() implies (#[trigger] segment_occurrences(
            segments[i],
            p,
        )).len() == 0 by {
            if i < segments.len() - 1 {
                assert(segments[i] == segments.drop_last()[i]);
            } else {
                assert(segments[i] == segments.last());
            }
        }
    }
}

/// Substitution in a tree that does not refer to the parameter gives the tree
/// back, whatever the argument.
pub proof fn lemma_absent_unchanged(n: NodeView, p: GenericParamView, a: ArgView, in_args: bool)
    requires
        occurrences(n, p, in_args).len() == 0,
    ensures
        substituted(n, p, a, in_args) == n,
    decreases n,
{
    match n {
        NodeView::Lifetime { .. } => {},
        NodeView::Path { place, qself, leading_colon, segments } => {
            assert(site(n, p, in_args) is None);
            assert(qself_occurrences(qself, p).len() == 0);
            assert(segments_occurrences(segments, p).len() == 0);
            match qself {
                Some(q) => {
                    lemma_absent_unchanged(*q.ty, p, a, false);
                },
                None => {},
            }
            lemma_segments_absent(segments, p);
            let after = substituted(n, p, a, in_args);
            assert forall|i: int| 0 <= i < segments.len() implies after->segments[i]
                == segments[i] by {
                assert(segment_occurrences(segments[i], p).len() == 0);
                match segments[i].arguments {
                    Some(args) => {
                        lemma_absent_unchanged(*args, p, a, false);
                    },
                    None => {},
                }
            }
            assert(after->segments =~= segments);
        },
        NodeView::Tree { kind, text, span, children } => {
            if kind is Expr && p.kind() == ParamKind::Const {
            } else {
                let inner = kind == crate::syntax::NodeKind::AngleBracketed;
                lemma_list_absent(children, p, inner);
                let after = substituted(n, p, a, in_args);
                assert forall|i: int| 0 <= i < children.len() implies after->children[i]
                    == children[i] by {
                    assert(occurrences(children[i], p, inner).len() == 0);
                    lemma_absent_unchanged(children[i], p, a, inner);
                }
                assert(after->children =~= children);
            }
        },
    }
}

/// Substitution in a list of trees that do not refer to the parameter gives the
/// list back.
pub proof fn lemma_list_absent_unchanged(
    nodes: Seq<NodeView>,
    p: GenericParamView,
    a: ArgView,
    in_args: bool,
)
    requires
        list_occurrences(nodes, p, in_args).len() == 0,
    ensures
        list_substituted(nodes, p, a, in_args) == nodes,
{
    lemma_list_absent(nodes, p, in_args);
    assert forall|i: int| 0 <= i < nodes.len() implies substituted(nodes[i], p, a, in_args)
        == nodes[i] by {
        assert(occurrences(nodes[i], p, in_args).len() == 0);
        lemma_absent_unchanged(nodes[i], p, a, in_args);
    }
    assert(list_substituted(nodes, p, a, in_args) =~= nodes);
}

/// No occurrence, no change: substitution in a fragment that does not refer to
/// the parameter succeeds, whatever the argument, and leaves the fragment as
/// it is.
pub proof fn law_absent_is_noop<S: Substitutable>(v: S::V, p: GenericParamView, a: ArgView)
    requires
        S::unsupported(v) is None,
        S::occurrences_in(v, p).len() == 0,
    ensures
        substitution_error::<S>(v, p, a) is None,
        substitution_result::<S>(v, p, a) == v,
{
    S::lemma_absent(v, p, a);
}

/// Kind safety: an argument of another kind than the parameter is refused
/// wherever the parameter occurs, with a failure of the class of kind
/// mismatches that names the argument's place.
pub proof fn law_kind_safety<S: Substitutable>(v: S::V, p: GenericParamView, a: ArgView)
    requires
        S::unsupported(v) is None,
        S::occurrences_in(v, p).len() > 0,
        !(a is TestOnly),
        arg_kind(a) != Some(p.kind()),
    ensures
        substitution_error::<S>(v, p, a) == Some(plain_error(mismatch_reason(p.kind()), arg_span(a))),
        mismatch_reason(p.kind()).spec_kind() == ErrorKind::KindMismatch,
{
}

/// Kind safety for the case of a lifetime given for a type parameter.
pub proof fn law_lifetime_for_type_fails<S: Substitutable>(v: S::V, p: GenericParamView, a: ArgView)
    requires
        S::unsupported(v) is None,
        S::occurrences_in(v, p).len() > 0,
        p.kind() == ParamKind::Type,
        arg_kind(a) == Some(ParamKind::Lifetime),
    ensures
        substitution_error::<S>(v, p, a) == Some(plain_error(Reason::NonTypeArg, arg_span(a))),
{
}

/// Shadowing: in an arm whose first selector declares a parameter of the name
/// of `p`, the body and the selectors behind the first stay as they are. Of
/// the first selector only the bounds of the lifetime parameters that hide
/// `p` are rewritten: they are read in the scope round the arm.
pub proof fn law_shadowing_arm(arm: TypeLevelArmView, p: GenericParamView, a: ArgView, fuel: nat)
    requires
        arm.selectors.len() > 0,
        selector_shadows(arm.selectors[0], p),
    ensures
        arm_substituted(arm, p, a, fuel).body == arm.body,
        arm_substituted(arm, p, a, fuel).selectors.len() == arm.selectors.len(),
        forall|j: int|
            1 <= j < arm.selectors.len() ==> arm_substituted(arm, p, a, fuel).selectors[j]
                == arm.selectors[j],
        arm_substituted(arm, p, a, fuel).selectors[0] == (crate::expr::SelectorView::Specific {
            ident: arm.selectors[0]->ident,
            generics: hidden_substituted(arm.selectors[0]->generics, p, a),
        }),
{
    assert(crate::expr::shadowed(arm.selectors, p));
    if crate::expr::arm_occurrences(arm, p).len() == 0 {
        lemma_hidden_absent_unchanged(arm.selectors[0]->generics, p, a);
    }
}

/// Shadowing in a `match`: the matched types stand outside every arm and have
/// the argument put in, while the body of an arm whose first selector
/// declares a parameter of the name of `p` is left as it is.
pub proof fn law_shadowing_match(e: TypeLevelExprView, p: GenericParamView, a: ArgView, i: int)
    requires
        e is Match,
        0 <= i < e->Match_0.arms.len(),
        e->Match_0.arms[i].selectors.len() > 0,
        selector_shadows(e->Match_0.arms[i].selectors[0], p),
    ensures
        expr_substituted(e, p, a) is Match,
        expr_substituted(e, p, a)->Match_0.types == list_substituted(e->Match_0.types, p, a, false),
        expr_substituted(e, p, a)->Match_0.arms.len() == e->Match_0.arms.len(),
        expr_substituted(e, p, a)->Match_0.arms[i].body == e->Match_0.arms[i].body,
        expr_substituted(e, p, a)->Match_0.arms[i] == arm_substituted(
            e->Match_0.arms[i],
            p,
            a,
            (depth(e) - 1) as nat,
        ),
{
    law_shadowing_arm(e->Match_0.arms[i], p, a, (depth(e) - 1) as nat);
}

/// Shadowing by an item: in an item that declares a parameter of the name of
/// `p`, only the bounds of the lifetime parameters that hide `p` are searched
/// and rewritten; the header, what the item gives and the body stay.
pub proof fn law_shadowing_item(
    item: crate::output::LoweredItemView,
    p: GenericParamView,
    a: ArgView,
)
    requires
        crate::conflict::params_conflict(p, item.generics.params),
    ensures
        crate::scoped::item_occurrences(item, p) == hidden_occurrences(item.generics.params, p),
        crate::scoped::item_substituted(item, p, a).generics == hidden_substituted(
            item.generics,
            p,
            a,
        ),
        crate::scoped::item_substituted(item, p, a).header == item.header,
        crate::scoped::item_substituted(item, p, a).output == item.output,
        crate::scoped::item_substituted(item, p, a).body == item.body,
{
    if crate::scoped::item_occurrences(item, p).len() == 0 {
        lemma_hidden_absent_unchanged(item.generics, p, a);
    }
}

/// What hides stays: rewriting a list that hides `p` keeps every name and
/// kind, the `where` clause, and every parameter that is no lifetime
/// parameter of the name of `p`.
pub proof fn law_hiding_list_keeps_names(g: GenericsView, p: GenericParamView, a: ArgView)
    ensures
        hidden_substituted(g, p, a).params.len() == g.params.len(),
        hidden_substituted(g, p, a).where_clause == g.where_clause,
        forall|i: int|
            0 <= i < g.params.len() ==> (#[trigger] hidden_substituted(g, p, a).params[i]).ident()
                == g.params[i].ident() && hidden_substituted(g, p, a).params[i].kind()
                == g.params[i].kind(),
        forall|i: int|
            0 <= i < g.params.len() && !(g.params[i] is Lifetime && crate::conflict::name_conflict(
                p,
                g.params[i],
            )) ==> (#[trigger] hidden_substituted(g, p, a).params[i]) == g.params[i],
{
}

/// Shadowing by a binder itself: substitution never touches the name that a
/// parameter binds, only what the parameter carries.
pub proof fn law_binder_keeps_name(q: GenericParamView, p: GenericParamView, a: ArgView)
    ensures
        param_substituted(q, p, a).ident() == q.ident(),
        param_substituted(q, p, a).kind() == q.kind(),
{
}

/// A parameter list under renaming keeps its length, and each parameter its
/// kind.
pub proof fn lemma_renamed_shape(c: ConflictView, g: GenericsView, n: nat)
    ensures
        renamed_generics(c, g, n).params.len() == g.params.len(),
        forall|i: int|
            0 <= i < g.params.len() ==> (#[trigger] renamed_generics(c, g, n).params[i]).kind()
                == g.params[i].kind(),
        forall|i: int|
            n <= i < g.params.len() ==> (#[trigger] renamed_generics(c, g, n).params[i]).ident()
                == g.params[i].ident(),
    decreases n,
{
    if n > 0 {
        lemma_renamed_shape(c, g, (n - 1) as nat);
        let before = renamed_generics(c, g, (n - 1) as nat);
        let after = renamed_generics(c, g, n);
        assert forall|i: int| 0 <= i < g.params.len() implies (#[trigger] after.params[i]).kind()
            == g.params[i].kind() by {
            assert(before.params[i].kind() == g.params[i].kind());
        }
        assert forall|i: int| n <= i < g.params.len() implies (#[trigger] after.params[i]).ident()
            == g.params[i].ident() by {
            assert(before.params[i].ident() == g.params[i].ident());
        }
    }
}

/// Renaming round trip: each renaming that is made takes a parameter that is
/// in conflict to the first name, made of its own and underscores, that is
/// not: the new name differs from the old one, and is free.
pub proof fn law_renames_are_fresh(c: ConflictView, g: GenericsView, n: nat, k: int)
    requires
        0 <= k < renames(c, g, n).len(),
    ensures
        conflicts(c, renames(c, g, n)[k].from),
        renames(c, g, n)[k].to == fresh(c, renames(c, g, n)[k].from),
    decreases n,
{
    if n > 0 {
        let earlier = renames(c, g, (n - 1) as nat);
        if k < earlier.len() {
            law_renames_are_fresh(c, g, (n - 1) as nat, k);
        }
    }
}

/// Renaming round trip: a parameter is renamed exactly if it is in conflict.
pub proof fn law_renamed_iff_conflicting(c: ConflictView, g: GenericsView, n: nat)
    requires
        n <= g.params.len(),
    ensures
        renames(c, g, n).len() > 0 <==> exists|i: int|
            0 <= i < n && conflicts(c, #[trigger] g.params[i]),
    decreases n,
{
    if n > 0 {
        law_renamed_iff_conflicting(c, g, (n - 1) as nat);
        lemma_renamed_shape(c, g, (n - 1) as nat);
        let before = renamed_generics(c, g, (n - 1) as nat);
        crate::rename::lemma_conflict_by_name(c, before.params[n - 1], g.params[n - 1]);
        if conflicts(c, g.params[n - 1]) {
            assert(renames(c, g, n).len() > 0);
        }
        if exists|i: int| 0 <= i < n && conflicts(c, #[trigger] g.params[i]) {
            let i = choose|i: int| 0 <= i < n && conflicts(c, #[trigger] g.params[i]);
            if i < n - 1 {
                assert(renames(c, g, (n - 1) as nat).len() > 0);
            }
        }
    }
}

/// Minimality of closure conversion, one way: every parameter that is
/// captured from a scope is a parameter of that scope which no inner scope
/// hides and which the expression depends on, itself or through another
/// parameter; its argument passes that parameter on at the place where the
/// dependency was found.
pub proof fn law_captured_is_needed<S: Substitutable>(
    e: S::V,
    scopes: Seq<Seq<GenericParamView>>,
    fuel: nat,
    n: nat,
    k: int,
) -> (j: int)
    requires
        0 <= k < referenced::<S>(e, scopes, fuel, n).len(),
    ensures
        scopes.len() > 0,
        0 <= j < n,
        j < scopes.last().len(),
        referenced::<S>(e, scopes, fuel, n)[k].0 == scopes.last()[j],
        !scopes_conflict(scopes.last()[j], scopes.drop_last()),
        first_reference::<S>(e, scopes, scopes.last()[j], fuel) is Some,
        referenced::<S>(e, scopes, fuel, n)[k].1 == param_arg(
            scopes.last()[j],
            first_reference::<S>(e, scopes, scopes.last()[j], fuel),
        ),
    decreases n,
{
    let earlier = referenced::<S>(e, scopes, fuel, (n - 1) as nat);
    if k < earlier.len() {
        law_captured_is_needed::<S>(e, scopes, fuel, (n - 1) as nat, k)
    } else {
        n - 1
    }
}

/// Minimality of closure conversion, the other way: every parameter of a
/// scope which no inner scope hides and which the expression depends on is
/// captured.
pub proof fn law_needed_is_captured<S: Substitutable>(
    e: S::V,
    scopes: Seq<Seq<GenericParamView>>,
    fuel: nat,
    n: nat,
    j: int,
) -> (k: int)
    requires
        scopes.len() > 0,
        0 <= j < n,
        j < scopes.last().len(),
        !scopes_conflict(scopes.last()[j], scopes.drop_last()),
        first_reference::<S>(e, scopes, scopes.last()[j], fuel) is Some,
    ensures
        0 <= k < referenced::<S>(e, scopes, fuel, n).len(),
        referenced::<S>(e, scopes, fuel, n)[k].0 == scopes.last()[j],
    decreases n,
{
    if j < n - 1 {
        law_needed_is_captured::<S>(e, scopes, fuel, (n - 1) as nat, j)
    } else {
        referenced::<S>(e, scopes, fuel, n).len() - 1
    }
}

/// Settling names neither adds nor drops a captured parameter, and leaves
/// every argument as it is.
pub proof fn law_settled_keeps_arguments<S: Substitutable>(st: Lifted<S::V>, count: int, n: nat)
    ensures
        settled::<S>(st, count, n).captured.len() == st.captured.len(),
        forall|k: int|
            0 <= k < st.captured.len() ==> (#[trigger] settled::<S>(st, count, n).captured[k]).1
                == st.captured[k].1,
        forall|k: int|
            0 <= k < st.captured.len() ==> (#[trigger] settled::<S>(st, count, n).captured[k]).0.kind()
                == st.captured[k].0.kind(),
    decreases n,
{
    if n > 0 {
        law_settled_keeps_arguments::<S>(st, count, (n - 1) as nat);
        let before = settled::<S>(st, count, (n - 1) as nat);
        let after = settled::<S>(st, count, n);
        assert forall|k: int| 0 <= k < st.captured.len() implies (#[trigger] after.captured[k]).1
            == st.captured[k].1 by {
            assert(before.captured[k].1 == st.captured[k].1);
        }
        assert forall|k: int| 0 <= k < st.captured.len() implies (#[trigger] after.captured[k]).0.kind()
            == st.captured[k].0.kind() by {
            assert(before.captured[k].0.kind() == st.captured[k].0.kind());
        }
    }
}

/// A name with `k` underscores behind it is `k` longer.
pub proof fn lemma_underscored_len(name: Seq<char>, k: nat)
    ensures
        underscored(name, k).len() == name.len() + k,
    decreases k,
{
    reveal_strlit("_");
    if k > 0 {
        lemma_underscored_len(name, (k - 1) as nat);
    }
}

/// From any number of underscores that are all taken, a first free number is
/// reached: names in conflict are bounded in length.
proof fn lemma_free_from(c: ConflictView, q: GenericParamView, k: nat) -> (m: nat)
    requires
        k >= 1,
        forall|j: nat| 1 <= j < k ==> taken(c, q, j),
    ensures
        first_free(c, q, m),
    decreases reach(c) + 1 - k,
{
    if taken(c, q, k) {
        lemma_conflict_reach(c, q.with_name(underscored(q.name(), k)));
        lemma_underscored_len(q.name(), k);
        lemma_free_from(c, q, k + 1)
    } else {
        k
    }
}

/// Renaming ends: for every parameter there is a first name, made of its own
/// and underscores, that is not in conflict, and the fresh parameter has it.
pub proof fn law_fresh_is_free(c: ConflictView, q: GenericParamView)
    ensures
        !conflicts(c, fresh(c, q)),
        fresh(c, q).kind() == q.kind(),
        exists|k: nat| first_free(c, q, k) && fresh(c, q) == q.with_name(underscored(q.name(), k)),
{
    let m = lemma_free_from(c, q, 1);
    let k = choose|k: nat| first_free(c, q, k);
    assert(first_free(c, q, k));
    assert(fresh(c, q) == q.with_name(underscored(q.name(), k)));
}

/// Renaming round trip: once the first `n` parameters of a list were looked
/// at, none of them is in conflict.
pub proof fn law_renamed_is_free(c: ConflictView, g: GenericsView, n: nat, i: int)
    requires
        0 <= i < n <= g.params.len(),
    ensures
        !conflicts(c, renamed_generics(c, g, n).params[i]),
    decreases n,
{
    lemma_renamed_shape(c, g, (n - 1) as nat);
    let before = renamed_generics(c, g, (n - 1) as nat);
    let after = renamed_generics(c, g, n);
    if i < n - 1 {
        law_renamed_is_free(c, g, (n - 1) as nat, i);
        if conflicts(c, before.params[n - 1]) {
            lemma_conflict_by_name(c, after.params[i], before.params[i]);
        }
    } else {
        if conflicts(c, before.params[i]) {
            law_fresh_is_free(c, before.params[i]);
            lemma_conflict_by_name(c, after.params[i], fresh(c, before.params[i]));
        }
    }
}

/// Where none of the parameters that a scope adds has a name of the first
/// `count` scopes, settling changes nothing.
pub proof fn lemma_settled_unchanged<S: Substitutable>(st: Lifted<S::V>, count: int, n: nat)
    requires
        forall|k: int|
            0 <= k < st.captured.len() ==> !conflicts(
                ConflictView::Scopes(inner_scopes(st.scopes, count)),
                (#[trigger] st.captured[k]).0,
            ),
    ensures
        settled::<S>(st, count, n) == st,
    decreases n,
{
    if n > 0 {
        lemma_settled_unchanged::<S>(st, count, (n - 1) as nat);
        if n - 1 < st.captured.len() {
            assert(!conflicts(
                ConflictView::Scopes(inner_scopes(st.scopes, count)),
                st.captured[n - 1].0,
            ));
        }
    }
}

/// An ordinary parameter list adds its needed parameters under their own
/// names, and leaves the expression and the scopes as they are.
pub proof fn law_plain_scope_keeps_expression<S: Substitutable>(e: S::V, scopes: Seq<Seq<GenericParamView>>)
    requires
        scopes.len() > 0,
    ensures
        scope_lifted::<S>(e, scopes, scopes.len() - 1).expr == e,
        scope_lifted::<S>(e, scopes, scopes.len() - 1).scopes == scopes,
        scope_lifted::<S>(e, scopes, scopes.len() - 1).captured == referenced::<S>(
            e,
            scopes,
            chain_limit(scopes),
            scopes.last().len(),
        ),
{
    let fuel = chain_limit(scopes);
    let n = scopes.last().len();
    let found = referenced::<S>(e, scopes, fuel, n);
    let st = Lifted::<S::V> { captured: found, expr: e, scopes };
    assert(inner_scopes(scopes, scopes.len() - 1) =~= scopes.drop_last());
    assert forall|k: int| 0 <= k < found.len() implies !conflicts(
        ConflictView::Scopes(inner_scopes(st.scopes, scopes.len() - 1)),
        (#[trigger] st.captured[k]).0,
    ) by {
        let j = law_captured_is_needed::<S>(e, scopes, fuel, n, k);
    }
    lemma_settled_unchanged::<S>(st, scopes.len() - 1, found.len());
}

/// Closure conversion round trip for ordinary parameter lists: lifting an
/// expression out of scopes that are all parameter lists leaves the
/// expression as it is. Every captured parameter keeps its name and is
/// passed on under that name, so that putting the arguments in the place of
/// the parameters gives the expression back.
pub proof fn law_plain_scopes_keep_expression<S: Substitutable>(
    e: S::V,
    stack: Seq<Seq<GenericParamView>>,
    context: Seq<ScopeView>,
)
    requires
        forall|i: int| 0 <= i < context.len() ==> (#[trigger] context[i]) is Generics,
    ensures
        lifted::<S>(e, stack, context).expr == e,
        lifted::<S>(e, stack, context).scopes == stack,
    decreases context.len(),
{
    if context.len() > 0 {
        let rest = context.subrange(1, context.len() as int);
        let pushed = stack.push(context[0].params());
        assert forall|i: int| 0 <= i < rest.len() implies (#[trigger] rest[i]) is Generics by {
            assert(rest[i] == context[i + 1]);
        }
        law_plain_scopes_keep_expression::<S>(e, pushed, rest);
        assert(clear_of(context[0], stack.len()) == pushed.len() - 1);
        law_plain_scope_keeps_expression::<S>(e, pushed);
        assert(pushed.drop_last() =~= stack);
    }
}

/// The argument of a capture is the captured parameter's own name, as a tree
/// of the parameter's kind.
pub proof fn law_capture_passes_own_name(q: GenericParamView, span: Option<crate::syntax::Span>)
    ensures
        crate::subst::node_param_kind(param_arg(q, span)) == Some(q.kind()),
        match param_arg(q, span) {
            NodeView::Lifetime { ident } => ident.name == q.name(),
            NodeView::Path { segments, .. } => segments.len() == 1 && segments[0].ident.name
                == q.name(),
            NodeView::Tree { .. } => false,
        },
{
}

/// What ordinary parameter lists give to an expression that is lifted out of
/// them: for each scope, from the innermost outwards, the parameters of that
/// scope which no scope inside it hides and which the expression depends on,
/// in the order of their declaration.
pub open spec fn chain_needed<S: Substitutable>(
    e: S::V,
    stack: Seq<Seq<GenericParamView>>,
    context: Seq<ScopeView>,
) -> Seq<(GenericParamView, NodeView)>
    decreases context.len(),
{
    if context.len() == 0 {
        Seq::empty()
    } else {
        let pushed = stack.push(context[0].params());
        referenced::<S>(e, pushed, chain_limit(pushed), pushed.last().len()) + chain_needed::<S>(
            e,
            pushed,
            context.subrange(1, context.len() as int),
        )
    }
}

/// Minimality of closure conversion for a chain of ordinary parameter lists:
/// what is captured is, scope by scope and the innermost first, exactly what
/// the expression as it was given depends on. `law_captured_is_needed` and
/// `law_needed_is_captured` say of each scope that these are the parameters
/// that no inner scope hides and that the expression refers to, itself or
/// through the bounds of another parameter, and no others.
pub proof fn law_plain_scopes_capture_the_needed<S: Substitutable>(
    e: S::V,
    stack: Seq<Seq<GenericParamView>>,
    context: Seq<ScopeView>,
)
    requires
        forall|i: int| 0 <= i < context.len() ==> (#[trigger] context[i]) is Generics,
    ensures
        lifted::<S>(e, stack, context).captured == chain_needed::<S>(e, stack, context),
    decreases context.len(),
{
    if context.len() > 0 {
        let rest = context.subrange(1, context.len() as int);
        let pushed = stack.push(context[0].params());
        assert forall|i: int| 0 <= i < rest.len() implies (#[trigger] rest[i]) is Generics by {
            assert(rest[i] == context[i + 1]);
        }
        law_plain_scopes_capture_the_needed::<S>(e, pushed, rest);
        law_plain_scopes_keep_expression::<S>(e, pushed, rest);
        assert(clear_of(context[0], stack.len()) == pushed.len() - 1);
        law_plain_scope_keeps_expression::<S>(e, pushed);
    }
}

/// A parameter that is captured from a scope has a name that no parameter of
/// a scope inside it has, so that it cannot be taken for a parameter that was
/// captured from further in.
pub proof fn law_captures_differ_across_scopes<S: Substitutable>(
    e: S::V,
    scopes: Seq<Seq<GenericParamView>>,
    fuel: nat,
    n: nat,
    k: int,
    i: int,
    j: int,
)
    requires
        0 <= k < referenced::<S>(e, scopes, fuel, n).len(),
        0 <= i < scopes.len() - 1,
        0 <= j < scopes[i].len(),
    ensures
        !crate::conflict::name_conflict(referenced::<S>(e, scopes, fuel, n)[k].0, scopes[i][j]),
{
    let at = law_captured_is_needed::<S>(e, scopes, fuel, n, k);
    assert(scopes.drop_last()[i] == scopes[i]);
    if crate::conflict::name_conflict(scopes.last()[at], scopes[i][j]) {
        assert(crate::conflict::params_conflict(scopes.last()[at], scopes.drop_last()[i]));
    }
}

/// Whether an argument gives a parameter of the same kind another name.
pub open spec fn renames_to(p: GenericParamView, a: ArgView) -> bool {
    a is Param && a->Param_0.kind() == p.kind() && a->Param_0.name() != p.name()
}

/// Rewriting the arguments of a path segment keeps them empty or not empty.
proof fn lemma_arguments_stay(args: NodeView, p: GenericParamView, a: ArgView)
    requires
        p.kind() != ParamKind::Const,
        renames_to(p, a),
    ensures
        crate::occurrence::arguments_empty(Some(Box::new(substituted(args, p, a, false))))
            == crate::occurrence::arguments_empty(Some(Box::new(args))),
{
    match args {
        NodeView::Tree { .. } => {},
        _ => {},
    }
}

/// Once a lifetime or type parameter was given another name in a tree, the
/// tree refers to it no more: a second substitution finds nothing to do.
pub proof fn law_renamed_leaves_no_reference(
    n: NodeView,
    p: GenericParamView,
    a: ArgView,
    in_args: bool,
)
    requires
        p.kind() != ParamKind::Const,
        renames_to(p, a),
    ensures
        occurrences(substituted(n, p, a, in_args), p, in_args).len() == 0,
        substituted(substituted(n, p, a, in_args), p, a, in_args) == substituted(n, p, a, in_args),
    decreases n,
{
    let r = substituted(n, p, a, in_args);
    match n {
        NodeView::Lifetime { .. } => {
            assert(site(r, p, in_args) is None);
        },
        NodeView::Path { place, qself, leading_colon, segments } => {
            let inner = crate::subst::inside_rewritten(n, p, a);
            assert forall|i: int| 0 <= i < segments.len() implies (#[trigger] segment_occurrences(
                inner->segments[i],
                p,
            )).len() == 0 by {
                match segments[i].arguments {
                    Some(args) => {
                        law_renamed_leaves_no_reference(*args, p, a, false);
                    },
                    None => {},
                }
            }
            match site(n, p, in_args) {
                Some(s) => {
                    if s is Head {
                        assert(r->segments.len() == inner->segments.len());
                        assert forall|i: int| 0 <= i < r->segments.len() implies (
                        #[trigger] segment_occurrences(r->segments[i], p)).len() == 0 by {
                            assert(segment_occurrences(inner->segments[i], p).len() == 0);
                            assert(r->segments[i].arguments == inner->segments[i].arguments);
                        }
                        crate::conflict::lemma_segments_all_absent(r->segments, p);
                        assert(site(r, p, in_args) is None);
                    } else {
                        assert(r->segments.len() == 1);
                        assert(r->segments[0].arguments is None);
                        assert(segment_occurrences(r->segments[0], p).len() == 0);
                        assert forall|i: int| 0 <= i < r->segments.len() implies (
                        #[trigger] segment_occurrences(r->segments[i], p)).len() == 0 by {}
                        crate::conflict::lemma_segments_all_absent(r->segments, p);
                        assert(site(r, p, in_args) is None);
                    }
                },
                None => {
                    assert(r == inner);
                    match qself {
                        Some(q) => {
                            law_renamed_leaves_no_reference(*q.ty, p, a, false);
                        },
                        None => {},
                    }
                    crate::conflict::lemma_segments_all_absent(r->segments, p);
                    if segments.len() > 0 {
                        match segments[0].arguments {
                            Some(args) => {
                                lemma_arguments_stay(*args, p, a);
                            },
                            None => {},
                        }
                    }
                    assert(site(r, p, in_args) is None);
                },
            }
        },
        NodeView::Tree { kind, children, .. } => {
            let flag = kind == crate::syntax::NodeKind::AngleBracketed;
            assert forall|i: int| 0 <= i < r->children.len() implies (#[trigger] occurrences(
                r->children[i],
                p,
                flag,
            )).len() == 0 by {
                law_renamed_leaves_no_reference(children[i], p, a, flag);
            }
            crate::conflict::lemma_list_all_absent(r->children, p, flag);
        },
    }
    lemma_absent_unchanged(r, p, a, in_args);
}

/// Where no trait from position `i` on is refused, none of them needs a
/// `match` that it did not get.
pub proof fn lemma_validated(
    items: Seq<crate::item::MetaItemView>,
    outputs: Seq<crate::output::OutputMetaItemView>,
    i: int,
    k: int,
)
    requires
        0 <= i <= k < outputs.len(),
        crate::lower::validation_error(items, outputs, i) is None,
    ensures
        crate::lower::dispatch_error(items, outputs[k]) is None,
    decreases outputs.len() - i,
{
    if i < k {
        lemma_validated(items, outputs, i + 1, k);
    }
}

/// Missing dispatch: where lowering succeeds, every trait of the result whose
/// variants are not known was declared without a `where` clause, and is no
/// alias with an argument that is more than a bare name.
pub proof fn law_lowered_has_its_dispatch(items: Seq<crate::item::MetaItemView>, k: int)
    requires
        crate::lower::lowered(items) is Ok,
        0 <= k < crate::lower::lowered(items)->Ok_0.len(),
        crate::lower::lowered(items)->Ok_0[k] is TraitDef,
        crate::lower::lowered(items)->Ok_0[k]->TraitDef_0.variants is None,
    ensures
        match crate::merge::def_at(items, crate::lower::lowered(items)->Ok_0[k]->TraitDef_0.source) {
            Some(def) => def.generics.where_clause is None && !(def.contents is Alias
                && crate::lower::has_complex_type_arg(def.contents->path.arguments)),
            None => true,
        },
{
    let outputs = crate::lower::lowered(items)->Ok_0;
    lemma_validated(items, outputs, 0, k);
}

/// An alias for itself: lowering fails for every input that declares an
/// alias whose path is the alias's own name.
pub proof fn law_lowered_refuses_cycles(items: Seq<crate::item::MetaItemView>, k: int)
    requires
        0 <= k < items.len(),
        items[k] is TraitDef,
        crate::depend::is_super_trait(items[k]->TraitDef_0, items[k]->TraitDef_0.ident.name),
    ensures
        crate::lower::lowered(items) is Err,
        crate::lower::lowered(items)->Err_0.reason == Reason::CyclicAlias,
{
    lemma_cycle_found(items, 0, k);
}

/// A cycle at position `k` makes the search from any position before it find
/// a cycle.
proof fn lemma_cycle_found(items: Seq<crate::item::MetaItemView>, i: int, k: int)
    requires
        0 <= i <= k < items.len(),
        items[k] is TraitDef,
        crate::depend::is_super_trait(items[k]->TraitDef_0, items[k]->TraitDef_0.ident.name),
    ensures
        crate::lower::cycle_error(items, i) is Some,
        crate::lower::cycle_error(items, i)->0.reason == Reason::CyclicAlias,
    decreases k - i,
{
    if i < k {
        lemma_cycle_found(items, i + 1, k);
    }
}

/// Whether one of the lowered declarations is a trait of the given name.
pub open spec fn holds_trait(outputs: Seq<crate::output::OutputMetaItemView>, name: Seq<char>) -> bool {
    exists|i: int|
        0 <= i < outputs.len() && (#[trigger] outputs[i]) is TraitDef && outputs[i]->TraitDef_0.ident.name
            == name
}

/// Whether the input declares a trait of the given name.
pub open spec fn declares_trait(items: Seq<crate::item::MetaItemView>, name: Seq<char>) -> bool {
    exists|i: int|
        0 <= i < items.len() && (#[trigger] items[i]) is TraitDef && items[i]->TraitDef_0.ident.name
            == name
}

proof fn lemma_trait_position_none(
    outputs: Seq<crate::output::OutputMetaItemView>,
    name: Seq<char>,
    i: int,
)
    requires
        !holds_trait(outputs, name),
    ensures
        crate::merge::trait_position(outputs, name, i) is None,
    decreases outputs.len() - i,
{
    if 0 <= i < outputs.len() {
        assert(!(outputs[i] is TraitDef && outputs[i]->TraitDef_0.ident.name == name));
        lemma_trait_position_none(outputs, name, i + 1);
    }
}

proof fn lemma_registered_names(items: Seq<crate::item::MetaItemView>, n: nat, name: Seq<char>)
    requires
        !declares_trait(items, name),
    ensures
        !holds_trait(crate::lower::registered(items, n), name),
    decreases n,
{
    let here = crate::lower::registered(items, n);
    if n > 0 && n <= items.len() {
        lemma_registered_names(items, (n - 1) as nat, name);
        let earlier = crate::lower::registered(items, (n - 1) as nat);
        if holds_trait(here, name) {
            let i = choose|i: int|
                0 <= i < here.len() && (#[trigger] here[i]) is TraitDef && here[i]->TraitDef_0.ident.name
                    == name;
            if i < earlier.len() {
                assert(earlier[i] == here[i]);
            } else {
                assert(items[n - 1] is TraitDef);
            }
        }
    }
}

proof fn lemma_items_merged_ident(
    entry: crate::output::OutputItemTraitDefView,
    def: crate::item::ItemTraitDefView,
    list: Seq<crate::item::TraitImplItemView>,
    n: nat,
)
    requires
        crate::merge::items_merged(entry, def, list, n) is Ok,
    ensures
        crate::merge::items_merged(entry, def, list, n)->Ok_0.ident == entry.ident,
    decreases n,
{
    reveal(crate::merge::item_merged);
    if n > 0 && n <= list.len() {
        lemma_items_merged_ident(entry, def, list, (n - 1) as nat);
    }
}

/// A list with one trait replaced by a trait of the same name, and with free
/// items behind it or not, holds the same trait names.
proof fn lemma_names_kept(
    outputs: Seq<crate::output::OutputMetaItemView>,
    after: Seq<crate::output::OutputMetaItemView>,
    name: Seq<char>,
)
    requires
        !holds_trait(outputs, name),
        after.len() >= outputs.len(),
        forall|j: int|
            0 <= j < outputs.len() && (#[trigger] after[j]) is TraitDef ==> outputs[j] is TraitDef
                && outputs[j]->TraitDef_0.ident == after[j]->TraitDef_0.ident,
        forall|j: int| outputs.len() <= j < after.len() ==> (#[trigger] after[j]) is Item,
    ensures
        !holds_trait(after, name),
{
    if holds_trait(after, name) {
        let i = choose|i: int|
            0 <= i < after.len() && (#[trigger] after[i]) is TraitDef && after[i]->TraitDef_0.ident.name
                == name;
        if i < outputs.len() {
            assert(outputs[i] is TraitDef);
        }
    }
}

proof fn lemma_step_keeps_names(
    items: Seq<crate::item::MetaItemView>,
    outputs: Seq<crate::output::OutputMetaItemView>,
    item: crate::item::MetaItemView,
    name: Seq<char>,
)
    requires
        crate::lower::declaration_merged(items, outputs, item) is Ok,
        !holds_trait(outputs, name),
    ensures
        !holds_trait(crate::lower::declaration_merged(items, outputs, item)->Ok_0, name),
{
    let after = crate::lower::declaration_merged(items, outputs, item)->Ok_0;
    match item {
        crate::item::MetaItemView::TraitDef(_) => {},
        crate::item::MetaItemView::TraitImpl(imp) => {
            let segment = imp.self_trait->segments[0];
            let t = crate::merge::trait_position(outputs, segment.ident.name, 0)->0;
            lemma_trait_position_found(outputs, segment.ident.name, 0);
            let entry = outputs[t]->TraitDef_0;
            let def = crate::merge::def_at(items, entry.source)->0;
            lemma_items_merged_ident(entry, def, imp.items, imp.items.len());
            lemma_names_kept(outputs, after, name);
        },
        crate::item::MetaItemView::Type(t) => {
            lemma_free_keeps_names(items, outputs, crate::lower::type_header(t), t.ty, name);
        },
        crate::item::MetaItemView::Fn(f) => {
            lemma_free_keeps_names(items, outputs, crate::lower::fn_header(f), f.block, name);
        },
    }
}

proof fn lemma_trait_position_found(
    outputs: Seq<crate::output::OutputMetaItemView>,
    name: Seq<char>,
    i: int,
)
    requires
        crate::merge::trait_position(outputs, name, i) is Some,
    ensures
        i <= crate::merge::trait_position(outputs, name, i)->0 < outputs.len(),
        outputs[crate::merge::trait_position(outputs, name, i)->0] is TraitDef,
        outputs[crate::merge::trait_position(outputs, name, i)->0]->TraitDef_0.ident.name == name,
    decreases outputs.len() - i,
{
    if 0 <= i < outputs.len() && !(outputs[i] is TraitDef && outputs[i]->TraitDef_0.ident.name == name) {
        lemma_trait_position_found(outputs, name, i + 1);
    }
}

proof fn lemma_free_keeps_names(
    items: Seq<crate::item::MetaItemView>,
    outputs: Seq<crate::output::OutputMetaItemView>,
    free: crate::output::LoweredItemView,
    body: TypeLevelExprView,
    name: Seq<char>,
)
    requires
        crate::dispatch::free_lowered(items, outputs, free, body) is Ok,
        !holds_trait(outputs, name),
    ensures
        !holds_trait(crate::dispatch::free_lowered(items, outputs, free, body)->Ok_0, name),
{
    let after = crate::dispatch::free_lowered(items, outputs, free, body)->Ok_0;
    match body {
        TypeLevelExprView::Expr(_) => {
            lemma_names_kept(outputs, after, name);
        },
        TypeLevelExprView::Match(m) => {
            let subject = crate::dispatch::scrutinee(m)->0;
            let found = crate::indirection::isolated::<crate::expr::TypeLevelExpr>(
                body,
                Seq::empty(),
                seq![ScopeView::Generics(free.generics)],
                subject,
            )->Ok_0;
            let segment = crate::dispatch::dispatch_trait(crate::indirection::type_bounds(found.0), 0)->0;
            lemma_trait_position_found(outputs, segment.ident.name, 0);
            lemma_names_kept(outputs, after, name);
        },
    }
}

proof fn lemma_merged_keeps_names(
    items: Seq<crate::item::MetaItemView>,
    outputs: Seq<crate::output::OutputMetaItemView>,
    n: nat,
    name: Seq<char>,
)
    requires
        crate::lower::merged(items, outputs, n) is Ok,
        !holds_trait(outputs, name),
    ensures
        !holds_trait(crate::lower::merged(items, outputs, n)->Ok_0, name),
    decreases n,
{
    if n > 0 && n <= items.len() {
        lemma_merged_keeps_names(items, outputs, (n - 1) as nat, name);
        lemma_step_keeps_names(
            items,
            crate::lower::merged(items, outputs, (n - 1) as nat)->Ok_0,
            items[n - 1],
            name,
        );
    }
}

/// Unknown target: lowering fails for every input in which an implementation
/// block names, by a path of one segment, a trait that the input does not
/// declare.
pub proof fn law_lowered_refuses_unknown_target(items: Seq<crate::item::MetaItemView>, k: int)
    requires
        0 <= k < items.len(),
        items[k] is TraitImpl,
        crate::merge::has_one_segment(items[k]->TraitImpl_0.self_trait),
        !declares_trait(items, items[k]->TraitImpl_0.self_trait->segments[0].ident.name),
    ensures
        crate::lower::lowered(items) is Err,
{
    let name = items[k]->TraitImpl_0.self_trait->segments[0].ident.name;
    let first = crate::lower::registered(items, items.len());
    if crate::lower::cycle_error(items, 0) is None {
        lemma_registered_names(items, items.len(), name);
        if crate::lower::merged(items, first, k as nat) is Ok {
            lemma_merged_keeps_names(items, first, k as nat, name);
            let outputs = crate::lower::merged(items, first, k as nat)->Ok_0;
            lemma_trait_position_none(outputs, name, 0);
            assert(crate::lower::merged(items, first, (k + 1) as nat) is Err);
            crate::lower::lemma_merged_failure(items, first, (k + 1) as nat, items.len());
        } else {
            crate::lower::lemma_merged_failure(items, first, k as nat, items.len());
        }
    }
}

} // verus!
