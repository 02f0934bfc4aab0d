//! Renaming of generic parameters that are in conflict with names outside
//! their list.

use vstd::prelude::*;
use vstd::string::StringExecFns;
use crate::binder::{generics_substituted, substitute_generics};
use crate::conflict::{
    lemma_list_weight, lemma_occurrence_weight, lemma_occurrences_by_name, list_weight,
    name_conflict, node_weight, param_list_name_conflict, param_name_conflict, params_conflict,
    scopes_conflict,
};
use crate::generics::{params_view, GenericParam, GenericParamView, Generics, GenericsView};
use crate::occurrence::{collect_occurrences, occurrences, Occurrence};
use crate::subst::{ArgView, ParamSubstArg};
use crate::syntax::{nodes_view, Node, NodeView};

verus! {

/// What the name of a parameter has to stay clear of.
#[derive(Clone, Copy, Debug)]
pub enum Conflict<'a> {
    /// The name of one parameter.
    Param(&'a GenericParam),
    /// The names of a list of parameters.
    Params(&'a Vec<GenericParam>),
    /// The names of the first so many of a list of scopes.
    Scopes(&'a Vec<Vec<GenericParam>>, usize),
    /// The names that a tree, read as a generic argument, refers to.
    Node(&'a Node),
    /// The names that the trees of a list, read as generic arguments, refer to.
    Nodes(&'a Vec<Node>),
}

pub enum ConflictView {
    Param(GenericParamView),
    Params(Seq<GenericParamView>),
    Scopes(Seq<Seq<GenericParamView>>),
    Node(NodeView),
    Nodes(Seq<NodeView>),
}

/// The views of the first `count` scopes of a list.
pub open spec fn scopes_view(scopes: Seq<Vec<GenericParam>>, count: int) -> Seq<Seq<GenericParamView>> {
    Seq::new(
        if count < scopes.len() {
            count as nat
        } else {
            scopes.len()
        },
        |i: int| params_view(scopes[i]@),
    )
}

impl<'a> View for Conflict<'a> {
    type V = ConflictView;

    open spec fn view(&self) -> ConflictView {
        match self {
            Conflict::Param(q) => ConflictView::Param(q@),
            Conflict::Params(params) => ConflictView::Params(params_view(params@)),
            Conflict::Scopes(scopes, count) => ConflictView::Scopes(scopes_view(scopes@, *count as int)),
            Conflict::Node(m) => ConflictView::Node(m@),
            Conflict::Nodes(nodes) => ConflictView::Nodes(nodes_view(nodes@)),
        }
    }
}

/// Whether one of `nodes`, read as a generic argument, refers to `q`.
pub open spec fn nodes_refer(nodes: Seq<NodeView>, q: GenericParamView) -> bool {
    exists|i: int| 0 <= i < nodes.len() && (#[trigger] occurrences(nodes[i], q, true)).len() > 0
}

/// Whether the parameter `q` is in conflict.
pub open spec fn conflicts(c: ConflictView, q: GenericParamView) -> bool {
    match c {
        ConflictView::Param(other) => name_conflict(q, other),
        ConflictView::Params(params) => params_conflict(q, params),
        ConflictView::Scopes(scopes) => scopes_conflict(q, scopes),
        ConflictView::Node(m) => occurrences(m, q, true).len() > 0,
        ConflictView::Nodes(nodes) => nodes_refer(nodes, q),
    }
}

/// The number of characters in the names of a list of parameters.
pub open spec fn params_weight(params: Seq<GenericParamView>) -> nat
    decreases params.len(),
{
    if params.len() == 0 {
        0
    } else {
        params_weight(params.drop_last()) + params.last().name().len()
    }
}

/// The number of characters in the names of the parameters of a list of
/// scopes.
pub open spec fn scopes_weight(scopes: Seq<Seq<GenericParamView>>) -> nat
    decreases scopes.len(),
{
    if scopes.len() == 0 {
        0
    } else {
        scopes_weight(scopes.drop_last()) + params_weight(scopes.last())
    }
}

/// A length that no name in conflict exceeds.
pub open spec fn reach(c: ConflictView) -> nat {
    match c {
        ConflictView::Param(other) => other.name().len(),
        ConflictView::Params(params) => params_weight(params),
        ConflictView::Scopes(scopes) => scopes_weight(scopes),
        ConflictView::Node(m) => node_weight(m),
        ConflictView::Nodes(nodes) => list_weight(nodes),
    }
}

proof fn lemma_params_weight(params: Seq<GenericParamView>, i: int)
    requires
        0 <= i < params.len(),
    ensures
        params[i].name().len() <= params_weight(params),
    decreases params.len(),
{
    if i < params.len() - 1 {
        lemma_params_weight(params.drop_last(), i);
        assert(params.drop_last()[i] == params[i]);
    }
}

proof fn lemma_scopes_weight(scopes: Seq<Seq<GenericParamView>>, i: int)
    requires
        0 <= i < scopes.len(),
    ensures
        params_weight(scopes[i]) <= scopes_weight(scopes),
    decreases scopes.len(),
{
    if i < scopes.len() - 1 {
        lemma_scopes_weight(scopes.drop_last(), i);
        assert(scopes.drop_last()[i] == scopes[i]);
    }
}

/// The name of a parameter in conflict is no longer than the conflict's reach:
/// the names in conflict are finitely many.
pub proof fn lemma_conflict_reach(c: ConflictView, q: GenericParamView)
    requires
        conflicts(c, q),
    ensures
        q.name().len() <= reach(c),
{
    match c {
        ConflictView::Param(other) => {},
        ConflictView::Params(params) => {
            let i = choose|i: int| 0 <= i < params.len() && name_conflict(q, #[trigger] params[i]);
            lemma_params_weight(params, i);
        },
        ConflictView::Scopes(scopes) => {
            let i = choose|i: int| 0 <= i < scopes.len() && params_conflict(q, #[trigger] scopes[i]);
            let j = choose|j: int| 0 <= j < scopes[i].len() && name_conflict(q, #[trigger] scopes[i][j]);
            lemma_params_weight(scopes[i], j);
            lemma_scopes_weight(scopes, i);
        },
        ConflictView::Node(m) => {
            lemma_occurrence_weight(m, q, true);
        },
        ConflictView::Nodes(nodes) => {
            let i = choose|i: int|
                0 <= i < nodes.len() && (#[trigger] occurrences(nodes[i], q, true)).len() > 0;
            lemma_occurrence_weight(nodes[i], q, true);
            lemma_list_weight(nodes, i);
        },
    }
}

/// Whether a parameter is in conflict depends on its kind and its name alone.
pub proof fn lemma_conflict_by_name(c: ConflictView, p: GenericParamView, q: GenericParamView)
    requires
        p.kind() == q.kind(),
        p.name() == q.name(),
    ensures
        conflicts(c, p) == conflicts(c, q),
{
    match c {
        ConflictView::Param(other) => {},
        ConflictView::Params(params) => {
            assert(params_conflict(p, params) == params_conflict(q, params)) by {
                assert forall|i: int| 0 <= i < params.len() implies name_conflict(p, params[i])
                    == name_conflict(q, params[i]) by {}
            }
        },
        ConflictView::Scopes(scopes) => {
            assert forall|i: int| 0 <= i < scopes.len() implies params_conflict(p, scopes[i])
                == params_conflict(q, scopes[i]) by {
                assert forall|j: int| 0 <= j < scopes[i].len() implies name_conflict(p, scopes[i][j])
                    == name_conflict(q, scopes[i][j]) by {}
            }
        },
        ConflictView::Node(m) => {
            lemma_occurrences_by_name(m, p, q, true);
        },
        ConflictView::Nodes(nodes) => {
            assert forall|i: int| 0 <= i < nodes.len() implies occurrences(nodes[i], p, true)
                == occurrences(nodes[i], q, true) by {
                lemma_occurrences_by_name(nodes[i], p, q, true);
            }
        },
    }
}

impl<'a> Conflict<'a> {
    /// Whether the parameter `q` is in conflict.
    pub fn holds(&self, q: &GenericParam) -> (res: bool)
        ensures
            res == conflicts(self@, q@),
    {
        match self {
            Conflict::Param(other) => param_name_conflict(q, other),
            Conflict::Params(params) => param_list_name_conflict(q, params),
            Conflict::Scopes(scopes, count) => {
                let ghost views = scopes_view(scopes@, *count as int);
                let mut i: usize = 0;
                while i < scopes.len() && i < *count
                    invariant
                        i <= scopes@.len(),
                        i <= *count,
                        views == scopes_view(scopes@, *count as int),
                        self@ == ConflictView::Scopes(views),
                        forall|j: int| 0 <= j < i ==> !params_conflict(q@, #[trigger] views[j]),
                    decreases scopes@.len() - i,
                {
                    if param_list_name_conflict(q, &scopes[i]) {
                        assert(params_conflict(q@, views[i as int]));
                        return true;
                    }
                    i += 1;
                }
                false
            },
            Conflict::Node(m) => {
                let mut found: Vec<Occurrence> = Vec::new();
                collect_occurrences(m, q, true, &mut found);
                found.len() > 0
            },
            Conflict::Nodes(nodes) => {
                let mut i: usize = 0;
                while i < nodes.len()
                    invariant
                        i <= nodes@.len(),
                        self@ == ConflictView::Nodes(nodes_view(nodes@)),
                        forall|j: int|
                            0 <= j < i ==> (#[trigger] occurrences(nodes_view(nodes@)[j], q@, true)).len()
                                == 0,
                    decreases nodes@.len() - i,
                {
                    let mut found: Vec<Occurrence> = Vec::new();
                    collect_occurrences(&nodes[i], q, true, &mut found);
                    if found.len() > 0 {
                        assert(occurrences(nodes_view(nodes@)[i as int], q@, true).len() > 0);
                        return true;
                    }
                    i += 1;
                }
                false
            },
        }
    }
}

/// A name with `k` underscores behind it.
pub open spec fn underscored(name: Seq<char>, k: nat) -> Seq<char>
    decreases k,
{
    if k == 0 {
        name
    } else {
        underscored(name, (k - 1) as nat) + "_"@
    }
}

/// Whether `q` with `k` underscores behind its name is in conflict.
pub open spec fn taken(c: ConflictView, q: GenericParamView, k: nat) -> bool {
    conflicts(c, q.with_name(underscored(q.name(), k)))
}

/// Whether `k` is the least positive number of underscores that brings `q`
/// out of conflict.
pub open spec fn first_free(c: ConflictView, q: GenericParamView, k: nat) -> bool {
    &&& k >= 1
    &&& !taken(c, q, k)
    &&& forall|j: nat| 1 <= j < k ==> taken(c, q, j)
}

/// The parameter `q` under the first name, made of its own and underscores
/// behind it, that is not in conflict.
pub open spec fn fresh(c: ConflictView, q: GenericParamView) -> GenericParamView {
    q.with_name(underscored(q.name(), choose|k: nat| first_free(c, q, k)))
}

/// Only one number of underscores is the first free one.
pub proof fn lemma_first_free_unique(c: ConflictView, q: GenericParamView, k1: nat, k2: nat)
    requires
        first_free(c, q, k1),
        first_free(c, q, k2),
    ensures
        k1 == k2,
{
}

/// Appends underscores to the name of `param` until it is out of conflict, if
/// it is in conflict. Returns the parameter as it was, if it was renamed.
pub fn add_underscores_if_conflicting(param: &mut GenericParam, conflict: &Conflict) -> (res: Option<
    GenericParam,
>)
    ensures
        !conflicts(conflict@, final(param)@),
        match res {
            Some(before) => {
                &&& conflicts(conflict@, old(param)@)
                &&& before@ == old(param)@
                &&& final(param)@ == fresh(conflict@, old(param)@)
            },
            None => !conflicts(conflict@, old(param)@) && final(param)@ == old(param)@,
        },
{
    if !conflict.holds(param) {
        return None;
    }
    let before = param.clone();
    let ghost c = conflict@;
    let ghost q = before@;
    let ghost k: nat = 0;
    loop
        invariant
            c == conflict@,
            q == old(param)@,
            before@ == q,
            conflicts(c, q),
            param@ == q.with_name(underscored(q.name(), k)),
            conflicts(c, param@),
            forall|j: nat| 1 <= j <= k ==> taken(c, q, j),
        decreases reach(c) - param@.name().len(),
    {
        proof {
            lemma_conflict_reach(c, param@);
            reveal_strlit("_");
        }
        let ghost shorter = param@.name();
        let mut name = param.ident().name.clone();
        name.append("_");
        param.set_name(name);
        proof {
            k = k + 1;
            assert(param@ == q.with_name(underscored(q.name(), k)));
            assert(param@.name() == shorter + "_"@);
            assert(param@.name().len() == shorter.len() + 1);
            if conflicts(c, param@) {
                lemma_conflict_reach(c, param@);
            }
        }
        if !conflict.holds(param) {
            proof {
                assert(first_free(c, q, k));
                let chosen = choose|k: nat| first_free(c, q, k);
                lemma_first_free_unique(c, q, k, chosen);
            }
            return Some(before);
        }
    }
}

/// One renaming: a parameter as it was, and as it is under its new name.
#[derive(Debug)]
pub struct Rename {
    pub from: GenericParam,
    pub to: GenericParam,
}

pub struct RenameView {
    pub from: GenericParamView,
    pub to: GenericParamView,
}

impl View for Rename {
    type V = RenameView;

    open spec fn view(&self) -> RenameView {
        RenameView { from: self.from@, to: self.to@ }
    }
}

/// The views of a list of renamings, in order.
pub open spec fn renames_view(renames: Seq<Rename>) -> Seq<RenameView> {
    Seq::new(renames.len(), |i: int| renames[i]@)
}

/// The parameter list after its parameter `i` was looked at: where that
/// parameter is in conflict it has its fresh name, and every reference to it
/// in the list goes by the fresh name.
pub open spec fn rename_step(c: ConflictView, g: GenericsView, i: int) -> GenericsView {
    if 0 <= i < g.params.len() && conflicts(c, g.params[i]) {
        let q = g.params[i];
        let r = fresh(c, q);
        generics_substituted(
            GenericsView { params: g.params.update(i, r), where_clause: g.where_clause },
            q,
            ArgView::Param(r),
        )
    } else {
        g
    }
}

/// The parameter list after its first `n` parameters were looked at in order.
pub open spec fn renamed_generics(c: ConflictView, g: GenericsView, n: nat) -> GenericsView
    decreases n,
{
    if n == 0 {
        g
    } else {
        rename_step(c, renamed_generics(c, g, (n - 1) as nat), n - 1)
    }
}

/// The renamings made while the first `n` parameters were looked at, in order.
pub open spec fn renames(c: ConflictView, g: GenericsView, n: nat) -> Seq<RenameView>
    decreases n,
{
    if n == 0 {
        Seq::empty()
    } else {
        let before = renamed_generics(c, g, (n - 1) as nat);
        let earlier = renames(c, g, (n - 1) as nat);
        if n - 1 < before.params.len() && conflicts(c, before.params[n - 1]) {
            earlier.push(
                RenameView { from: before.params[n - 1], to: fresh(c, before.params[n - 1]) },
            )
        } else {
            earlier
        }
    }
}

/// Renames every parameter of `generics` that is in conflict, in order, and
/// lets every reference inside the list follow. Returns the renamings made.
pub fn rename_params(generics: &mut Generics, conflict: &Conflict) -> (res: Vec<Rename>)
    ensures
        final(generics)@ == renamed_generics(conflict@, old(generics)@, old(generics)@.params.len()),
        renames_view(res@) == renames(conflict@, old(generics)@, old(generics)@.params.len()),
        final(generics)@.params.len() == old(generics)@.params.len(),
        forall|i: int|
            0 <= i < final(generics)@.params.len() ==> !conflicts(
                conflict@,
                #[trigger] final(generics)@.params[i],
            ),
        forall|i: int|
            0 <= i < final(generics)@.params.len() ==> (#[trigger] final(generics)@.params[i]).kind()
                == old(generics)@.params[i].kind(),
{
    let ghost c = conflict@;
    let ghost g0 = generics@;
    let mut res: Vec<Rename> = Vec::new();
    let mut i: usize = 0;
    assert(renames_view(res@) =~= renames(c, g0, 0));
    while i < generics.params.len()
        invariant
            c == conflict@,
            g0 == old(generics)@,
            i <= generics.params@.len(),
            generics.params@.len() == g0.params.len(),
            generics@.params.len() == g0.params.len(),
            generics@ == renamed_generics(c, g0, i as nat),
            renames_view(res@) == renames(c, g0, i as nat),
            forall|j: int| 0 <= j < i ==> !conflicts(c, #[trigger] generics@.params[j]),
            forall|j: int|
                0 <= j < generics@.params.len() ==> (#[trigger] generics@.params[j]).kind()
                    == g0.params[j].kind(),
        decreases generics.params@.len() - i,
    {
        let ghost g1 = generics@;
        let ghost old_params = generics.params@;
        match add_underscores_if_conflicting(&mut generics.params[i], conflict) {
            Some(before) => {
                let to = generics.params[i].clone();
                proof {
                    assert(generics@.params =~= g1.params.update(i as int, fresh(c, g1.params[i as int])));
                    assert(generics@.where_clause == g1.where_clause);
                }
                let ghost g2 = generics@;
                substitute_generics(generics, &before, ParamSubstArg::Param(&to));
                proof {
                    assert(generics@ == rename_step(c, g1, i as int));
                    assert forall|j: int| 0 <= j <= i implies !conflicts(
                        c,
                        #[trigger] generics@.params[j],
                    ) by {
                        lemma_conflict_by_name(c, generics@.params[j], g2.params[j]);
                    }
                    assert forall|j: int| 0 <= j < generics@.params.len() implies (
                    #[trigger] generics@.params[j]).kind() == g0.params[j].kind() by {
                        assert(g2.params[j].kind() == g1.params[j].kind());
                    }
                }
                assert(generics.params@.len() == generics@.params.len());
                res.push(Rename { from: before, to });
                assert(renames_view(res@) =~= renames(c, g0, (i + 1) as nat));
            },
            None => {
                proof {
                    assert(generics@.params =~= g1.params);
                    assert(generics@ == rename_step(c, g1, i as int));
                }
            },
        }
        i += 1;
    }
    res
}

} // verus!
