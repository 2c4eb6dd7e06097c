use vstd::prelude::*;
use crate::project::{filter_by_keyword, Project, ProjectSummary};
use crate::stamp::{clock_text, get_current_time, new_id};
use crate::text::{
    lemma_lex_le_total, lemma_lex_le_transitive, lex_le, owned, str_eq, str_le,
};

verus! {

/// A group of projects, as stored in the group file.
#[derive(Debug)]
pub struct Group {
    pub id: String,
    pub name: String,
    pub created_at: Option<String>,
    pub updated_at: Option<String>,
    /// The ids of the projects filed in the group.
    pub projects: Option<Vec<String>>,
    /// Whether this is the default group, which collects the projects of no group.
    pub is_default: Option<bool>,
}

/// The project groups.
#[derive(Debug)]
pub struct GroupConfig {
    pub groups: Vec<Group>,
}

/// A group with the summaries of its projects.
#[derive(Debug)]
pub struct GroupDetail {
    pub id: String,
    pub name: String,
    pub created_at: String,
    pub updated_at: String,
    pub projects: Option<Vec<ProjectSummary>>,
    pub is_default: Option<bool>,
}

/// The groups with their projects, newest group first.
#[derive(Debug)]
pub struct GroupList {
    pub groups: Vec<GroupDetail>,
}

/// The text of an optional string, empty where there is none.
pub open spec fn text_or_empty(o: Option<String>) -> Seq<char> {
    match o {
        Some(s) => s@,
        None => Seq::empty(),
    }
}

/// The first project with id `id`.
pub open spec fn find_project(projects: Seq<ProjectSummary>, id: Seq<char>) -> Option<ProjectSummary>
    decreases projects.len(),
{
    if projects.len() == 0 {
        None
    } else if projects[0].id@ == id {
        Some(projects[0])
    } else {
        find_project(projects.drop_first(), id)
    }
}

/// For each id in `ids`, in order, the first project with that id; ids that name no
/// project are passed over.
pub open spec fn projects_for(ids: Seq<String>, projects: Seq<ProjectSummary>) -> Seq<ProjectSummary>
    decreases ids.len(),
{
    if ids.len() == 0 {
        Seq::empty()
    } else {
        let rest = projects_for(ids.drop_last(), projects);
        match find_project(projects, ids.last()@) {
            Some(p) => rest.push(p),
            None => rest,
        }
    }
}

/// Whether some group files a project with id `id`.
pub open spec fn is_assigned(groups: Seq<Group>, id: Seq<char>) -> bool {
    exists|i: int, j: int|
        0 <= i < groups.len() && #[trigger] groups[i].projects is Some && 0 <= j
            < groups[i].projects.unwrap()@.len() && #[trigger] groups[i].projects.unwrap()@[j]@
            == id
}

/// The projects that no group files, in their order.
pub open spec fn unassigned_of(groups: Seq<Group>, projects: Seq<ProjectSummary>) -> Seq<
    ProjectSummary,
>
    decreases projects.len(),
{
    if projects.len() == 0 {
        Seq::empty()
    } else {
        let rest = unassigned_of(groups, projects.drop_last());
        if is_assigned(groups, projects.last().id@) {
            rest
        } else {
            rest.push(projects.last())
        }
    }
}

/// The projects a group shows: those it files, and for a default group also `extra`.
pub open spec fn shown_projects(g: Group, projects: Seq<ProjectSummary>, extra: Seq<ProjectSummary>) -> Seq<
    ProjectSummary,
> {
    let own = match g.projects {
        Some(v) => projects_for(v@, projects),
        None => Seq::empty(),
    };
    if g.is_default == Some(true) {
        own + extra
    } else {
        own
    }
}

/// `d` shows the group `g`, with the projects `shown_projects` gives it.
pub open spec fn detail_matches(
    d: GroupDetail,
    g: Group,
    projects: Seq<ProjectSummary>,
    extra: Seq<ProjectSummary>,
) -> bool {
    &&& d.id == g.id
    &&& d.name == g.name
    &&& d.created_at@ == text_or_empty(g.created_at)
    &&& d.updated_at@ == text_or_empty(g.updated_at)
    &&& d.is_default == g.is_default
    &&& d.projects is Some
    &&& d.projects.unwrap()@ == shown_projects(g, projects, extra)
}

/// Some group of `list` shows a project with id `id`.
pub open spec fn shows_project(list: Seq<GroupDetail>, id: Seq<char>) -> bool {
    exists|k: int, t: int|
        0 <= k < list.len() && list[k].projects is Some && 0 <= t < list[k].projects.unwrap()@.len()
            && (#[trigger] list[k].projects.unwrap()@[t]).id@ == id
}

/// The sort keys of the groups: their creation times, empty where missing.
pub open spec fn creation_keys(groups: Seq<Group>) -> Seq<Seq<char>> {
    Seq::new(groups.len(), |i: int| text_or_empty(groups[i].created_at))
}

/// `order` with `i` put right after the leading run of indices whose key is no smaller
/// than that of `i`.
pub open spec fn insert_desc(order: Seq<int>, keys: Seq<Seq<char>>, i: int) -> Seq<int>
    decreases order.len(),
{
    if order.len() == 0 {
        seq![i]
    } else if lex_le(keys[i], keys[order[0]]) {
        seq![order[0]] + insert_desc(order.drop_first(), keys, i)
    } else {
        seq![i] + order
    }
}

/// The indices `0..n`, stably sorted by decreasing key: the order in which `sort_by` with a
/// descending comparison leaves `n` items with these keys.
pub open spec fn sort_desc(keys: Seq<Seq<char>>, n: nat) -> Seq<int>
    decreases n,
{
    if n == 0 {
        Seq::empty()
    } else {
        insert_desc(sort_desc(keys, (n - 1) as nat), keys, n - 1)
    }
}

proof fn lemma_insert_desc_at(order: Seq<int>, keys: Seq<Seq<char>>, i: int, p: int)
    requires
        0 <= p <= order.len(),
        forall|t: int| 0 <= t < p ==> lex_le(keys[i], #[trigger] keys[order[t]]),
        p < order.len() ==> !lex_le(keys[i], keys[order[p]]),
    ensures
        insert_desc(order, keys, i) == order.take(p).push(i) + order.skip(p),
    decreases order.len(),
{
    if order.len() == 0 {
        assert(order.take(p).push(i) + order.skip(p) =~= seq![i]);
    } else if p == 0 {
        assert(order.take(0).push(i) + order.skip(0) =~= seq![i] + order);
    } else {
        let rest = order.drop_first();
        assert forall|t: int| 0 <= t < p - 1 implies lex_le(keys[i], #[trigger] keys[rest[t]]) by {
            assert(rest[t] == order[t + 1]);
        }
        if p - 1 < rest.len() {
            assert(rest[p - 1] == order[p]);
        }
        lemma_insert_desc_at(rest, keys, i, p - 1);
        assert(lex_le(keys[i], keys[order[0]]));
        assert(seq![order[0]] + (rest.take(p - 1).push(i) + rest.skip(p - 1)) =~= order.take(
            p,
        ).push(i) + order.skip(p));
    }
}

/// The indices of `order` come by decreasing key.
pub open spec fn sorted_desc(order: Seq<int>, keys: Seq<Seq<char>>) -> bool {
    forall|t: int, u: int|
        0 <= t < u < order.len() ==> lex_le(#[trigger] keys[order[u]], #[trigger] keys[order[t]])
}

proof fn lemma_insert_desc_position(order: Seq<int>, keys: Seq<Seq<char>>, i: int) -> (p: int)
    ensures
        0 <= p <= order.len(),
        forall|t: int| 0 <= t < p ==> lex_le(keys[i], #[trigger] keys[order[t]]),
        p < order.len() ==> !lex_le(keys[i], keys[order[p]]),
    decreases order.len(),
{
    if order.len() == 0 {
        0
    } else if !lex_le(keys[i], keys[order[0]]) {
        0
    } else {
        let q = lemma_insert_desc_position(order.drop_first(), keys, i);
        assert forall|t: int| 0 <= t < q + 1 implies lex_le(keys[i], #[trigger] keys[order[t]]) by {
            if t > 0 {
                assert(order[t] == order.drop_first()[t - 1]);
            }
        }
        if q + 1 < order.len() {
            assert(order[q + 1] == order.drop_first()[q]);
        }
        q + 1
    }
}

/// Sorting by decreasing creation time is a stable sort: it lists each of the indices
/// `0..n` exactly once, by decreasing key, and indices of equal keys keep their order.
pub proof fn lemma_sort_desc(keys: Seq<Seq<char>>, n: nat)
    requires
        n <= keys.len(),
    ensures
        ({
            let o = sort_desc(keys, n);
            &&& o.len() == n
            &&& forall|t: int| 0 <= t < n ==> 0 <= #[trigger] o[t] < n
            &&& forall|t: int, u: int| 0 <= t < u < n ==> #[trigger] o[t] != #[trigger] o[u]
            &&& sorted_desc(o, keys)
            &&& forall|t: int, u: int|
                0 <= t < u < n && lex_le(keys[#[trigger] o[t]], keys[#[trigger] o[u]]) ==> o[t]
                    < o[u]
        }),
    decreases n,
{
    if n > 0 {
        let m = (n - 1) as nat;
        lemma_sort_desc(keys, m);
        let o = sort_desc(keys, m);
        let i = n - 1;
        let p = lemma_insert_desc_position(o, keys, i);
        lemma_insert_desc_at(o, keys, i, p);
        let o2 = sort_desc(keys, n);
        assert(o2 == o.take(p).push(i) + o.skip(p));
        assert(o2.len() == n);
        assert forall|t: int| 0 <= t < o2.len() implies #[trigger] o2[t] == (if t < p {
            o[t]
        } else if t == p {
            i
        } else {
            o[t - 1]
        }) by {}
        assert forall|t: int| 0 <= t < n implies 0 <= #[trigger] o2[t] < n by {
            if t != p {
                let tt = if t < p { t } else { t - 1 };
                assert(0 <= o[tt] < m);
            }
        }
        assert forall|t: int, u: int| 0 <= t < u < n implies #[trigger] o2[t] != #[trigger] o2[u] by {
            let tt = if t < p { t } else { t - 1 };
            let uu = if u < p { u } else { u - 1 };
            if t != p && u != p {
                assert(tt < uu);
                assert(o[tt] != o[uu]);
            } else if t == p {
                assert(0 <= o[uu] < m);
            } else {
                assert(0 <= o[tt] < m);
            }
        }
        assert forall|t: int, u: int| 0 <= t < u < o2.len() implies lex_le(
            #[trigger] keys[o2[u]],
            #[trigger] keys[o2[t]],
        ) by {
            let tt = if t < p { t } else { t - 1 };
            let uu = if u < p { u } else { u - 1 };
            if t != p && u != p {
                assert(lex_le(keys[o[uu]], keys[o[tt]]));
            } else if u == p {
                assert(lex_le(keys[i], keys[o[t]]));
            } else {
                // t == p < u: everything after the inserted index is no greater than o[p]
                lemma_lex_le_total(keys[i], keys[o[p]]);
                if uu > p {
                    assert(lex_le(keys[o[uu]], keys[o[p]]));
                    lemma_lex_le_transitive(keys[o[uu]], keys[o[p]], keys[i]);
                }
            }
        }
        assert forall|t: int, u: int|
            0 <= t < u < n && lex_le(keys[#[trigger] o2[t]], keys[#[trigger] o2[u]]) implies o2[t]
            < o2[u] by {
            let tt = if t < p { t } else { t - 1 };
            let uu = if u < p { u } else { u - 1 };
            if t != p && u != p {
                assert(tt < uu);
                assert(lex_le(keys[o[tt]], keys[o[uu]]));
            } else if u == p {
                assert(0 <= o[tt] < m);
            } else {
                // t == p < u: the key of i is not below that of o[p], so not below o[uu]
                if uu > p {
                    assert(lex_le(keys[o[uu]], keys[o[p]]));
                    lemma_lex_le_transitive(keys[i], keys[o[uu]], keys[o[p]]);
                }
                assert(false);
            }
        }
    }
}

/// Every index `0..n` has a place in the order `sort_desc` gives.
proof fn lemma_sort_desc_covers(keys: Seq<Seq<char>>, n: nat, v: int) -> (t: int)
    requires
        n <= keys.len(),
        0 <= v < n,
    ensures
        0 <= t < sort_desc(keys, n).len(),
        sort_desc(keys, n)[t] == v,
    decreases n,
{
    let m = (n - 1) as nat;
    let o = sort_desc(keys, m);
    lemma_sort_desc(keys, m);
    let p = lemma_insert_desc_position(o, keys, n - 1);
    lemma_insert_desc_at(o, keys, n - 1, p);
    let o2 = sort_desc(keys, n);
    assert(o2 == o.take(p).push(n - 1) + o.skip(p));
    if v == n - 1 {
        assert(o2[p] == v);
        p
    } else {
        let t0 = lemma_sort_desc_covers(keys, m, v);
        if t0 < p {
            assert(o2[t0] == o[t0]);
            t0
        } else {
            assert(o2[t0 + 1] == o[t0]);
            t0 + 1
        }
    }
}

/// A project with id `id` among `projects` makes `find_project` find one with that id.
proof fn lemma_find_project(projects: Seq<ProjectSummary>, id: Seq<char>, q: int)
    requires
        0 <= q < projects.len(),
        projects[q].id@ == id,
    ensures
        find_project(projects, id) is Some,
        find_project(projects, id)->Some_0.id@ == id,
    decreases projects.len(),
{
    if projects[0].id@ != id {
        assert(projects.drop_first()[q - 1] == projects[q]);
        lemma_find_project(projects.drop_first(), id, q - 1);
    }
}

/// The projects shown for a list of ids hold one for each id that names a project.
proof fn lemma_projects_for_has(ids: Seq<String>, projects: Seq<ProjectSummary>, j: int, q: int) -> (t: int)
    requires
        0 <= j < ids.len(),
        0 <= q < projects.len(),
        projects[q].id@ == ids[j]@,
    ensures
        0 <= t < projects_for(ids, projects).len(),
        projects_for(ids, projects)[t].id@ == ids[j]@,
    decreases ids.len(),
{
    let rest = projects_for(ids.drop_last(), projects);
    if j == ids.len() - 1 {
        lemma_find_project(projects, ids.last()@, q);
        rest.len() as int
    } else {
        assert(ids.drop_last()[j] == ids[j]);
        let t = lemma_projects_for_has(ids.drop_last(), projects, j, q);
        assert(projects_for(ids, projects)[t] == rest[t]);
        t
    }
}

/// A project that no group files is among the unassigned ones.
proof fn lemma_unassigned_has(groups: Seq<Group>, projects: Seq<ProjectSummary>, q: int) -> (t: int)
    requires
        0 <= q < projects.len(),
        !is_assigned(groups, projects[q].id@),
    ensures
        0 <= t < unassigned_of(groups, projects).len(),
        unassigned_of(groups, projects)[t] == projects[q],
    decreases projects.len(),
{
    let rest = unassigned_of(groups, projects.drop_last());
    if q == projects.len() - 1 {
        rest.len() as int
    } else {
        assert(projects.drop_last()[q] == projects[q]);
        let t = lemma_unassigned_has(groups, projects.drop_last(), q);
        assert(unassigned_of(groups, projects)[t] == rest[t]);
        t
    }
}

/// Every unassigned project comes from the input and is filed by no group.
proof fn lemma_unassigned_kept(groups: Seq<Group>, projects: Seq<ProjectSummary>)
    ensures
        forall|t: int|
            #![trigger unassigned_of(groups, projects)[t]]
            0 <= t < unassigned_of(groups, projects).len() ==> !is_assigned(
                groups,
                unassigned_of(groups, projects)[t].id@,
            ) && exists|q: int| 0 <= q < projects.len() && #[trigger] projects[q] == unassigned_of(groups, projects)[t],
    decreases projects.len(),
{
    if projects.len() > 0 {
        let init = projects.drop_last();
        lemma_unassigned_kept(groups, init);
        let rest = unassigned_of(groups, init);
        let u = unassigned_of(groups, projects);
        assert forall|t: int| #![trigger u[t]] 0 <= t < u.len() implies !is_assigned(groups, u[t].id@)
            && exists|q: int| 0 <= q < projects.len() && #[trigger] projects[q] == u[t] by {
            if t < rest.len() {
                assert(u[t] == rest[t]);
                let q = choose|q: int| 0 <= q < init.len() && #[trigger] init[q] == rest[t];
                assert(projects[q] == init[q]);
            } else {
                assert(u[t] == projects[projects.len() - 1]);
            }
        }
    }
}

/// The projects that go to the default group are exactly those that no group at all files,
/// the default group included, each taken from the input: a project filed in some group is
/// never shown again as unassigned.
pub proof fn lemma_unassigned(groups: Seq<Group>, projects: Seq<ProjectSummary>)
    ensures
        ({
            let u = unassigned_of(groups, projects);
            &&& forall|t: int, i: int, j: int|
                0 <= t < u.len() && 0 <= i < groups.len() && groups[i].projects is Some && 0 <= j
                    < groups[i].projects.unwrap()@.len() ==> (#[trigger] groups[i].projects.unwrap()@[j])@
                    != (#[trigger] u[t]).id@
            &&& forall|q: int|
                #![trigger projects[q]]
                0 <= q < projects.len() && (forall|i: int, j: int|
                    0 <= i < groups.len() && groups[i].projects is Some && 0 <= j
                        < groups[i].projects.unwrap()@.len() ==> (#[trigger] groups[i].projects.unwrap()@[j])@
                        != projects[q].id@) ==> exists|t: int| 0 <= t < u.len() && #[trigger] u[t] == projects[q]
            &&& forall|t: int|
                #![trigger u[t]]
                0 <= t < u.len() ==> exists|q: int| 0 <= q < projects.len() && #[trigger] projects[q] == u[t]
        }),
{
    let u = unassigned_of(groups, projects);
    lemma_unassigned_kept(groups, projects);
    assert forall|t: int, i: int, j: int|
        0 <= t < u.len() && 0 <= i < groups.len() && groups[i].projects is Some && 0 <= j
            < groups[i].projects.unwrap()@.len() implies (#[trigger] groups[i].projects.unwrap()@[j])@
            != (#[trigger] u[t]).id@ by {
        assert(!is_assigned(groups, u[t].id@));
    }
    assert forall|q: int|
        #![trigger projects[q]]
        0 <= q < projects.len() && (forall|i: int, j: int|
            0 <= i < groups.len() && groups[i].projects is Some && 0 <= j
                < groups[i].projects.unwrap()@.len() ==> (#[trigger] groups[i].projects.unwrap()@[j])@
                != projects[q].id@) implies exists|t: int| 0 <= t < u.len() && #[trigger] u[t] == projects[q] by {
        let t = lemma_unassigned_has(groups, projects, q);
    }
}

/// Where there is a default group, no project is lost from the grouped view: each project
/// is shown by the groups that file it, or else by the default group.
pub proof fn lemma_every_project_shown(groups: Seq<Group>, projects: Seq<ProjectSummary>, d: int, q: int)
    requires
        0 <= d < groups.len(),
        groups[d].is_default == Some(true),
        0 <= q < projects.len(),
    ensures
        exists|k: int, t: int|
            0 <= k < groups.len() && 0 <= t < shown_projects(
                groups[k],
                projects,
                unassigned_of(groups, projects),
            ).len() && (#[trigger] shown_projects(
                groups[k],
                projects,
                unassigned_of(groups, projects),
            )[t]).id@ == projects[q].id@,
{
    let extra = unassigned_of(groups, projects);
    let id = projects[q].id@;
    if is_assigned(groups, id) {
        let (i, j) = choose|i: int, j: int|
            0 <= i < groups.len() && #[trigger] groups[i].projects is Some && 0 <= j
                < groups[i].projects.unwrap()@.len() && #[trigger] groups[i].projects.unwrap()@[j]@
                == id;
        let ids = groups[i].projects.unwrap()@;
        let t = lemma_projects_for_has(ids, projects, j, q);
        let shown = shown_projects(groups[i], projects, extra);
        assert(shown[t] == projects_for(ids, projects)[t]);
        assert(shown[t].id@ == id);
    } else {
        let t = lemma_unassigned_has(groups, projects, q);
        let own = match groups[d].projects {
            Some(v) => projects_for(v@, projects),
            None => Seq::empty(),
        };
        let shown = shown_projects(groups[d], projects, extra);
        assert(shown == own + extra);
        assert(shown[own.len() + t] == extra[t]);
        assert(shown[own.len() + t].id@ == id);
    }
}

impl Clone for Group {
    fn clone(&self) -> (r: Self)
        ensures
            r.id == self.id,
            r.name == self.name,
            r.created_at == self.created_at,
            r.updated_at == self.updated_at,
            r.projects.is_some() == self.projects.is_some(),
            r.projects.is_some() ==> r.projects.unwrap()@ == self.projects.unwrap()@,
            r.is_default == self.is_default,
    {
        let projects = match &self.projects {
            Some(v) => {
                let c = v.clone();
                assert(c@ =~= v@);
                Some(c)
            },
            None => None,
        };
        Group {
            id: self.id.clone(),
            name: self.name.clone(),
            created_at: self.created_at.clone(),
            updated_at: self.updated_at.clone(),
            projects,
            is_default: self.is_default,
        }
    }
}

/// The first project of `projects` with id `id`.
fn find_project_exec(projects: &Vec<ProjectSummary>, id: &String) -> (r: Option<ProjectSummary>)
    ensures
        r == find_project(projects@, id@),
{
    let mut i: usize = 0;
    assert(projects@.skip(0) =~= projects@);
    while i < projects.len()
        invariant
            i <= projects@.len(),
            find_project(projects@, id@) == find_project(projects@.skip(i as int), id@),
        decreases projects@.len() - i,
    {
        assert(projects@.skip(i as int)[0] == projects@[i as int]);
        assert(projects@.skip(i as int).drop_first() =~= projects@.skip(i + 1));
        if str_eq(projects[i].id.as_str(), id.as_str()) {
            return Some(projects[i].clone());
        }
        i += 1;
    }
    None
}

/// The projects that the ids of `ids` name, as `projects_for` gives them.
fn projects_for_exec(ids: &Vec<String>, projects: &Vec<ProjectSummary>) -> (r: Vec<ProjectSummary>)
    ensures
        r@ == projects_for(ids@, projects@),
{
    let mut r: Vec<ProjectSummary> = Vec::new();
    let mut i: usize = 0;
    while i < ids.len()
        invariant
            i <= ids@.len(),
            r@ == projects_for(ids@.take(i as int), projects@),
        decreases ids@.len() - i,
    {
        assert(ids@.take(i + 1).drop_last() =~= ids@.take(i as int));
        match find_project_exec(projects, &ids[i]) {
            Some(p) => r.push(p),
            None => {},
        }
        i += 1;
    }
    assert(ids@.take(ids@.len() as int) =~= ids@);
    r
}

/// Whether some group of `groups` files the project `id`.
fn is_assigned_exec(groups: &Vec<Group>, id: &String) -> (b: bool)
    ensures
        b == is_assigned(groups@, id@),
{
    let mut i: usize = 0;
    while i < groups.len()
        invariant
            i <= groups@.len(),
            forall|a: int, j: int|
                0 <= a < i && #[trigger] groups@[a].projects is Some && 0 <= j
                    < groups@[a].projects.unwrap()@.len() ==> #[trigger] groups@[a].projects.unwrap()@[j]@
                    != id@,
        decreases groups@.len() - i,
    {
        match &groups[i].projects {
            Some(v) => {
                let mut j: usize = 0;
                while j < v.len()
                    invariant
                        j <= v@.len(),
                        i < groups@.len(),
                        groups@[i as int].projects == Some(*v),
                        forall|t: int| 0 <= t < j ==> #[trigger] v@[t]@ != id@,
                    decreases v@.len() - j,
                {
                    if str_eq(v[j].as_str(), id.as_str()) {
                        assert(groups@[i as int].projects is Some);
                        assert(groups@[i as int].projects.unwrap()@[j as int]@ == id@);
                        return true;
                    }
                    j += 1;
                }
            },
            None => {},
        }
        i += 1;
    }
    false
}

/// The projects of `projects` that no group files.
fn unassigned_exec(groups: &Vec<Group>, projects: &Vec<ProjectSummary>) -> (r: Vec<ProjectSummary>)
    ensures
        r@ == unassigned_of(groups@, projects@),
{
    let mut r: Vec<ProjectSummary> = Vec::new();
    let mut i: usize = 0;
    while i < projects.len()
        invariant
            i <= projects@.len(),
            r@ == unassigned_of(groups@, projects@.take(i as int)),
        decreases projects@.len() - i,
    {
        assert(projects@.take(i + 1).drop_last() =~= projects@.take(i as int));
        if !is_assigned_exec(groups, &projects[i].id) {
            r.push(projects[i].clone());
        }
        i += 1;
    }
    assert(projects@.take(projects@.len() as int) =~= projects@);
    r
}

fn clone_summaries(v: &Vec<ProjectSummary>) -> (r: Vec<ProjectSummary>)
    ensures
        r@ == v@,
{
    let r = v.clone();
    assert(r@ =~= v@);
    r
}

fn opt_text(o: &Option<String>) -> (r: String)
    ensures
        r@ == text_or_empty(*o),
{
    match o {
        Some(s) => s.clone(),
        None => String::new(),
    }
}

/// The detail of group `g`.
fn detail_of(g: &Group, projects: &Vec<ProjectSummary>, extra: &Vec<ProjectSummary>) -> (d: GroupDetail)
    ensures
        detail_matches(d, *g, projects@, extra@),
{
    let mut shown = match &g.projects {
        Some(ids) => projects_for_exec(ids, projects),
        None => Vec::new(),
    };
    if g.is_default == Some(true) {
        let mut more = clone_summaries(extra);
        shown.append(&mut more);
    }
    GroupDetail {
        id: g.id.clone(),
        name: g.name.clone(),
        created_at: opt_text(&g.created_at),
        updated_at: opt_text(&g.updated_at),
        projects: Some(shown),
        is_default: g.is_default,
    }
}

/// The index of the first group with id `id`, or the number of groups where none has it.
pub open spec fn group_position(groups: Seq<Group>, id: Seq<char>) -> int
    decreases groups.len(),
{
    if groups.len() == 0 {
        0
    } else if groups[0].id@ == id {
        0
    } else {
        1 + group_position(groups.drop_first(), id)
    }
}

proof fn lemma_group_position(groups: Seq<Group>, id: Seq<char>, k: int)
    requires
        0 <= k <= groups.len(),
        k < groups.len() ==> groups[k].id@ == id,
        forall|i: int| 0 <= i < k ==> #[trigger] groups[i].id@ != id,
    ensures
        group_position(groups, id) == k,
    decreases k,
{
    if k > 0 {
        assert(groups[0].id@ != id);
        assert forall|i: int| 0 <= i < k - 1 implies #[trigger] groups.drop_first()[i].id@ != id by {
            assert(groups.drop_first()[i] == groups[i + 1]);
        }
        lemma_group_position(groups.drop_first(), id, k - 1);
    }
}

/// Whether the group `g` goes when the groups with id `id` are deleted: it has that id and is
/// not the default group, which may not be deleted.
pub open spec fn deletable(g: Group, id: Seq<char>) -> bool {
    g.id@ == id && g.is_default != Some(true)
}

/// The groups without the deletable ones with id `id`, in their order.
pub open spec fn without_group(groups: Seq<Group>, id: Seq<char>) -> Seq<Group>
    decreases groups.len(),
{
    if groups.len() == 0 {
        Seq::empty()
    } else {
        let rest = without_group(groups.drop_last(), id);
        if deletable(groups.last(), id) {
            rest
        } else {
            rest.push(groups.last())
        }
    }
}

/// The ids of the projects a group files.
pub open spec fn ids_of(g: Group) -> Seq<String> {
    match g.projects {
        Some(v) => v@,
        None => Seq::empty(),
    }
}

/// Whether `ids` holds `id`.
pub open spec fn ids_contain(ids: Seq<String>, id: Seq<char>) -> bool {
    exists|j: int| 0 <= j < ids.len() && #[trigger] ids[j]@ == id
}

/// `ids` without the entries equal to `id`, in their order.
pub open spec fn ids_without(ids: Seq<String>, id: Seq<char>) -> Seq<String>
    decreases ids.len(),
{
    if ids.len() == 0 {
        Seq::empty()
    } else {
        let rest = ids_without(ids.drop_last(), id);
        if ids.last()@ == id {
            rest
        } else {
            rest.push(ids.last())
        }
    }
}

/// `after` is `before` with its project list replaced by `ids`.
pub open spec fn with_ids(before: Group, after: Group, ids: Seq<String>) -> bool {
    &&& after.id == before.id
    &&& after.name == before.name
    &&& after.created_at == before.created_at
    &&& after.updated_at == before.updated_at
    &&& after.is_default == before.is_default
    &&& after.projects is Some
    &&& after.projects.unwrap()@ == ids
}

/// `after` equals `before` but at index `k`.
pub open spec fn same_except(before: Seq<Group>, after: Seq<Group>, k: int) -> bool {
    &&& after.len() == before.len()
    &&& forall|i: int| 0 <= i < before.len() && i != k ==> #[trigger] after[i] == before[i]
}

/// The group `g` after an edit: with a new name, also a new update time.
pub open spec fn renamed(g: Group, name: Option<String>, now: String) -> Group {
    match name {
        Some(n) => Group {
            id: g.id,
            name: n,
            created_at: g.created_at,
            updated_at: Some(now),
            projects: g.projects,
            is_default: g.is_default,
        },
        None => g,
    }
}

/// Filing `pid` in the first group with id `id` turns `before` into `after`; `found` says
/// whether a group has that id (otherwise nothing changes).
pub open spec fn adds_project(
    before: Seq<Group>,
    id: Seq<char>,
    pid: String,
    after: Seq<Group>,
    found: bool,
) -> bool {
    let k = group_position(before, id);
    let ids = ids_of(before[k]);
    &&& found == (k < before.len())
    &&& !found ==> after == before
    &&& found ==> same_except(before, after, k)
    &&& found ==> with_ids(
        before[k],
        after[k],
        if ids_contain(ids, pid@) {
            ids
        } else {
            ids.push(pid)
        },
    )
}

/// Taking `pid` out of the first group with id `id` turns `before` into `after`; `removed`
/// says whether that group filed it (otherwise nothing changes).
pub open spec fn removes_project(
    before: Seq<Group>,
    id: Seq<char>,
    pid: Seq<char>,
    after: Seq<Group>,
    removed: bool,
) -> bool {
    let k = group_position(before, id);
    &&& removed == (k < before.len() && before[k].projects is Some && ids_contain(
        ids_of(before[k]),
        pid,
    ))
    &&& !removed ==> after == before
    &&& removed ==> same_except(before, after, k)
    &&& removed ==> with_ids(before[k], after[k], ids_without(ids_of(before[k]), pid))
}

/// Two groups agree on every field, project lists by their contents.
pub open spec fn same_group(a: Group, b: Group) -> bool {
    &&& a.id == b.id
    &&& a.name == b.name
    &&& a.created_at == b.created_at
    &&& a.updated_at == b.updated_at
    &&& a.is_default == b.is_default
    &&& a.projects is Some == b.projects is Some
    &&& ids_of(a) == ids_of(b)
}

proof fn lemma_position_same_ids(before: Seq<Group>, after: Seq<Group>, id: Seq<char>, k: int)
    requires
        same_except(before, after, k),
        0 <= k < before.len(),
        after[k].id == before[k].id,
    ensures
        group_position(after, id) == group_position(before, id),
    decreases before.len(),
{
    if before.len() > 0 {
        if k > 0 {
            assert(after[0] == before[0]);
            assert(same_except(before.drop_first(), after.drop_first(), k - 1)) by {
                assert forall|i: int| 0 <= i < before.drop_first().len() && i != k - 1 implies
                    #[trigger] after.drop_first()[i] == before.drop_first()[i] by {
                    assert(after[i + 1] == before[i + 1]);
                }
            }
            if before[0].id@ != id {
                lemma_position_same_ids(before.drop_first(), after.drop_first(), id, k - 1);
            }
        } else if before[0].id@ != id {
            assert(after.drop_first() =~= before.drop_first()) by {
                assert forall|i: int| 0 <= i < before.drop_first().len() implies
                    #[trigger] after.drop_first()[i] == before.drop_first()[i] by {
                    assert(after[i + 1] == before[i + 1]);
                }
            }
        }
    }
}

/// Filing a project in a group twice leaves the groups as filing it once does.
pub proof fn lemma_add_group_project_idempotent(
    g0: Seq<Group>,
    g1: Seq<Group>,
    g2: Seq<Group>,
    id: Seq<char>,
    pid: String,
    found1: bool,
    found2: bool,
)
    requires
        adds_project(g0, id, pid, g1, found1),
        adds_project(g1, id, pid, g2, found2),
    ensures
        found2 == found1,
        g2.len() == g1.len(),
        forall|i: int| 0 <= i < g1.len() ==> same_group(#[trigger] g2[i], g1[i]),
{
    if found1 {
        let k = group_position(g0, id);
        lemma_group_position_found(g0, id);
        lemma_position_same_ids(g0, g1, id, k);
        let ids1 = ids_of(g1[k]);
        assert(ids_contain(ids1, pid@)) by {
            let ids0 = ids_of(g0[k]);
            if !ids_contain(ids0, pid@) {
                assert(ids1[ids0.len() as int] == pid);
            }
        }
    }
}

/// After a project is filed in a group and taken out of it again, the group no longer
/// files it.
pub proof fn lemma_remove_after_add(
    g0: Seq<Group>,
    g1: Seq<Group>,
    g2: Seq<Group>,
    id: Seq<char>,
    pid: String,
    found: bool,
    removed: bool,
)
    requires
        adds_project(g0, id, pid, g1, found),
        removes_project(g1, id, pid@, g2, removed),
        found,
    ensures
        removed,
        !ids_contain(ids_of(g2[group_position(g0, id)]), pid@),
{
    let k = group_position(g0, id);
    lemma_group_position_found(g0, id);
    lemma_position_same_ids(g0, g1, id, k);
    let ids1 = ids_of(g1[k]);
    assert(ids_contain(ids1, pid@)) by {
        let ids0 = ids_of(g0[k]);
        if !ids_contain(ids0, pid@) {
            assert(ids1[ids0.len() as int] == pid);
        }
    }
    lemma_ids_without_absent(ids1, pid@);
}

/// Taking `id` out of a list that does not hold it leaves the list as it is.
proof fn lemma_ids_without_untouched(ids: Seq<String>, id: Seq<char>)
    requires
        !ids_contain(ids, id),
    ensures
        ids_without(ids, id) == ids,
    decreases ids.len(),
{
    if ids.len() > 0 {
        assert(!ids_contain(ids.drop_last(), id)) by {
            if ids_contain(ids.drop_last(), id) {
                let j = choose|j: int| 0 <= j < ids.drop_last().len() && #[trigger] ids.drop_last()[j]@ == id;
                assert(ids[j]@ == id);
            }
        }
        lemma_ids_without_untouched(ids.drop_last(), id);
        assert(ids.last()@ != id) by {
            assert(ids[ids.len() - 1]@ == ids.last()@);
        }
        assert(ids.drop_last().push(ids.last()) =~= ids);
    }
}

/// Taking a project out of the group it was just filed in undoes the filing, where that
/// group had a project list without it.
pub proof fn lemma_remove_undoes_add(
    g0: Seq<Group>,
    g1: Seq<Group>,
    g2: Seq<Group>,
    id: Seq<char>,
    pid: String,
    found: bool,
    removed: bool,
)
    requires
        adds_project(g0, id, pid, g1, found),
        removes_project(g1, id, pid@, g2, removed),
        found,
        g0[group_position(g0, id)].projects is Some,
        !ids_contain(ids_of(g0[group_position(g0, id)]), pid@),
    ensures
        removed,
        g2.len() == g0.len(),
        forall|i: int| 0 <= i < g0.len() ==> same_group(#[trigger] g2[i], g0[i]),
{
    let k = group_position(g0, id);
    lemma_group_position_found(g0, id);
    lemma_position_same_ids(g0, g1, id, k);
    let ids0 = ids_of(g0[k]);
    let ids1 = ids_of(g1[k]);
    assert(ids1 == ids0.push(pid));
    assert(ids_contain(ids1, pid@)) by {
        assert(ids1[ids0.len() as int] == pid);
    }
    assert(ids1.drop_last() =~= ids0);
    lemma_ids_without_untouched(ids0, pid@);
    assert(ids_without(ids1, pid@) == ids0);
    assert forall|i: int| 0 <= i < g0.len() implies same_group(#[trigger] g2[i], g0[i]) by {
        if i != k {
            assert(g2[i] == g1[i]);
            assert(g1[i] == g0[i]);
        }
    }
}

/// No entry of `ids_without(ids, id)` is `id`.
pub proof fn lemma_ids_without_absent(ids: Seq<String>, id: Seq<char>)
    ensures
        !ids_contain(ids_without(ids, id), id),
    decreases ids.len(),
{
    if ids.len() > 0 {
        lemma_ids_without_absent(ids.drop_last(), id);
        let rest = ids_without(ids.drop_last(), id);
        if ids.last()@ != id {
            assert forall|j: int| 0 <= j < rest.push(ids.last()).len() implies #[trigger] rest.push(
                ids.last(),
            )[j]@ != id by {
                if j < rest.len() {
                    assert(rest.push(ids.last())[j] == rest[j]);
                }
            }
        }
    }
}

/// After deleting the groups with id `id`, none is left but a default group, every default
/// group is still there, and the group count drops exactly when some group could go.
pub proof fn lemma_delete_group(groups: Seq<Group>, id: Seq<char>)
    ensures
        forall|i: int|
            0 <= i < without_group(groups, id).len() ==> !deletable(
                #[trigger] without_group(groups, id)[i],
                id,
            ),
        forall|i: int|
            0 <= i < groups.len() && (#[trigger] groups[i]).is_default == Some(true) ==> exists|j: int|
                0 <= j < without_group(groups, id).len() && without_group(groups, id)[j] == groups[i],
        (without_group(groups, id).len() != groups.len()) == (exists|i: int|
            0 <= i < groups.len() && deletable(#[trigger] groups[i], id)),
        without_group(groups, id).len() <= groups.len(),
    decreases groups.len(),
{
    if groups.len() > 0 {
        let init = groups.drop_last();
        lemma_delete_group(init, id);
        let rest = without_group(init, id);
        let all = without_group(groups, id);
        assert forall|i: int|
            0 <= i < groups.len() && (#[trigger] groups[i]).is_default == Some(true) implies exists|j: int|
                0 <= j < all.len() && all[j] == groups[i] by {
            if i < init.len() {
                assert(init[i] == groups[i]);
                let j = choose|j: int| 0 <= j < rest.len() && rest[j] == init[i];
                assert(all[j] == rest[j]);
            } else {
                assert(all[all.len() - 1] == groups[i]);
            }
        }
        if !deletable(groups.last(), id) {
            assert forall|i: int| 0 <= i < rest.push(groups.last()).len() implies !deletable(
                #[trigger] rest.push(groups.last())[i],
                id,
            ) by {
                if i < rest.len() {
                    assert(rest.push(groups.last())[i] == rest[i]);
                }
            }
            if exists|i: int| 0 <= i < groups.len() && deletable(#[trigger] groups[i], id) {
                let w = choose|i: int| 0 <= i < groups.len() && deletable(#[trigger] groups[i], id);
                assert(init[w] == groups[w]);
            }
            if exists|i: int| 0 <= i < init.len() && deletable(#[trigger] init[i], id) {
                let w = choose|i: int| 0 <= i < init.len() && deletable(#[trigger] init[i], id);
                assert(groups[w] == init[w]);
            }
        } else {
            assert(deletable(groups[groups.len() - 1], id));
        }
    }
}

/// A group with id `id` exists exactly when `group_position` points inside the groups.
pub proof fn lemma_group_position_found(groups: Seq<Group>, id: Seq<char>)
    ensures
        0 <= group_position(groups, id) <= groups.len(),
        (group_position(groups, id) < groups.len()) == (exists|i: int|
            0 <= i < groups.len() && #[trigger] groups[i].id@ == id),
        group_position(groups, id) < groups.len() ==> groups[group_position(groups, id)].id@ == id,
    decreases groups.len(),
{
    if groups.len() > 0 {
        lemma_group_position_found(groups.drop_first(), id);
        if groups[0].id@ != id {
            if exists|i: int| 0 <= i < groups.len() && #[trigger] groups[i].id@ == id {
                let w = choose|i: int| 0 <= i < groups.len() && #[trigger] groups[i].id@ == id;
                assert(groups.drop_first()[w - 1].id@ == id);
            }
            if exists|i: int| 0 <= i < groups.drop_first().len() && #[trigger] groups.drop_first()[i].id@ == id {
                let w = choose|i: int| 0 <= i < groups.drop_first().len() && #[trigger] groups.drop_first()[i].id@ == id;
                assert(groups[w + 1].id@ == id);
            }
        }
    }
}

/// `a` is the group `b` as it is carried over from an older group file, where the default
/// group had the id `-1` and no group said whether it was the default: the group `-1`
/// becomes the default group under the id `fresh`, any other group is marked as not the
/// default where it says nothing.
pub open spec fn migrated(b: Group, a: Group, fresh: String) -> bool {
    &&& a.name == b.name
    &&& a.created_at == b.created_at
    &&& a.updated_at == b.updated_at
    &&& a.projects == b.projects
    &&& if b.id@ == "-1"@ {
        a.id == fresh && a.is_default == Some(true)
    } else {
        a.id == b.id && a.is_default == (if b.is_default is None {
            Some(false)
        } else {
            b.is_default
        })
    }
}

/// `a` is the group `b` carried over from an older group file with some fresh identifier.
pub open spec fn carried_over(b: Group, a: Group) -> bool {
    exists|fresh: String|
        #[trigger] migrated(b, a, fresh) && (b.id@ == "-1"@ ==> fresh@.len() == 36)
}

/// Carries the group `g` over from an older group file, giving it the id `fresh` if it was
/// the old default group `-1`.
pub fn migrate_group(g: Group, fresh: String) -> (a: Group)
    ensures
        migrated(g, a, fresh),
{
    let mut a = g;
    if str_eq(a.id.as_str(), "-1") {
        a.id = fresh;
        a.is_default = Some(true);
    } else if a.is_default.is_none() {
        a.is_default = Some(false);
    }
    a
}

/// The index of the first group of `groups` with id `id`, as `group_position` gives it.
fn find_group(groups: &Vec<Group>, id: &str) -> (k: usize)
    ensures
        k == group_position(groups@, id@),
        k <= groups@.len(),
{
    let mut i: usize = 0;
    while i < groups.len()
        invariant
            i <= groups@.len(),
            forall|j: int| 0 <= j < i ==> #[trigger] groups@[j].id@ != id@,
        decreases groups@.len() - i,
    {
        if str_eq(groups[i].id.as_str(), id) {
            proof {
                lemma_group_position(groups@, id@, i as int);
            }
            return i;
        }
        i += 1;
    }
    proof {
        lemma_group_position(groups@, id@, i as int);
    }
    i
}

/// Whether `ids` holds `id`.
fn ids_contain_exec(ids: &Vec<String>, id: &str) -> (b: bool)
    ensures
        b == ids_contain(ids@, id@),
{
    let mut j: usize = 0;
    while j < ids.len()
        invariant
            j <= ids@.len(),
            forall|t: int| 0 <= t < j ==> #[trigger] ids@[t]@ != id@,
        decreases ids@.len() - j,
    {
        if str_eq(ids[j].as_str(), id) {
            return true;
        }
        j += 1;
    }
    false
}

/// What carrying a group over from an older group file does to it.
#[derive(Debug)]
pub enum LegacyFix {
    /// It was the old default group: it becomes the default group under this fresh id.
    NewDefault(String),
    /// It does not say whether it is the default: it is marked as not the default.
    MarkNotDefault,
    /// It stays as it is.
    Keep,
}

/// What carrying over a group with id `id` does to it, where `has_is_default` says whether
/// the group says if it is the default (a null value counts as saying): the old default group
/// `-1` becomes the default group under a fresh id, another group that does not say is marked
/// as not the default, and the others stay.
pub fn legacy_group_fix(id: &str, has_is_default: bool) -> (f: LegacyFix)
    ensures
        id@ == "-1"@ ==> f is NewDefault && f->NewDefault_0@.len() == 36,
        id@ != "-1"@ && !has_is_default ==> f is MarkNotDefault,
        id@ != "-1"@ && has_is_default ==> f is Keep,
{
    if str_eq(id, "-1") {
        LegacyFix::NewDefault(new_id())
    } else if !has_is_default {
        LegacyFix::MarkNotDefault
    } else {
        LegacyFix::Keep
    }
}

/// The group "默认分组" (the default group), with id `id`, created and updated at `now`.
pub fn default_group(id: String, now: String) -> (g: Group)
    ensures
        g.id == id,
        g.name@ == "默认分组"@,
        g.projects is None,
        g.created_at == Some(now),
        g.updated_at == Some(now),
        g.is_default == Some(true),
{
    Group {
        id,
        name: owned("默认分组"),
        projects: None,
        created_at: Some(now.clone()),
        updated_at: Some(now),
        is_default: Some(true),
    }
}

impl GroupConfig {
    /// The group file of a fresh installation: the default group alone, with a fresh id,
    /// created and updated now.
    pub fn with_default_group() -> (c: GroupConfig)
        ensures
            c.groups@.len() == 1,
            c.groups@[0].id@.len() == 36,
            c.groups@[0].name@ == "默认分组"@,
            c.groups@[0].projects is None,
            c.groups@[0].created_at is Some,
            clock_text(c.groups@[0].created_at->Some_0@),
            c.groups@[0].updated_at is Some,
            clock_text(c.groups@[0].updated_at->Some_0@),
            c.groups@[0].is_default == Some(true),
    {
        let mut g = default_group(new_id(), get_current_time());
        g.updated_at = Some(get_current_time());
        GroupConfig { groups: vec![g] }
    }
}

impl GroupConfig {
    /// Carries all groups over from an older group file: the old default group `-1` gets a
    /// fresh id and becomes the default group, and every other group that does not say whether
    /// it is the default is marked as not the default.
    pub fn migrate_legacy(&mut self)
        ensures
            final(self).groups@.len() == old(self).groups@.len(),
            forall|i: int|
                0 <= i < old(self).groups@.len() ==> carried_over(
                    #[trigger] old(self).groups@[i],
                    final(self).groups@[i],
                ),
    {
        let ghost orig = self.groups@;
        let mut rest: Vec<Group> = Vec::new();
        std::mem::swap(&mut rest, &mut self.groups);
        let total = rest.len();
        let mut done: Vec<Group> = Vec::new();
        let mut i: usize = 0;
        while rest.len() > 0
            invariant
                rest@ == orig.skip(i as int),
                i <= orig.len(),
                orig.len() == total,
                done@.len() == i,
                forall|j: int| 0 <= j < i ==> carried_over(#[trigger] orig[j], done@[j]),
            decreases rest@.len(),
        {
            let g = rest.remove(0);
            assert(g == orig[i as int]);
            assert(rest@ =~= orig.skip(i + 1));
            let fresh = if str_eq(g.id.as_str(), "-1") {
                new_id()
            } else {
                String::new()
            };
            let ghost f = fresh;
            let a = migrate_group(g, fresh);
            done.push(a);
            assert(migrated(orig[i as int], done@[i as int], f));
            assert(carried_over(orig[i as int], done@[i as int]));
            i += 1;
        }
        self.groups = done;
    }

    /// Adds a group named `name`, with id `id`, created and updated at `now`, after the
    /// others, and returns it.
    pub fn add_group_with(&mut self, name: String, id: String, now: String) -> (g: Group)
        ensures
            g.id == id,
            g.name == name,
            g.created_at == Some(now),
            g.updated_at == Some(now),
            g.projects is None,
            g.is_default == Some(false),
            final(self).groups@ == old(self).groups@.push(g),
    {
        let group = Group {
            id,
            name,
            projects: None,
            created_at: Some(now.clone()),
            updated_at: Some(now),
            is_default: Some(false),
        };
        let copy = Group {
            id: group.id.clone(),
            name: group.name.clone(),
            projects: None,
            created_at: group.created_at.clone(),
            updated_at: group.updated_at.clone(),
            is_default: Some(false),
        };
        self.groups.push(group);
        copy
    }

    /// Adds a group named `name` with a fresh id, created and updated now, after the others,
    /// and returns it.
    pub fn add_group(&mut self, name: String) -> (g: Group)
        ensures
            g.name == name,
            g.projects is None,
            g.is_default == Some(false),
            g.id@.len() == 36,
            g.created_at is Some,
            clock_text(g.created_at->Some_0@),
            g.updated_at == g.created_at,
            final(self).groups@ == old(self).groups@.push(g),
    {
        let id = new_id();
        let now = get_current_time();
        self.add_group_with(name, id, now)
    }

    /// Removes every group with id `id` but the default group, which may not be deleted; says
    /// whether one was removed.
    pub fn delete_group(&mut self, id: &str) -> (removed: bool)
        ensures
            final(self).groups@ == without_group(old(self).groups@, id@),
            removed == (final(self).groups@.len() != old(self).groups@.len()),
    {
        let ghost orig = self.groups@;
        let mut rest: Vec<Group> = Vec::new();
        std::mem::swap(&mut rest, &mut self.groups);
        let len_before = rest.len();
        let mut kept: Vec<Group> = Vec::new();
        let mut i: usize = 0;
        while rest.len() > 0
            invariant
                rest@ == orig.skip(i as int),
                i <= orig.len(),
                orig.len() == len_before,
                kept@ == without_group(orig.take(i as int), id@),
            decreases rest@.len(),
        {
            let g = rest.remove(0);
            proof {
                assert(orig.take(i + 1).drop_last() =~= orig.take(i as int));
                assert(orig.take(i + 1).last() == orig[i as int]);
                assert(rest@ =~= orig.skip(i + 1));
            }
            let is_default = match g.is_default {
                Some(d) => d,
                None => false,
            };
            if is_default || !str_eq(g.id.as_str(), id) {
                kept.push(g);
            }
            i += 1;
        }
        assert(orig.take(i as int) =~= orig);
        let removed = kept.len() != len_before;
        self.groups = kept;
        removed
    }

    /// Gives the first group with id `id` the name `name`, if there is one, and the update
    /// time `now`; says whether a group has that id.
    pub fn update_group_at(&mut self, id: &str, name: Option<String>, now: String) -> (found: bool)
        ensures
            found == (group_position(old(self).groups@, id@) < old(self).groups@.len()),
            !found ==> final(self).groups@ == old(self).groups@,
            found ==> final(self).groups@ == old(self).groups@.update(
                group_position(old(self).groups@, id@),
                renamed(old(self).groups@[group_position(old(self).groups@, id@)], name, now),
            ),
    {
        let k = find_group(&self.groups, id);
        if k == self.groups.len() {
            return false;
        }
        match name {
            Some(n) => {
                let ghost before = self.groups@;
                let mut g = self.groups.remove(k);
                g.name = n;
                g.updated_at = Some(now);
                self.groups.insert(k, g);
                assert(self.groups@ =~= before.update(k as int, renamed(before[k as int], name, now)));
            },
            None => {},
        }
        true
    }

    /// Gives the first group with id `id` the name `name`, if there is one, and the current
    /// time as its update time; says whether a group has that id.
    pub fn update_group(&mut self, id: &str, name: Option<String>) -> (found: bool)
        ensures
            found == (group_position(old(self).groups@, id@) < old(self).groups@.len()),
            !found ==> final(self).groups@ == old(self).groups@,
            found ==> exists|now: String|
                clock_text(now@) && final(self).groups@ == old(self).groups@.update(
                    group_position(old(self).groups@, id@),
                    #[trigger] renamed(old(self).groups@[group_position(old(self).groups@, id@)], name, now),
                ),
    {
        let now = get_current_time();
        self.update_group_at(id, name, now)
    }

    /// Files the project `project_id` in the first group with id `id`, unless it is filed
    /// there already; says whether a group has that id.
    pub fn add_group_project(&mut self, id: String, project_id: String) -> (found: bool)
        ensures
            adds_project(old(self).groups@, id@, project_id, final(self).groups@, found),
    {
        let k = find_group(&self.groups, id.as_str());
        if k == self.groups.len() {
            return false;
        }
        let ghost before = self.groups@;
        let mut g = self.groups.remove(k);
        let mut ids = match g.projects.take() {
            Some(v) => v,
            None => Vec::new(),
        };
        if !ids_contain_exec(&ids, project_id.as_str()) {
            ids.push(project_id);
        }
        g.projects = Some(ids);
        self.groups.insert(k, g);
        assert forall|i: int| 0 <= i < before.len() && i != k implies #[trigger] self.groups@[i]
            == before[i] by {
            if i < k {
                assert(self.groups@[i] == before.remove(k as int)[i]);
            } else {
                assert(self.groups@[i] == before.remove(k as int)[i - 1]);
            }
        }
        true
    }

    /// Takes the project `project_id` out of the first group with id `group_id`; says
    /// whether that group filed it (only then does anything change).
    pub fn remove_project_from_group(&mut self, group_id: String, project_id: String) -> (removed:
        bool)
        ensures
            removes_project(old(self).groups@, group_id@, project_id@, final(self).groups@, removed),
    {
        let k = find_group(&self.groups, group_id.as_str());
        if k == self.groups.len() {
            return false;
        }
        let present = match &self.groups[k].projects {
            Some(v) => ids_contain_exec(v, project_id.as_str()),
            None => false,
        };
        if !present {
            return false;
        }
        let ghost before = self.groups@;
        let mut g = self.groups.remove(k);
        let ids = match g.projects.take() {
            Some(v) => v,
            None => Vec::new(),
        };
        let mut kept: Vec<String> = Vec::new();
        let mut j: usize = 0;
        while j < ids.len()
            invariant
                j <= ids@.len(),
                kept@ == ids_without(ids@.take(j as int), project_id@),
            decreases ids@.len() - j,
        {
            assert(ids@.take(j + 1).drop_last() =~= ids@.take(j as int));
            if !str_eq(ids[j].as_str(), project_id.as_str()) {
                kept.push(ids[j].clone());
            }
            j += 1;
        }
        assert(ids@.take(ids@.len() as int) =~= ids@);
        g.projects = Some(kept);
        self.groups.insert(k, g);
        assert forall|i: int| 0 <= i < before.len() && i != k implies #[trigger] self.groups@[i]
            == before[i] by {
            if i < k {
                assert(self.groups@[i] == before.remove(k as int)[i]);
            } else {
                assert(self.groups@[i] == before.remove(k as int)[i - 1]);
            }
        }
        true
    }

    /// All groups, each with the projects it files among those whose name holds `keyword`,
    /// newest group first. The default group also shows the matching projects that no
    /// group files. `all_projects` are the summaries of every project of the workspace.
    pub fn get_project_details(&self, all_projects: Vec<ProjectSummary>, keyword: Option<String>) -> (r:
        GroupList)
        ensures
            ({
                let projects = filter_by_keyword(all_projects@, keyword);
                let extra = unassigned_of(self.groups@, projects);
                let order = sort_desc(creation_keys(self.groups@), self.groups@.len());
                &&& r.groups@.len() == self.groups@.len()
                &&& forall|k: int|
                    0 <= k < r.groups@.len() ==> detail_matches(
                        #[trigger] r.groups@[k],
                        self.groups@[order[k]],
                        projects,
                        extra,
                    )
                &&& (exists|d: int|
                    0 <= d < self.groups@.len() && #[trigger] self.groups@[d].is_default == Some(
                        true,
                    )) ==> forall|q: int|
                    0 <= q < projects.len() ==> shows_project(r.groups@, (#[trigger] projects[q]).id@)
            }),
    {
        let projects = Project::get_project_list_by_option(all_projects, keyword);
        let extra = unassigned_exec(&self.groups, &projects);
        let ghost keys = creation_keys(self.groups@);
        let mut sorted: Vec<GroupDetail> = Vec::new();
        let ghost mut order: Seq<int> = Seq::empty();
        let mut k: usize = 0;
        while k < self.groups.len()
            invariant
                k <= self.groups@.len(),
                keys == creation_keys(self.groups@),
                order == sort_desc(keys, k as nat),
                sorted@.len() == order.len(),
                order.len() == k,
                forall|t: int| 0 <= t < order.len() ==> 0 <= #[trigger] order[t] < k,
                forall|t: int|
                    0 <= t < sorted@.len() ==> detail_matches(
                        #[trigger] sorted@[t],
                        self.groups@[order[t]],
                        projects@,
                        extra@,
                    ),
            decreases self.groups@.len() - k,
        {
            let d = detail_of(&self.groups[k], &projects, &extra);
            let mut p: usize = 0;
            while p < sorted.len() && str_le(d.created_at.as_str(), sorted[p].created_at.as_str())
                invariant
                    p <= sorted@.len(),
                    d.created_at@ == keys[k as int],
                    sorted@.len() == order.len(),
                    keys == creation_keys(self.groups@),
                    k < self.groups@.len(),
                    forall|t: int| 0 <= t < order.len() ==> 0 <= #[trigger] order[t] < k,
                    forall|t: int|
                        0 <= t < sorted@.len() ==> detail_matches(
                            #[trigger] sorted@[t],
                            self.groups@[order[t]],
                            projects@,
                            extra@,
                        ),
                    forall|t: int| 0 <= t < p ==> lex_le(keys[k as int], #[trigger] keys[order[t]]),
                decreases sorted@.len() - p,
            {
                assert(detail_matches(sorted@[p as int], self.groups@[order[p as int]], projects@, extra@));
                p += 1;
            }
            proof {
                if p < sorted@.len() {
                    assert(detail_matches(sorted@[p as int], self.groups@[order[p as int]], projects@, extra@));
                }
                lemma_insert_desc_at(order, keys, k as int, p as int);
            }
            let ghost old_sorted = sorted@;
            sorted.insert(p, d);
            proof {
                order = order.take(p as int).push(k as int) + order.skip(p as int);
                assert forall|t: int|
                    0 <= t < sorted@.len() implies detail_matches(
                    #[trigger] sorted@[t],
                    self.groups@[order[t]],
                    projects@,
                    extra@,
                ) by {
                    if t < p {
                        assert(sorted@[t] == old_sorted[t]);
                    } else if t > p {
                        assert(sorted@[t] == old_sorted[t - 1]);
                    }
                }
            }
            k += 1;
        }
        proof {
            let n = self.groups@.len();
            if exists|d: int| 0 <= d < n && #[trigger] self.groups@[d].is_default == Some(true) {
                let d = choose|d: int| 0 <= d < n && #[trigger] self.groups@[d].is_default == Some(true);
                assert forall|q: int| 0 <= q < projects@.len() implies shows_project(
                    sorted@,
                    (#[trigger] projects@[q]).id@,
                ) by {
                    lemma_every_project_shown(self.groups@, projects@, d, q);
                    let (g, t) = choose|g: int, t: int|
                        0 <= g < n && 0 <= t < shown_projects(
                            self.groups@[g],
                            projects@,
                            unassigned_of(self.groups@, projects@),
                        ).len() && (#[trigger] shown_projects(
                            self.groups@[g],
                            projects@,
                            unassigned_of(self.groups@, projects@),
                        )[t]).id@ == projects@[q].id@;
                    let k2 = lemma_sort_desc_covers(keys, n, g);
                    assert(detail_matches(sorted@[k2], self.groups@[order[k2]], projects@, extra@));
                    assert(sorted@[k2].projects.unwrap()@[t].id@ == projects@[q].id@);
                }
            }
        }
        GroupList { groups: sorted }
    }
}

} // verus!
