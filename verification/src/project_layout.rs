//! The Projects × Tasks layout of a window: which project each tab belongs
//! to, the distinct projects in first-seen order, and tab cycling within the
//! tabs of one project.
use vstd::prelude::*;
use crate::text::{chars_of, string_of};

verus! {

/// What identifies a project: a local git repository, by its standardized
/// path, with the name shown for it.
pub struct ProjectKey {
    pub path: String,
    pub display_name: String,
}

/// The project a tab belongs to; tabs outside any project share `Other`.
pub enum ProjectId {
    Key(ProjectKey),
    Other,
}

/// One project of the layout.
pub struct ProjectEntry {
    pub display_name: String,
    pub id: ProjectId,
}

/// The projects of a window and the project of each tab.
pub struct ProjectLayout {
    pub projects: Vec<ProjectEntry>,
    pub tab_project: Vec<ProjectId>,
}

/// A project id as a value: `None` for `Other`, else the key's path (what
/// identifies the project).
pub open spec fn project_view(id: ProjectId) -> Option<Seq<char>> {
    match id {
        ProjectId::Key(k) => Some(k.path@),
        ProjectId::Other => None,
    }
}

/// Two ids name the same project: both are `Other`, or both are keys with
/// the same path; the names shown for them play no part.
pub open spec fn same_project(a: ProjectId, b: ProjectId) -> bool {
    match (a, b) {
        (ProjectId::Key(x), ProjectId::Key(y)) => x.path@ == y.path@,
        (ProjectId::Other, ProjectId::Other) => true,
        _ => false,
    }
}

/// The ids of a sequence of projects, as values.
pub open spec fn project_views(ids: Seq<ProjectId>) -> Seq<Option<Seq<char>>> {
    ids.map_values(|id: ProjectId| project_view(id))
}

/// The name shown for a project: the key's name, or `Other`.
pub open spec fn display_name_spec(id: ProjectId) -> Seq<char> {
    match id {
        ProjectId::Key(k) => k.display_name@,
        ProjectId::Other => "Other"@,
    }
}

/// A project id with its name: the path that identifies it (`None` for
/// `Other`) and the name shown for it.
pub open spec fn project_full(id: ProjectId) -> (Option<Seq<char>>, Seq<char>) {
    (project_view(id), display_name_spec(id))
}

/// The ids of a sequence of projects, with their names.
pub open spec fn project_fulls(ids: Seq<ProjectId>) -> Seq<(Option<Seq<char>>, Seq<char>)> {
    ids.map_values(|id: ProjectId| project_full(id))
}

/// The identifying parts of named projects.
pub open spec fn keys_of(s: Seq<(Option<Seq<char>>, Seq<char>)>) -> Seq<Option<Seq<char>>> {
    s.map_values(|e: (Option<Seq<char>>, Seq<char>)| e.0)
}

/// The named projects of `s`, one per identifying key, each as it is first
/// seen, in first-seen order.
pub open spec fn first_seen_by_key(s: Seq<(Option<Seq<char>>, Seq<char>)>) -> Seq<
    (Option<Seq<char>>, Seq<char>),
>
    decreases s.len(),
{
    if s.len() == 0 {
        Seq::empty()
    } else {
        let p = first_seen_by_key(s.drop_last());
        if keys_of(p).contains(s.last().0) {
            p
        } else {
            p.push(s.last())
        }
    }
}

/// The distinct values of `s` in the order they are first seen.
pub open spec fn first_seen<A>(s: Seq<A>) -> Seq<A>
    decreases s.len(),
{
    if s.len() == 0 {
        Seq::empty()
    } else {
        let p = first_seen(s.drop_last());
        if p.contains(s.last()) {
            p
        } else {
            p.push(s.last())
        }
    }
}

/// The positions of `x` in `s`, increasing.
pub open spec fn positions<A>(s: Seq<A>, x: A) -> Seq<usize>
    decreases s.len(),
{
    if s.len() == 0 {
        Seq::empty()
    } else {
        let p = positions(s.drop_last(), x);
        if s.last() == x {
            p.push((s.len() - 1) as usize)
        } else {
            p
        }
    }
}

/// The index of the first `x` in `v`, or `-1`.
pub open spec fn first_index(v: Seq<usize>, x: usize) -> int
    decreases v.len(),
{
    if v.len() == 0 {
        -1
    } else if v[0] == x {
        0
    } else if first_index(v.drop_first(), x) < 0 {
        -1
    } else {
        first_index(v.drop_first(), x) + 1
    }
}

/// The next tab of `visible` after `current`, wrapping; the first one when
/// `current` is not among them; `current` itself when there is none.
pub open spec fn cycle_next_spec(visible: Seq<usize>, current: usize) -> usize {
    if visible.len() == 0 {
        current
    } else if first_index(visible, current) < 0 {
        visible[0]
    } else {
        visible[(first_index(visible, current) + 1) % (visible.len() as int)]
    }
}

/// The previous tab of `visible` before `current`, wrapping; the first one
/// when `current` is not among them; `current` itself when there is none.
pub open spec fn cycle_prev_spec(visible: Seq<usize>, current: usize) -> usize {
    if visible.len() == 0 {
        current
    } else if first_index(visible, current) < 0 {
        visible[0]
    } else {
        visible[(first_index(visible, current) + visible.len() - 1) % (visible.len() as int)]
    }
}

/// The layout's invariant: the projects are the tabs' distinct projects in
/// first-seen order, each with the id (and so the name) of the first tab of
/// that project, and named by it.
pub open spec fn layout_wf(layout: ProjectLayout) -> bool {
    &&& project_fulls(layout.projects@.map_values(|e: ProjectEntry| e.id)) == first_seen_by_key(
        project_fulls(layout.tab_project@),
    )
    &&& forall|i: int|
        0 <= i < layout.projects@.len() ==> #[trigger] layout.projects@[i].display_name@
            == display_name_spec(layout.projects@[i].id)
}

/// A copy of a string.
fn copy_string(s: &String) -> (r: String)
    ensures
        r@ == s@,
{
    s.clone()
}

impl ProjectId {
    /// The name shown for the project: the key's name, or `Other`.
    pub fn display_name(&self) -> (r: String)
        ensures
            r@ == display_name_spec(*self),
    {
        match self {
            ProjectId::Key(k) => copy_string(&k.display_name),
            ProjectId::Other => string_of(chars_of("Other")),
        }
    }

    /// A copy of the id.
    pub fn duplicate(&self) -> (r: ProjectId)
        ensures
            project_view(r) == project_view(*self),
            display_name_spec(r) == display_name_spec(*self),
    {
        match self {
            ProjectId::Key(k) => ProjectId::Key(
                ProjectKey { path: copy_string(&k.path), display_name: copy_string(&k.display_name) },
            ),
            ProjectId::Other => ProjectId::Other,
        }
    }

    /// Whether two ids name the same project.
    pub fn same_as(&self, other: &ProjectId) -> (r: bool)
        ensures
            r == (project_view(*self) == project_view(*other)),
            r == same_project(*self, *other),
    {
        match (self, other) {
            (ProjectId::Key(a), ProjectId::Key(b)) => a.path == b.path,
            (ProjectId::Other, ProjectId::Other) => true,
            _ => false,
        }
    }
}

/// Builds a layout from the project of each tab: the distinct projects in
/// first-seen order, each with the id and display name of its first tab.
pub fn layout_from(tab_project: Vec<ProjectId>) -> (r: ProjectLayout)
    ensures
        layout_wf(r),
        project_fulls(r.tab_project@) == project_fulls(tab_project@),
        forall|i: int, j: int|
            0 <= i < j < r.projects@.len() ==> !same_project(
                #[trigger] r.projects@[i].id,
                #[trigger] r.projects@[j].id,
            ),
        forall|k: int|
            0 <= k < r.tab_project@.len() ==> exists|i: int|
                0 <= i < r.projects@.len() && same_project(
                    #[trigger] r.tab_project@[k],
                    #[trigger] r.projects@[i].id,
                ),
{
    let mut projects: Vec<ProjectEntry> = Vec::new();
    let ghost tabs = project_fulls(tab_project@);
    let mut k: usize = 0;
    while k < tab_project.len()
        invariant
            tabs == project_fulls(tab_project@),
            k <= tab_project@.len(),
            project_fulls(projects@.map_values(|e: ProjectEntry| e.id)) == first_seen_by_key(
                tabs.take(k as int),
            ),
            forall|i: int|
                0 <= i < projects@.len() ==> #[trigger] projects@[i].display_name@
                    == display_name_spec(projects@[i].id),
        decreases tab_project.len() - k,
    {
        let id = &tab_project[k];
        let ghost named = project_fulls(projects@.map_values(|e: ProjectEntry| e.id));
        let ghost seen = keys_of(named);
        assert(tabs.take(k + 1).drop_last() =~= tabs.take(k as int));
        assert(tabs.take(k + 1).last() == project_full(*id));
        let mut found = false;
        let mut j: usize = 0;
        while j < projects.len()
            invariant
                named == project_fulls(projects@.map_values(|e: ProjectEntry| e.id)),
                seen == keys_of(named),
                seen.len() == projects@.len(),
                j <= projects@.len(),
                found == (exists|m: int| 0 <= m < j && #[trigger] seen[m] == project_view(*id)),
            decreases projects.len() - j,
        {
            assert(seen[j as int] == project_view(projects@[j as int].id));
            if !found && projects[j].id.same_as(id) {
                found = true;
            }
            j = j + 1;
        }
        assert(found == seen.contains(project_view(*id)));
        if !found {
            let entry = ProjectEntry { display_name: id.display_name(), id: id.duplicate() };
            projects.push(entry);
            assert(project_fulls(projects@.map_values(|e: ProjectEntry| e.id)) =~= named.push(
                project_full(*id),
            ));
        }
        k = k + 1;
    }
    assert(tabs.take(k as int) =~= tabs);
    let layout = ProjectLayout { projects, tab_project };
    proof {
        lemma_layout_groups_by_path(layout);
    }
    layout
}

impl ProjectLayout {
    /// The distinct projects, in first-seen order.
    pub fn projects(&self) -> (r: &Vec<ProjectEntry>)
        ensures
            r@ == self.projects@,
    {
        &self.projects
    }

    /// Whether the window spans more than one project.
    pub fn has_multiple_projects(&self) -> (r: bool)
        ensures
            r == (self.projects@.len() > 1),
    {
        self.projects.len() > 1
    }

    /// The indices of the tabs that belong to `id`, increasing.
    pub fn visible_tab_indices(&self, id: &ProjectId) -> (r: Vec<usize>)
        ensures
            r@ == positions(project_views(self.tab_project@), project_view(*id)),
            forall|k: int|
                0 <= k < self.tab_project@.len() ==> (r@.contains(k as usize) <==> same_project(
                    #[trigger] self.tab_project@[k],
                    *id,
                )),
            forall|m: int| 0 <= m < r@.len() ==> #[trigger] r@[m] < self.tab_project@.len(),
    {
        let ghost tabs = project_views(self.tab_project@);
        let mut out: Vec<usize> = Vec::new();
        let mut k: usize = 0;
        while k < self.tab_project.len()
            invariant
                tabs == project_views(self.tab_project@),
                k <= self.tab_project@.len(),
                out@ == positions(tabs.take(k as int), project_view(*id)),
            decreases self.tab_project.len() - k,
        {
            assert(tabs.take(k + 1).drop_last() =~= tabs.take(k as int));
            assert(tabs.take(k + 1).last() == project_view(self.tab_project@[k as int]));
            if self.tab_project[k].same_as(id) {
                out.push(k);
            }
            k = k + 1;
        }
        assert(tabs.take(k as int) =~= tabs);
        proof {
            lemma_positions_members(tabs, project_view(*id));
            assert forall|k: int| 0 <= k < self.tab_project@.len() implies (out@.contains(
                k as usize,
            ) <==> same_project(#[trigger] self.tab_project@[k], *id)) by {
                lemma_same_project_is_same_view(self.tab_project@[k], *id);
                assert(tabs[k] == project_view(self.tab_project@[k]));
            }
        }
        out
    }
}

/// The index of the first `current` in `visible`, if any.
fn find_index(visible: &[usize], current: usize) -> (r: Option<usize>)
    ensures
        match r {
            Some(i) => first_index(visible@, current) == i as int,
            None => first_index(visible@, current) < 0,
        },
{
    let n = visible.len();
    let mut i: usize = 0;
    assert(visible@.skip(0) =~= visible@);
    while i < n
        invariant
            n == visible@.len(),
            i <= n,
            first_index(visible@, current) < 0 ==> first_index(visible@.skip(i as int), current)
                < 0,
            first_index(visible@, current) >= 0 ==> first_index(visible@.skip(i as int), current)
                >= 0 && first_index(visible@, current) == first_index(
                visible@.skip(i as int),
                current,
            ) + i,
        decreases n - i,
    {
        let ghost rest = visible@.skip(i as int);
        assert(rest[0] == visible@[i as int]);
        assert(rest.drop_first() =~= visible@.skip(i + 1));
        if visible[i] == current {
            return Some(i);
        }
        i = i + 1;
    }
    None
}

/// The next tab of `visible` after `current`, wrapping to the first; the
/// first tab when `current` is not visible; `current` when none is.
pub fn cycle_next(visible: &[usize], current: usize) -> (r: usize)
    ensures
        r == cycle_next_spec(visible@, current),
{
    if visible.len() == 0 {
        return current;
    }
    match find_index(visible, current) {
        Some(i) => {
            proof {
                lemma_first_index_bounds(visible@, current);
            }
            if i + 1 == visible.len() {
                proof {
                    lemma_wrap(i + 1, visible@.len() as int);
                }
                visible[0]
            } else {
                proof {
                    lemma_wrap(i + 1, visible@.len() as int);
                }
                visible[i + 1]
            }
        },
        None => visible[0],
    }
}

/// The previous tab of `visible` before `current`, wrapping to the last;
/// the first tab when `current` is not visible; `current` when none is.
pub fn cycle_prev(visible: &[usize], current: usize) -> (r: usize)
    ensures
        r == cycle_prev_spec(visible@, current),
{
    if visible.len() == 0 {
        return current;
    }
    match find_index(visible, current) {
        Some(i) => {
            proof {
                lemma_first_index_bounds(visible@, current);
            }
            proof {
                lemma_wrap(i + visible@.len() - 1, visible@.len() as int);
            }
            if i == 0 {
                visible[visible.len() - 1]
            } else {
                visible[i - 1]
            }
        },
        None => visible[0],
    }
}

/// Wrapping an index below twice the length.
pub proof fn lemma_wrap(a: int, n: int)
    requires
        0 < n,
        0 <= a < 2 * n,
    ensures
        a % n == if a < n {
            a
        } else {
            a - n
        },
{
    assert(a % n == if a < n {
        a
    } else {
        a - n
    }) by (nonlinear_arith)
        requires
            0 < n,
            0 <= a < 2 * n,
    ;
}

/// `first_index` finds `x` where it says it does.
pub proof fn lemma_first_index_bounds(v: Seq<usize>, x: usize)
    ensures
        first_index(v, x) < v.len(),
        first_index(v, x) >= 0 ==> v[first_index(v, x)] == x,
        first_index(v, x) < 0 ==> !v.contains(x),
        first_index(v, x) >= -1,
    decreases v.len(),
{
    if v.len() > 0 {
        lemma_first_index_bounds(v.drop_first(), x);
        if first_index(v, x) < 0 {
            assert forall|i: int| 0 <= i < v.len() implies v[i] != x by {
                if i > 0 {
                    assert(v.drop_first()[i - 1] == v[i]);
                }
            }
        }
    }
}

/// In a sequence without repeats, the first index of an element is its
/// index.
pub proof fn lemma_first_index_distinct(v: Seq<usize>, j: int)
    requires
        v.no_duplicates(),
        0 <= j < v.len(),
    ensures
        first_index(v, v[j]) == j,
    decreases v.len(),
{
    if j > 0 {
        let d = v.drop_first();
        assert(d.no_duplicates());
        assert(d[j - 1] == v[j]);
        lemma_first_index_distinct(d, j - 1);
    }
}

/// Cycling is reversible: among distinct visible tabs, stepping back from
/// the next tab returns to the current one, and stepping forward from the
/// previous tab does too.
pub proof fn lemma_cycle_round_trip(visible: Seq<usize>, current: usize)
    requires
        visible.no_duplicates(),
        visible.contains(current),
    ensures
        cycle_prev_spec(visible, cycle_next_spec(visible, current)) == current,
        cycle_next_spec(visible, cycle_prev_spec(visible, current)) == current,
{
    let n = visible.len() as int;
    let j = choose|j: int| 0 <= j < n && visible[j] == current;
    lemma_first_index_distinct(visible, j);
    lemma_wrap(j + 1, n);
    lemma_wrap(j + n - 1, n);
    let nx = (j + 1) % n;
    let pv = (j + n - 1) % n;
    lemma_first_index_distinct(visible, nx);
    lemma_first_index_distinct(visible, pv);
    lemma_wrap(nx + n - 1, n);
    lemma_wrap(pv + 1, n);
}

/// Every tab is among the visible tabs of its own project.
pub proof fn lemma_tab_visible_in_its_project(tabs: Seq<Option<Seq<char>>>, i: int)
    requires
        0 <= i < tabs.len(),
    ensures
        positions(tabs, tabs[i]).contains(i as usize),
    decreases tabs.len(),
{
    if i == tabs.len() - 1 {
        assert(positions(tabs, tabs[i]).last() == i as usize);
    } else {
        assert(tabs.drop_last()[i] == tabs[i]);
        lemma_tab_visible_in_its_project(tabs.drop_last(), i);
        let p = positions(tabs.drop_last(), tabs[i]);
        let k = choose|k: int| 0 <= k < p.len() && p[k] == i as usize;
        if tabs.last() == tabs[i] {
            assert(p.push((tabs.len() - 1) as usize)[k] == i as usize);
        }
    }
}

/// The projects of a layout are distinct, and every tab's project is among
/// them.
pub proof fn lemma_first_seen_distinct_and_complete<A>(s: Seq<A>)
    ensures
        first_seen(s).no_duplicates(),
        forall|i: int| 0 <= i < s.len() ==> first_seen(s).contains(#[trigger] s[i]),
        forall|x: A| #[trigger] first_seen(s).contains(x) ==> s.contains(x),
    decreases s.len(),
{
    if s.len() > 0 {
        let d = s.drop_last();
        lemma_first_seen_distinct_and_complete(d);
        let p = first_seen(d);
        assert forall|i: int| 0 <= i < s.len() implies first_seen(s).contains(#[trigger] s[i]) by {
            if i < s.len() - 1 {
                assert(d[i] == s[i]);
                assert(p.contains(d[i]));
                if !p.contains(s.last()) {
                    let k = choose|k: int| 0 <= k < p.len() && p[k] == d[i];
                    assert(p.push(s.last())[k] == s[i]);
                }
            } else {
                if !p.contains(s.last()) {
                    assert(p.push(s.last())[p.len() as int] == s.last());
                }
            }
        }
        assert forall|x: A| #[trigger] first_seen(s).contains(x) implies s.contains(x) by {
            if p.contains(x) {
                let k = choose|k: int| 0 <= k < d.len() && d[k] == x;
                assert(s[k] == x);
            } else {
                assert(x == s.last());
                assert(s[s.len() - 1] == x);
            }
        }
    }
}

/// The projects of a well-formed layout are distinct, every tab's project
/// is among them, and each of them is some tab's project.
pub proof fn lemma_layout_projects(layout: ProjectLayout)
    requires
        layout_wf(layout),
    ensures
        ({
            let projects = project_views(layout.projects@.map_values(|e: ProjectEntry| e.id));
            let tabs = project_views(layout.tab_project@);
            &&& projects.no_duplicates()
            &&& forall|i: int| 0 <= i < tabs.len() ==> projects.contains(#[trigger] tabs[i])
            &&& forall|x| #[trigger] projects.contains(x) ==> tabs.contains(x)
        }),
{
    let tabs = project_fulls(layout.tab_project@);
    lemma_keys_of_first_seen_by_key(tabs);
    assert(keys_of(tabs) =~= project_views(layout.tab_project@));
    assert(keys_of(project_fulls(layout.projects@.map_values(|e: ProjectEntry| e.id))) =~= project_views(
        layout.projects@.map_values(|e: ProjectEntry| e.id),
    ));
    lemma_first_seen_distinct_and_complete(project_views(layout.tab_project@));
}

/// Keeping each key's first named project keeps the keys in first-seen
/// order.
pub proof fn lemma_keys_of_first_seen_by_key(s: Seq<(Option<Seq<char>>, Seq<char>)>)
    ensures
        keys_of(first_seen_by_key(s)) == first_seen(keys_of(s)),
    decreases s.len(),
{
    if s.len() > 0 {
        lemma_keys_of_first_seen_by_key(s.drop_last());
        assert(keys_of(s).drop_last() =~= keys_of(s.drop_last()));
        assert(keys_of(s).last() == s.last().0);
        let p = first_seen_by_key(s.drop_last());
        assert(keys_of(p.push(s.last())) =~= keys_of(p).push(s.last().0));
    }
}

/// Each project of a well-formed layout carries the id, and so the name,
/// of the first tab of that project.
pub proof fn lemma_first_tab_names_project(s: Seq<(Option<Seq<char>>, Seq<char>)>, i: int)
    requires
        0 <= i < first_seen_by_key(s).len(),
    ensures
        exists|j: int|
            0 <= j < s.len() && #[trigger] s[j] == first_seen_by_key(s)[i] && forall|m: int|
                0 <= m < j ==> s[m].0 != s[j].0,
    decreases s.len(),
{
    let d = s.drop_last();
    let p = first_seen_by_key(d);
    lemma_keys_of_first_seen_by_key(d);
    if i < p.len() {
        lemma_first_tab_names_project(d, i);
        let j = choose|j: int|
            0 <= j < d.len() && #[trigger] d[j] == p[i] && forall|m: int|
                0 <= m < j ==> d[m].0 != d[j].0;
        assert(s[j] == d[j]);
        assert forall|m: int| 0 <= m < j implies s[m].0 != s[j].0 by {
            assert(s[m] == d[m]);
        }
    } else {
        let j = s.len() - 1;
        assert(!keys_of(p).contains(s.last().0));
        assert forall|m: int| 0 <= m < j implies s[m].0 != s[j].0 by {
            assert(s[m] == d[m]);
            lemma_first_seen_distinct_and_complete(keys_of(d));
            assert(keys_of(d)[m] == d[m].0);
        }
        assert(s[j] == first_seen_by_key(s)[i]);
    }
}

/// Each project of a well-formed layout is named as the first tab of that
/// project is: some tab carries the project's path and name, and no earlier
/// tab has that path.
pub proof fn lemma_layout_names(layout: ProjectLayout)
    requires
        layout_wf(layout),
    ensures
        forall|i: int|
            #![trigger layout.projects@[i]]
            0 <= i < layout.projects@.len() ==> exists|j: int|
                0 <= j < layout.tab_project@.len() && #[trigger] project_full(
                    layout.tab_project@[j],
                ) == project_full(layout.projects@[i].id) && layout.projects@[i].display_name@
                    == display_name_spec(layout.tab_project@[j]) && forall|m: int|
                    0 <= m < j ==> project_view(layout.tab_project@[m]) != project_view(
                        layout.tab_project@[j],
                    ),
{
    let tabs = project_fulls(layout.tab_project@);
    let named = project_fulls(layout.projects@.map_values(|e: ProjectEntry| e.id));
    assert forall|i: int| #![trigger layout.projects@[i]] 0 <= i < layout.projects@.len() implies exists|j: int|
        0 <= j < layout.tab_project@.len() && #[trigger] project_full(layout.tab_project@[j])
            == project_full(layout.projects@[i].id) && layout.projects@[i].display_name@
            == display_name_spec(layout.tab_project@[j]) && forall|m: int|
            0 <= m < j ==> project_view(layout.tab_project@[m]) != project_view(
                layout.tab_project@[j],
            ) by {
        assert(named[i] == project_full(layout.projects@[i].id));
        lemma_first_tab_names_project(tabs, i);
        let j = choose|j: int|
            0 <= j < tabs.len() && #[trigger] tabs[j] == first_seen_by_key(tabs)[i] && forall|m: int|
                0 <= m < j ==> tabs[m].0 != tabs[j].0;
        assert(tabs[j] == project_full(layout.tab_project@[j]));
        assert forall|m: int| 0 <= m < j implies project_view(layout.tab_project@[m])
            != project_view(layout.tab_project@[j]) by {
            assert(tabs[m] == project_full(layout.tab_project@[m]));
        }
    }
}

/// Two ids name the same project exactly when their values (the path, or
/// `None` for `Other`) agree.
pub proof fn lemma_same_project_is_same_view(a: ProjectId, b: ProjectId)
    ensures
        same_project(a, b) <==> project_view(a) == project_view(b),
{
}

/// The positions of `x` in `s` are the indices of `s` that hold `x`.
pub proof fn lemma_positions_members<A>(s: Seq<A>, x: A)
    requires
        s.len() <= usize::MAX,
    ensures
        forall|k: int| 0 <= k < s.len() ==> (positions(s, x).contains(k as usize) <==> s[k] == x),
        forall|m: int|
            0 <= m < positions(s, x).len() ==> #[trigger] positions(s, x)[m] < s.len(),
    decreases s.len(),
{
    if s.len() > 0 {
        let d = s.drop_last();
        let p = positions(d, x);
        lemma_positions_members(d, x);
        let n = s.len() - 1;
        assert forall|k: int| 0 <= k < s.len() implies (positions(s, x).contains(k as usize)
            <==> s[k] == x) by {
            if k < n {
                assert(d[k] == s[k]);
                if s.last() == x {
                    if p.contains(k as usize) {
                        let m = choose|m: int| 0 <= m < p.len() && p[m] == k as usize;
                        assert(p.push(n as usize)[m] == k as usize);
                    }
                    if positions(s, x).contains(k as usize) {
                        let q = positions(s, x);
                        assert(q == p.push(n as usize));
                        let m = choose|m: int| 0 <= m < q.len() && #[trigger] q[m] == k as usize;
                        if m < p.len() {
                            assert(p[m] == k as usize);
                        }
                    }
                }
            } else {
                if s.last() == x {
                    assert(p.push(n as usize)[p.len() as int] == n as usize);
                } else {
                    if p.contains(n as usize) {
                        let m = choose|m: int| 0 <= m < p.len() && p[m] == n as usize;
                        assert(p[m] < d.len());
                    }
                }
            }
        }
        assert forall|m: int| 0 <= m < positions(s, x).len() implies #[trigger] positions(s, x)[m]
            < s.len() by {
            if m < p.len() {
                if s.last() == x {
                    assert(p.push(n as usize)[m] == p[m]);
                }
            }
        }
    }
}

/// The projects of a well-formed layout are pairwise different projects
/// (no two share a path, and at most one is `Other`), and every tab belongs
/// to one of them: keys with different paths make different projects even
/// where their names agree.
pub proof fn lemma_layout_groups_by_path(layout: ProjectLayout)
    requires
        layout_wf(layout),
    ensures
        forall|i: int, j: int|
            0 <= i < j < layout.projects@.len() ==> !same_project(
                #[trigger] layout.projects@[i].id,
                #[trigger] layout.projects@[j].id,
            ),
        forall|k: int|
            0 <= k < layout.tab_project@.len() ==> exists|i: int|
                0 <= i < layout.projects@.len() && same_project(
                    #[trigger] layout.tab_project@[k],
                    #[trigger] layout.projects@[i].id,
                ),
{
    let ids = layout.projects@.map_values(|e: ProjectEntry| e.id);
    let projects = project_views(ids);
    let tabs = project_views(layout.tab_project@);
    lemma_layout_projects(layout);
    assert forall|i: int, j: int| 0 <= i < j < layout.projects@.len() implies !same_project(
        #[trigger] layout.projects@[i].id,
        #[trigger] layout.projects@[j].id,
    ) by {
        assert(projects[i] == project_view(layout.projects@[i].id));
        assert(projects[j] == project_view(layout.projects@[j].id));
        lemma_same_project_is_same_view(layout.projects@[i].id, layout.projects@[j].id);
    }
    assert forall|k: int| 0 <= k < layout.tab_project@.len() implies exists|i: int|
        0 <= i < layout.projects@.len() && same_project(
            #[trigger] layout.tab_project@[k],
            #[trigger] layout.projects@[i].id,
        ) by {
        assert(tabs[k] == project_view(layout.tab_project@[k]));
        assert(projects.contains(tabs[k]));
        let i = choose|i: int| 0 <= i < projects.len() && projects[i] == tabs[k];
        assert(projects[i] == project_view(layout.projects@[i].id));
        lemma_same_project_is_same_view(layout.tab_project@[k], layout.projects@[i].id);
    }
}

} // verus!
