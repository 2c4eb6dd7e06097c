use vstd::prelude::*;
use crate::pagination::{page_in_range, page_of, paginate};
use crate::stamp::{clock_text, get_current_time, new_id};
use crate::text::{has_substring, owned, str_contains};

verus! {

/// A low-code project: its identity, its look and where its code is exported to.
#[derive(Debug)]
pub struct Project {
    pub id: String,
    pub group_id: String,
    pub name: String,
    pub remark: Option<String>,
    pub logo: String,
    pub theme_color: String,
    pub layout: String,
    pub menu_mode: String,
    pub menu_theme_color: String,
    pub breadcrumb: bool,
    pub tag: bool,
    pub footer: bool,
    pub system_theme_color: Option<String>,
    pub created_at: String,
    pub updated_at: String,
    pub code_export_path: String,
}

/// What a project list shows of a project.
#[derive(Debug)]
pub struct ProjectSummary {
    pub id: String,
    pub name: String,
    pub remark: Option<String>,
    pub theme_color: String,
    pub updated_at: String,
    pub logo: String,
    /// The number of pages of the project.
    pub count: usize,
}

impl Clone for ProjectSummary {
    fn clone(&self) -> (r: Self)
        ensures
            r == *self,
    {
        ProjectSummary {
            id: self.id.clone(),
            name: self.name.clone(),
            remark: self.remark.clone(),
            theme_color: self.theme_color.clone(),
            updated_at: self.updated_at.clone(),
            logo: self.logo.clone(),
            count: self.count,
        }
    }
}

/// One page of the project list, with the number of projects in the whole list.
#[derive(Debug)]
pub struct ProjectList {
    pub total: usize,
    pub list: Vec<ProjectSummary>,
}

/// What the user gives to create a project.
#[derive(Debug)]
pub struct ProjectAddParams {
    pub name: String,
    pub theme_color: String,
    pub remark: Option<String>,
    pub logo: String,
    pub group_id: String,
}

/// What the user gives to edit a project; a missing logo keeps the old one.
#[derive(Debug)]
pub struct ProjectUpdateParams {
    pub id: String,
    pub name: String,
    pub remark: Option<String>,
    pub layout: String,
    pub theme_color: String,
    pub menu_mode: String,
    pub menu_theme_color: String,
    pub system_theme_color: Option<String>,
    pub code_export_path: String,
    pub breadcrumb: bool,
    pub tag: bool,
    pub footer: bool,
    pub logo: Option<String>,
}

/// The page layouts of a generated project.
#[derive(Debug, Clone, Copy)]
pub enum ProjectLayout {
    LeftRight,
}

impl ProjectLayout {
    /// The stored value of the layout.
    pub fn to_value(&self) -> (s: String)
        ensures
            s@ == "leftRight"@,
    {
        match self {
            ProjectLayout::LeftRight => owned("leftRight"),
        }
    }
}

/// The menu modes of a generated project.
#[derive(Debug, Clone, Copy)]
pub enum MenuMode {
    Vertical,
}

impl MenuMode {
    /// The stored value of the menu mode.
    pub fn to_str(&self) -> (s: &'static str)
        ensures
            s@ == "vertical"@,
    {
        match self {
            MenuMode::Vertical => "vertical",
        }
    }
}

/// The menu colour themes of a generated project.
#[derive(Debug, Clone, Copy)]
pub enum MenuThemeColor {
    Light,
}

impl MenuThemeColor {
    /// The stored value of the menu theme.
    pub fn to_str(&self) -> (s: &'static str)
        ensures
            s@ == "light"@,
    {
        match self {
            MenuThemeColor::Light => "light",
        }
    }
}

/// `p` is the project `old` after the edit `params` at time `now`.
pub open spec fn updated_project(old: Project, params: ProjectUpdateParams, now: String, p: Project) -> bool {
    &&& p.id == old.id
    &&& p.group_id == old.group_id
    &&& p.name == params.name
    &&& p.remark == params.remark
    &&& p.layout == params.layout
    &&& p.theme_color == params.theme_color
    &&& p.menu_mode == params.menu_mode
    &&& p.menu_theme_color == params.menu_theme_color
    &&& p.system_theme_color == params.system_theme_color
    &&& p.code_export_path == params.code_export_path
    &&& p.breadcrumb == params.breadcrumb
    &&& p.tag == params.tag
    &&& p.footer == params.footer
    &&& p.logo == (match params.logo {
        Some(l) => l,
        None => old.logo,
    })
    &&& p.created_at == old.created_at
    &&& p.updated_at == now
}

/// `p` is a new project with the given fields and the default look: layout `leftRight`,
/// vertical light menu, no breadcrumb, tag bar or footer, no system theme colour.
pub open spec fn fresh_project(
    p: Project,
    id: String,
    name: String,
    theme_color: String,
    remark: Option<String>,
    logo: String,
    group_id: String,
    code_export_path: String,
) -> bool {
    &&& p.id == id
    &&& p.group_id == group_id
    &&& p.name == name
    &&& p.remark == remark
    &&& p.logo == logo
    &&& p.theme_color == theme_color
    &&& p.layout@ == "leftRight"@
    &&& p.menu_mode@ == "vertical"@
    &&& p.menu_theme_color@ == "light"@
    &&& !p.breadcrumb
    &&& !p.tag
    &&& !p.footer
    &&& p.system_theme_color is None
    &&& p.code_export_path == code_export_path
}

/// Whether a name passes the optional keyword filter: it holds the keyword, or there is none.
pub open spec fn keyword_matches(name: Seq<char>, keyword: Option<String>) -> bool {
    match keyword {
        Some(k) => has_substring(name, k@),
        None => true,
    }
}

/// The projects whose name passes the keyword filter, in their order.
pub open spec fn filter_by_keyword(projects: Seq<ProjectSummary>, keyword: Option<String>) -> Seq<
    ProjectSummary,
>
    decreases projects.len(),
{
    if projects.len() == 0 {
        Seq::empty()
    } else {
        let rest = filter_by_keyword(projects.drop_last(), keyword);
        if keyword_matches(projects.last().name@, keyword) {
            rest.push(projects.last())
        } else {
            rest
        }
    }
}

/// Filtering projects by a keyword keeps exactly the projects whose name holds the keyword
/// somewhere (not only at its start), each taken from the input; with no keyword every
/// project is kept.
pub proof fn lemma_filter_by_keyword(projects: Seq<ProjectSummary>, keyword: String)
    ensures
        ({
            let r = filter_by_keyword(projects, Some(keyword));
            let k = keyword@;
            &&& forall|i: int|
                #![trigger r[i]]
                0 <= i < r.len() ==> exists|pos: int|
                    0 <= pos && pos + k.len() <= r[i].name@.len() && #[trigger] r[i].name@.subrange(
                        pos,
                        pos + k.len(),
                    ) == k
            &&& forall|j: int, pos: int|
                0 <= j < projects.len() && 0 <= pos && pos + k.len() <= projects[j].name@.len()
                    && #[trigger] projects[j].name@.subrange(pos, pos + k.len()) == k ==> exists|
                    i: int,
                | 0 <= i < r.len() && #[trigger] r[i] == projects[j]
            &&& forall|i: int|
                #![trigger r[i]]
                0 <= i < r.len() ==> exists|j: int| 0 <= j < projects.len() && #[trigger] projects[j] == r[i]
        }),
        filter_by_keyword(projects, None) == projects,
    decreases projects.len(),
{
    let k = keyword@;
    let r = filter_by_keyword(projects, Some(keyword));
    if projects.len() == 0 {
        assert(projects =~= Seq::<ProjectSummary>::empty());
    } else {
        let init = projects.drop_last();
        let last = projects.last();
        lemma_filter_by_keyword(init, keyword);
        let rest = filter_by_keyword(init, Some(keyword));
        assert(init.push(last) =~= projects);
        assert(forall|j: int| 0 <= j < init.len() ==> #[trigger] init[j] == projects[j]);
        let hit = has_substring(last.name@, k);
        if hit {
            assert(r == rest.push(last));
            assert forall|i: int| #![trigger r[i]] 0 <= i < r.len() implies exists|pos: int|
                0 <= pos && pos + k.len() <= r[i].name@.len() && #[trigger] r[i].name@.subrange(
                    pos,
                    pos + k.len(),
                ) == k by {
                if i < rest.len() {
                    assert(r[i] == rest[i]);
                } else {
                    assert(r[i] == last);
                }
            }
            assert forall|i: int| #![trigger r[i]] 0 <= i < r.len() implies exists|j: int|
                0 <= j < projects.len() && #[trigger] projects[j] == r[i] by {
                if i < rest.len() {
                    assert(r[i] == rest[i]);
                    let j = choose|j: int| 0 <= j < init.len() && #[trigger] init[j] == rest[i];
                    assert(projects[j] == r[i]);
                } else {
                    assert(projects[projects.len() - 1] == r[i]);
                }
            }
            assert forall|j: int, pos: int|
                0 <= j < projects.len() && 0 <= pos && pos + k.len() <= projects[j].name@.len()
                    && #[trigger] projects[j].name@.subrange(pos, pos + k.len()) == k implies exists|
                    i: int,
                | 0 <= i < r.len() && #[trigger] r[i] == projects[j] by {
                if j < init.len() {
                    assert(init[j].name@.subrange(pos, pos + k.len()) == k);
                    let i = choose|i: int| 0 <= i < rest.len() && #[trigger] rest[i] == init[j];
                    assert(r[i] == rest[i]);
                } else {
                    assert(r[rest.len() as int] == projects[j]);
                }
            }
        } else {
            assert(r == rest);
            assert forall|i: int| #![trigger r[i]] 0 <= i < r.len() implies exists|j: int|
                0 <= j < projects.len() && #[trigger] projects[j] == r[i] by {
                let j = choose|j: int| 0 <= j < init.len() && #[trigger] init[j] == rest[i];
                assert(projects[j] == r[i]);
            }
            assert forall|j: int, pos: int|
                0 <= j < projects.len() && 0 <= pos && pos + k.len() <= projects[j].name@.len()
                    && #[trigger] projects[j].name@.subrange(pos, pos + k.len()) == k implies exists|
                    i: int,
                | 0 <= i < r.len() && #[trigger] r[i] == projects[j] by {
                if j < init.len() {
                    assert(init[j].name@.subrange(pos, pos + k.len()) == k);
                } else {
                    assert(projects[j] == last);
                    assert(has_substring(last.name@, k));
                }
            }
        }
        assert(filter_by_keyword(projects, None) == filter_by_keyword(init, None).push(last));
    }
}

/// Whether `name` passes the keyword filter.
pub fn name_matches(name: &String, keyword: &Option<String>) -> (b: bool)
    ensures
        b == keyword_matches(name@, *keyword),
{
    match keyword {
        Some(k) => str_contains(name.as_str(), k.as_str()),
        None => true,
    }
}

impl Project {
    /// A new project with the given fields and the default look, created at `created_at`
    /// and updated at `updated_at`; its code goes to `code_export_path`.
    pub fn new_at(
        id: String,
        name: String,
        theme_color: String,
        remark: Option<String>,
        logo: String,
        group_id: String,
        code_export_path: String,
        created_at: String,
        updated_at: String,
    ) -> (p: Project)
        ensures
            fresh_project(p, id, name, theme_color, remark, logo, group_id, code_export_path),
            p.created_at == created_at,
            p.updated_at == updated_at,
    {
        Project {
            id,
            group_id,
            name,
            remark,
            logo,
            theme_color,
            layout: ProjectLayout::LeftRight.to_value(),
            menu_mode: owned(MenuMode::Vertical.to_str()),
            menu_theme_color: owned(MenuThemeColor::Light.to_str()),
            breadcrumb: false,
            tag: false,
            footer: false,
            system_theme_color: None,
            created_at,
            updated_at,
            code_export_path,
        }
    }

    /// A new project with the given fields and the default look, created and updated now;
    /// its code goes to `code_export_path`, the default build directory.
    pub fn new(
        id: String,
        name: String,
        theme_color: String,
        remark: Option<String>,
        logo: String,
        group_id: String,
        code_export_path: String,
    ) -> (p: Project)
        ensures
            fresh_project(p, id, name, theme_color, remark, logo, group_id, code_export_path),
            clock_text(p.created_at@),
            clock_text(p.updated_at@),
    {
        let created_at = get_current_time();
        let updated_at = get_current_time();
        Self::new_at(id, name, theme_color, remark, logo, group_id, code_export_path, created_at, updated_at)
    }

    /// The project that `params` asks to create, with a fresh id, created and updated now;
    /// its code goes to `code_export_path`.
    pub fn from_params(params: ProjectAddParams, code_export_path: String) -> (p: Project)
        ensures
            p.id@.len() == 36,
            fresh_project(
                p,
                p.id,
                params.name,
                params.theme_color,
                params.remark,
                params.logo,
                params.group_id,
                code_export_path,
            ),
            clock_text(p.created_at@),
            clock_text(p.updated_at@),
    {
        let id = new_id();
        Self::new(
            id,
            params.name,
            params.theme_color,
            params.remark,
            params.logo,
            params.group_id,
            code_export_path,
        )
    }

    /// Applies the edit `params` at time `now`.
    pub fn update_at(&mut self, params: ProjectUpdateParams, now: String)
        ensures
            updated_project(*old(self), params, now, *final(self)),
    {
        let ProjectUpdateParams {
            id: _,
            name,
            remark,
            layout,
            theme_color,
            menu_mode,
            menu_theme_color,
            system_theme_color,
            code_export_path,
            breadcrumb,
            tag,
            footer,
            logo,
        } = params;
        self.name = name;
        self.remark = remark;
        self.layout = layout;
        self.theme_color = theme_color;
        self.menu_mode = menu_mode;
        self.menu_theme_color = menu_theme_color;
        self.system_theme_color = system_theme_color;
        self.code_export_path = code_export_path;
        self.breadcrumb = breadcrumb;
        self.tag = tag;
        self.footer = footer;
        match logo {
            Some(l) => {
                self.logo = l;
            },
            None => {},
        }
        self.updated_at = now;
    }

    /// Applies the edit `params`, with the current time as the update time.
    pub fn update(&mut self, params: ProjectUpdateParams)
        ensures
            exists|now: String|
                clock_text(now@) && #[trigger] updated_project(*old(self), params, now, *final(self)),
    {
        let now = get_current_time();
        self.update_at(params, now);
    }

    /// The summary of the project, which has `count` pages.
    pub fn to_summary(&self, count: usize) -> (s: ProjectSummary)
        ensures
            s.id == self.id,
            s.name == self.name,
            s.remark == self.remark,
            s.theme_color == self.theme_color,
            s.updated_at == self.updated_at,
            s.logo == self.logo,
            s.count == count,
    {
        ProjectSummary {
            id: self.id.clone(),
            name: self.name.clone(),
            remark: self.remark.clone(),
            theme_color: self.theme_color.clone(),
            updated_at: self.updated_at.clone(),
            logo: self.logo.clone(),
            count,
        }
    }

    /// The projects of `projects` whose name holds `keyword` (all of them when there is no
    /// keyword), in their order.
    pub fn get_project_list_by_option(projects: Vec<ProjectSummary>, keyword: Option<String>) -> (r:
        Vec<ProjectSummary>)
        ensures
            r@ == filter_by_keyword(projects@, keyword),
    {
        let mut r: Vec<ProjectSummary> = Vec::new();
        let mut i: usize = 0;
        while i < projects.len()
            invariant
                i <= projects@.len(),
                r@ == filter_by_keyword(projects@.take(i as int), keyword),
            decreases projects@.len() - i,
        {
            proof {
                assert(projects@.take(i + 1).drop_last() =~= projects@.take(i as int));
            }
            if name_matches(&projects[i].name, &keyword) {
                r.push(projects[i].clone());
            }
            i += 1;
        }
        assert(projects@.take(projects@.len() as int) =~= projects@);
        r
    }
}

/// Page `page_num` (of `page_size` entries) of the projects whose name holds `keyword`,
/// with the number of such projects. `projects` are the summaries of all projects.
pub fn paginated_query_project_list(
    projects: Vec<ProjectSummary>,
    page_num: usize,
    page_size: usize,
    keyword: Option<String>,
) -> (r: ProjectList)
    requires
        page_in_range(filter_by_keyword(projects@, keyword).len() as int, page_num as int, page_size as int),
        (page_num - 1) * page_size + page_size <= usize::MAX,
    ensures
        r.list@ == page_of(filter_by_keyword(projects@, keyword), page_num as int, page_size as int),
        r.total == filter_by_keyword(projects@, keyword).len(),
{
    let matching = Project::get_project_list_by_option(projects, keyword);
    let (list, total) = paginate(matching, page_num, page_size);
    ProjectList { total, list }
}

} // verus!
