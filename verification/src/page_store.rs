use vstd::prelude::*;
use crate::page::Page;
use crate::pagination::{page_in_range, page_of, paginate};
use crate::project::keyword_matches;
use crate::stamp::{clock_text, get_current_time, new_id};
use crate::text::{concat2, concat3, has_substring, owned, str_contains, str_eq};

verus! {

broadcast use vstd::string::group_string_axioms;

/// The page list shown to the user: one page of results and the number of all results.
#[derive(Debug)]
pub struct PageList {
    pub list: Vec<Page>,
    pub total: usize,
}

/// What the user gives to add a page.
#[derive(Debug)]
pub struct PageAddParams {
    pub name: String,
    pub path: Option<String>,
    pub remark: Option<String>,
    pub page_data: Option<String>,
    pub project_id: String,
}

/// What the user gives to edit a page; `None` leaves a field as it was.
#[derive(Debug)]
pub struct PageUpdateParams {
    pub id: String,
    pub name: Option<String>,
    pub path: Option<String>,
    pub remark: Option<String>,
    pub page_data: Option<String>,
    pub project_id: String,
}

/// What the user gives to copy a page.
#[derive(Debug)]
pub struct PageCopyParams {
    pub id: String,
    pub name: String,
    pub path: Option<String>,
    pub remark: Option<String>,
    pub project_id: String,
}

/// The error answered to a request that finds nothing.
#[derive(Debug)]
pub struct ErrorResponse {
    pub code: i32,
    pub message: String,
}

impl ErrorResponse {
    /// A "not found" error (code 404) with the given message.
    pub fn not_found(message: String) -> (r: Self)
        ensures
            r.code == 404,
            r.message == message,
    {
        ErrorResponse { code: 404, message }
    }
}

/// Access to the pages of a project.
pub struct PageConfig {}

/// The text of an optional string, empty where there is none.
pub open spec fn text_or_default(o: Option<String>) -> Seq<char> {
    match o {
        Some(s) => s@,
        None => Seq::empty(),
    }
}

/// How `p` clashes with a page named `name` at route `path`: 1 for the same name, 2 for the
/// same route, 0 for no clash. The page with id `exclude` clashes with nothing.
pub open spec fn clash(p: Page, name: Seq<char>, path: Option<String>, exclude: Option<Seq<char>>) -> int {
    if exclude == Some(p.id@) {
        0
    } else if p.name@ == name {
        1
    } else if path is Some && p.path is Some && p.path.unwrap()@ == path.unwrap()@ {
        2
    } else {
        0
    }
}

/// The clash of the first page of `pages` that clashes, or 0 where none does.
pub open spec fn first_clash(
    pages: Seq<Page>,
    name: Seq<char>,
    path: Option<String>,
    exclude: Option<Seq<char>>,
) -> int
    decreases pages.len(),
{
    if pages.len() == 0 {
        0
    } else if clash(pages[0], name, path, exclude) != 0 {
        clash(pages[0], name, path, exclude)
    } else {
        first_clash(pages.drop_first(), name, path, exclude)
    }
}

/// The message of a clash on the name.
pub open spec fn name_taken_message(name: Seq<char>) -> Seq<char> {
    "页面名称 '"@ + name + "' 已存在"@
}

/// The message of a clash on the route.
pub open spec fn path_taken_message(path: Seq<char>) -> Seq<char> {
    "页面路径 '"@ + path + "' 已存在"@
}

/// What the duplicate check answers for a page named `name` at route `path`.
pub open spec fn duplicate_check(
    pages: Seq<Page>,
    name: Seq<char>,
    path: Option<String>,
    exclude: Option<Seq<char>>,
) -> Result<(), Seq<char>> {
    let c = first_clash(pages, name, path, exclude);
    if c == 1 {
        Err(name_taken_message(name))
    } else if c == 2 {
        Err(path_taken_message(path.unwrap()@))
    } else {
        Ok(())
    }
}

/// The pages whose name passes the keyword filter, in their order.
pub open spec fn pages_matching(pages: Seq<Page>, keyword: Option<String>) -> Seq<Page>
    decreases pages.len(),
{
    if pages.len() == 0 {
        Seq::empty()
    } else {
        let rest = pages_matching(pages.drop_last(), keyword);
        if keyword_matches(pages.last().name@, keyword) {
            rest.push(pages.last())
        } else {
            rest
        }
    }
}

/// Every page kept by the keyword filter comes from the input and holds the keyword in its name.
proof fn lemma_pages_matching_kept(pages: Seq<Page>, keyword: String)
    ensures
        ({
            let r = pages_matching(pages, Some(keyword));
            forall|i: int|
                #![trigger r[i]]
                0 <= i < r.len() ==> has_substring(r[i].name@, keyword@) && exists|j: int|
                    0 <= j < pages.len() && #[trigger] pages[j] == r[i]
        }),
    decreases pages.len(),
{
    if pages.len() > 0 {
        let init = pages.drop_last();
        lemma_pages_matching_kept(init, keyword);
        let rest = pages_matching(init, Some(keyword));
        let r = pages_matching(pages, Some(keyword));
        assert forall|i: int| #![trigger r[i]] 0 <= i < r.len() implies has_substring(
            r[i].name@,
            keyword@,
        ) && exists|j: int| 0 <= j < pages.len() && #[trigger] pages[j] == r[i] by {
            if i < rest.len() {
                assert(r[i] == rest[i]);
                let j = choose|j: int| 0 <= j < init.len() && #[trigger] init[j] == rest[i];
                assert(pages[j] == init[j]);
            } else {
                assert(r[i] == pages[pages.len() - 1]);
            }
        }
    }
}

/// Every page whose name holds the keyword is kept by the keyword filter.
proof fn lemma_pages_matching_complete(pages: Seq<Page>, keyword: String, j: int)
    requires
        0 <= j < pages.len(),
        has_substring(pages[j].name@, keyword@),
    ensures
        exists|i: int|
            0 <= i < pages_matching(pages, Some(keyword)).len() && #[trigger] pages_matching(
                pages,
                Some(keyword),
            )[i] == pages[j],
    decreases pages.len(),
{
    let init = pages.drop_last();
    let rest = pages_matching(init, Some(keyword));
    let r = pages_matching(pages, Some(keyword));
    if j < pages.len() - 1 {
        assert(init[j] == pages[j]);
        lemma_pages_matching_complete(init, keyword, j);
        let i = choose|i: int| 0 <= i < rest.len() && #[trigger] rest[i] == init[j];
        assert(r[i] == rest[i]);
    } else {
        assert(r[rest.len() as int] == pages[j]);
    }
}

/// With no keyword the filter keeps every page.
proof fn lemma_pages_matching_all(pages: Seq<Page>)
    ensures
        pages_matching(pages, None) == pages,
    decreases pages.len(),
{
    if pages.len() > 0 {
        lemma_pages_matching_all(pages.drop_last());
        assert(pages.drop_last().push(pages.last()) =~= pages);
    } else {
        assert(pages =~= Seq::<Page>::empty());
    }
}

/// Filtering pages by a keyword keeps exactly the pages whose name holds the keyword somewhere
/// (not only at its start), each taken from the input; with no keyword every page is kept.
pub proof fn lemma_pages_matching(pages: Seq<Page>, keyword: String)
    ensures
        ({
            let r = pages_matching(pages, Some(keyword));
            let k = keyword@;
            &&& forall|i: int|
                #![trigger r[i]]
                0 <= i < r.len() ==> exists|pos: int|
                    0 <= pos && pos + k.len() <= r[i].name@.len() && #[trigger] r[i].name@.subrange(
                        pos,
                        pos + k.len(),
                    ) == k
            &&& forall|j: int, pos: int|
                0 <= j < pages.len() && 0 <= pos && pos + k.len() <= pages[j].name@.len()
                    && #[trigger] pages[j].name@.subrange(pos, pos + k.len()) == k ==> exists|
                    i: int,
                | 0 <= i < r.len() && #[trigger] r[i] == pages[j]
            &&& forall|i: int|
                #![trigger r[i]]
                0 <= i < r.len() ==> exists|j: int| 0 <= j < pages.len() && #[trigger] pages[j] == r[i]
        }),
        pages_matching(pages, None) == pages,
{
    let k = keyword@;
    let r = pages_matching(pages, Some(keyword));
    lemma_pages_matching_kept(pages, keyword);
    lemma_pages_matching_all(pages);
    assert forall|j: int, pos: int|
        0 <= j < pages.len() && 0 <= pos && pos + k.len() <= pages[j].name@.len()
            && #[trigger] pages[j].name@.subrange(pos, pos + k.len()) == k implies exists|i: int|
        0 <= i < r.len() && #[trigger] r[i] == pages[j] by {
        lemma_pages_matching_complete(pages, keyword, j);
    }
}

/// The route a preview request for `path` looks for: `*` stands for the root route `/`.
pub open spec fn effective_path(path: Seq<char>) -> Seq<char> {
    if path == "*"@ {
        "/"@
    } else {
        "/"@ + path
    }
}

/// The first page of `pages` whose route is `route`.
pub open spec fn page_with_route(pages: Seq<Page>, route: Seq<char>) -> Option<Page>
    decreases pages.len(),
{
    if pages.len() == 0 {
        None
    } else if pages[0].path is Some && pages[0].path.unwrap()@ == route {
        Some(pages[0])
    } else {
        page_with_route(pages.drop_first(), route)
    }
}

/// The page a freshly built page equals: the given fields, the design `page_data` or an
/// empty one, and the given times.
pub open spec fn built_page(
    p: Page,
    id: String,
    name: String,
    path: Option<String>,
    remark: Option<String>,
    page_data: Option<String>,
    project_id: String,
) -> bool {
    &&& p.id == id
    &&& p.name == name
    &&& p.path == path
    &&& p.remark == remark
    &&& p.page_data@ == text_or_default(page_data)
    &&& p.project_id == project_id
}

/// No page of `pages` but those with id `exclude` has the name `name` or, where `path` is
/// given, the route `path`.
pub open spec fn no_clash(
    pages: Seq<Page>,
    name: Seq<char>,
    path: Option<String>,
    exclude: Option<Seq<char>>,
) -> bool {
    forall|i: int|
        0 <= i < pages.len() && exclude != Some((#[trigger] pages[i]).id@) ==> pages[i].name@ != name
            && !(path is Some && pages[i].path is Some && pages[i].path.unwrap()@ == path.unwrap()@)
}

/// The duplicate check passes exactly when no page but the excluded one has the name `name`
/// or, where `path` is given, the route `path`.
pub proof fn lemma_duplicate_check(
    pages: Seq<Page>,
    name: Seq<char>,
    path: Option<String>,
    exclude: Option<Seq<char>>,
)
    ensures
        (duplicate_check(pages, name, path, exclude) == Ok::<(), Seq<char>>(())) == no_clash(
            pages,
            name,
            path,
            exclude,
        ),
    decreases pages.len(),
{
    if pages.len() > 0 {
        lemma_duplicate_check(pages.drop_first(), name, path, exclude);
        assert forall|i: int| 0 < i < pages.len() implies #[trigger] pages[i] == pages.drop_first()[i
            - 1] by {}
        if first_clash(pages, name, path, exclude) == 0 {
            assert(clash(pages[0], name, path, exclude) == 0);
        }
    }
}

impl PageConfig {
    /// A page with the given fields, the design `page_data` (empty where there is none),
    /// created at `created_at` and updated at `updated_at`.
    pub fn new_at(
        id: String,
        name: String,
        path: Option<String>,
        remark: Option<String>,
        page_data: Option<String>,
        project_id: String,
        created_at: String,
        updated_at: String,
    ) -> (p: Page)
        ensures
            built_page(p, id, name, path, remark, page_data, project_id),
            p.created_at == created_at,
            p.updated_at == updated_at,
    {
        let data = match page_data {
            Some(d) => d,
            None => String::new(),
        };
        Page { id, name, path, remark, page_data: data, created_at, updated_at, project_id }
    }

    /// A page with the given fields and the design `page_data` (empty where there is none),
    /// created and updated now.
    pub fn new(
        id: String,
        name: String,
        path: Option<String>,
        remark: Option<String>,
        page_data: Option<String>,
        project_id: String,
    ) -> (p: Page)
        ensures
            built_page(p, id, name, path, remark, page_data, project_id),
            clock_text(p.created_at@),
            clock_text(p.updated_at@),
    {
        let created_at = get_current_time();
        let updated_at = get_current_time();
        Self::new_at(id, name, path, remark, page_data, project_id, created_at, updated_at)
    }

    /// Checks that no page of `pages` but the one with id `exclude_id` has the name `name` or,
    /// where `path` is given, the route `path`. The first clashing page decides the error.
    pub fn check_duplicate(
        pages: &Vec<Page>,
        name: &str,
        path: &Option<String>,
        exclude_id: Option<&str>,
    ) -> (r: Result<(), String>)
        ensures
            match r {
                Ok(()) => duplicate_check(pages@, name@, *path, opt_view(exclude_id)) == Ok::<
                    (),
                    Seq<char>,
                >(()),
                Err(m) => duplicate_check(pages@, name@, *path, opt_view(exclude_id)) == Err::<
                    (),
                    Seq<char>,
                >(m@),
            },
    {
        let ghost ex = opt_view(exclude_id);
        let mut i: usize = 0;
        assert(pages@.skip(0) =~= pages@);
        while i < pages.len()
            invariant
                i <= pages@.len(),
                ex == opt_view(exclude_id),
                first_clash(pages@, name@, *path, ex) == first_clash(
                    pages@.skip(i as int),
                    name@,
                    *path,
                    ex,
                ),
            decreases pages@.len() - i,
        {
            let page = &pages[i];
            assert(pages@.skip(i as int)[0] == pages@[i as int]);
            assert(pages@.skip(i as int).drop_first() =~= pages@.skip(i + 1));
            let skip = match exclude_id {
                Some(e) => str_eq(page.id.as_str(), e),
                None => false,
            };
            if !skip {
                if str_eq(page.name.as_str(), name) {
                    return Err(concat3("页面名称 '", name, "' 已存在"));
                }
                match path {
                    Some(p) => {
                        match &page.path {
                            Some(pp) => {
                                if str_eq(pp.as_str(), p.as_str()) {
                                    return Err(concat3("页面路径 '", p.as_str(), "' 已存在"));
                                }
                            },
                            None => {},
                        }
                    },
                    None => {},
                }
            }
            i += 1;
        }
        Ok(())
    }

    /// The pages of `pages` whose name holds `keyword`, in their order.
    pub fn filter_pages(pages: &Vec<Page>, keyword: &Option<String>) -> (r: Vec<Page>)
        ensures
            r@ == pages_matching(pages@, *keyword),
    {
        let mut r: Vec<Page> = Vec::new();
        let mut i: usize = 0;
        while i < pages.len()
            invariant
                i <= pages@.len(),
                r@ == pages_matching(pages@.take(i as int), *keyword),
            decreases pages@.len() - i,
        {
            assert(pages@.take(i + 1).drop_last() =~= pages@.take(i as int));
            let keep = match keyword {
                Some(k) => str_contains(pages[i].name.as_str(), k.as_str()),
                None => true,
            };
            if keep {
                r.push(pages[i].clone());
            }
            i += 1;
        }
        assert(pages@.take(pages@.len() as int) =~= pages@);
        r
    }

    /// Page `page_num` (of `page_size` entries) of the pages whose name holds `keyword`,
    /// with the number of such pages. `pages` are all pages of the project.
    pub fn list(pages: Vec<Page>, page_num: usize, page_size: usize, keyword: Option<String>) -> (r:
        PageList)
        requires
            page_in_range(
                pages_matching(pages@, keyword).len() as int,
                page_num as int,
                page_size as int,
            ),
            (page_num - 1) * page_size + page_size <= usize::MAX,
        ensures
            r.list@ == page_of(pages_matching(pages@, keyword), page_num as int, page_size as int),
            r.total == pages_matching(pages@, keyword).len(),
    {
        let matching = Self::filter_pages(&pages, &keyword);
        let (list, total) = paginate(matching, page_num, page_size);
        PageList { total, list }
    }

    /// The first page of `pages` whose route is `path` with a leading `/` (`*` stands for the
    /// route `/`). `pages` are all pages of the project.
    pub fn get_page_detail_with_path(pages: Vec<Page>, path: String) -> (r: Result<Page, ErrorResponse>)
        ensures
            ({
                let route = effective_path(path@);
                match r {
                    Ok(p) => page_with_route(pages@, route) == Some(p),
                    Err(e) => page_with_route(pages@, route) is None && e.code == 404
                        && e.message@ == "未找到匹配的页面，路径: "@ + route,
                }
            }),
    {
        let route = if str_eq(path.as_str(), "*") {
            owned("/")
        } else {
            concat2("/", path.as_str())
        };
        assert(route@ == effective_path(path@));
        let mut i: usize = 0;
        assert(pages@.skip(0) =~= pages@);
        while i < pages.len()
            invariant
                i <= pages@.len(),
                route@ == effective_path(path@),
                page_with_route(pages@, route@) == page_with_route(pages@.skip(i as int), route@),
            decreases pages@.len() - i,
        {
            assert(pages@.skip(i as int)[0] == pages@[i as int]);
            assert(pages@.skip(i as int).drop_first() =~= pages@.skip(i + 1));
            match &pages[i].path {
                Some(p) => {
                    if str_eq(p.as_str(), route.as_str()) {
                        assert(page_with_route(pages@.skip(i as int), route@) == Some(pages@[i as int]));
                        return Ok(pages[i].clone());
                    }
                },
                None => {},
            }
            i += 1;
        }
        Err(ErrorResponse::not_found(concat2("未找到匹配的页面，路径: ", route.as_str())))
    }

    /// The page with id `id`, once the project's page directory is known to exist
    /// (`dir_exists`) and the page's file has been read (`loaded`).
    pub fn get_page_detail_with_id(dir_exists: bool, loaded: Option<Page>) -> (r: Result<Page, ErrorResponse>)
        requires
            dir_exists ==> loaded is Some,
        ensures
            dir_exists ==> r == Ok::<Page, ErrorResponse>(loaded.unwrap()),
            !dir_exists ==> r is Err && r->Err_0.code == 404 && r->Err_0.message@ == "页面目录不存在"@,
    {
        if !dir_exists {
            return Err(ErrorResponse::not_found(owned("页面目录不存在")));
        }
        match loaded {
            Some(p) => Ok(p),
            None => Err(ErrorResponse::not_found(owned("页面目录不存在"))),
        }
    }

    /// The page to add: checked against the pages of the project for a clash of name or
    /// route, then built with id `id` and the times `created_at` and `updated_at`.
    pub fn add_page_with(
        pages: &Vec<Page>,
        params: PageAddParams,
        id: String,
        created_at: String,
        updated_at: String,
    ) -> (r: Result<Page, String>)
        ensures
            match r {
                Ok(p) => duplicate_check(pages@, params.name@, params.path, None) == Ok::<
                    (),
                    Seq<char>,
                >(()) && built_page(
                    p,
                    id,
                    params.name,
                    params.path,
                    params.remark,
                    params.page_data,
                    params.project_id,
                ) && p.created_at == created_at && p.updated_at == updated_at,
                Err(m) => duplicate_check(pages@, params.name@, params.path, None) == Err::<
                    (),
                    Seq<char>,
                >(m@),
            },
    {
        match Self::check_duplicate(pages, params.name.as_str(), &params.path, None) {
            Err(m) => Err(m),
            Ok(()) => Ok(
                Self::new_at(
                    id,
                    params.name,
                    params.path,
                    params.remark,
                    params.page_data,
                    params.project_id,
                    created_at,
                    updated_at,
                ),
            ),
        }
    }

    /// The page to add, with a fresh id, created and updated now; or the clash error.
    pub fn add_page(pages: &Vec<Page>, params: PageAddParams) -> (r: Result<Page, String>)
        ensures
            match r {
                Ok(p) => duplicate_check(pages@, params.name@, params.path, None) == Ok::<
                    (),
                    Seq<char>,
                >(()) && p.name == params.name && p.path == params.path && p.remark
                    == params.remark && p.page_data@ == text_or_default(params.page_data)
                    && p.project_id == params.project_id && p.id@.len() == 36 && clock_text(
                    p.created_at@,
                ) && clock_text(p.updated_at@),
                Err(m) => duplicate_check(pages@, params.name@, params.path, None) == Err::<
                    (),
                    Seq<char>,
                >(m@),
            },
    {
        let id = new_id();
        let created_at = get_current_time();
        let updated_at = get_current_time();
        Self::add_page_with(pages, params, id, created_at, updated_at)
    }
}

/// What the duplicate check of an edit answers, against the other pages: an edit that renames
/// the page is checked with its new name and route; one that only gives a new route is checked
/// with the stored page's name `current` and that route; one that gives neither changes
/// nothing to check.
pub open spec fn update_check(pages: Seq<Page>, params: PageUpdateParams, current: Option<Page>) -> Result<
    (),
    Seq<char>,
> {
    match params.name {
        Some(n) => duplicate_check(pages, n@, params.path, Some(params.id@)),
        None => if params.path is Some && current is Some {
            duplicate_check(pages, current.unwrap().name@, params.path, Some(params.id@))
        } else {
            Ok(())
        },
    }
}

/// `p` is the page `old` after the edit `params` at time `now`.
pub open spec fn updated_page(old: Page, params: PageUpdateParams, now: String, p: Page) -> bool {
    &&& p.id == old.id
    &&& p.name == (match params.name {
        Some(n) => n,
        None => old.name,
    })
    &&& p.path == (match params.path {
        Some(x) => Some(x),
        None => old.path,
    })
    &&& p.remark == (match params.remark {
        Some(x) => Some(x),
        None => old.remark,
    })
    &&& p.page_data == (match params.page_data {
        Some(x) => x,
        None => old.page_data,
    })
    &&& p.created_at == old.created_at
    &&& p.updated_at == now
    &&& p.project_id == old.project_id
}

/// The message of an edit of a page whose file is missing.
pub open spec fn missing_page_message() -> Seq<char> {
    "页面文件不存在"@
}

impl PageConfig {
    /// The page after the edit `params` at time `now`: a new name or route is checked against
    /// the other pages of the project (a new route alone with the stored page's name), then
    /// `current` (the stored page, if its file exists) is edited.
    pub fn update_at(pages: &Vec<Page>, params: PageUpdateParams, current: Option<Page>, now: String) -> (r:
        Result<Page, String>)
        ensures
            match r {
                Ok(p) => update_check(pages@, params, current) == Ok::<(), Seq<char>>(()) && current is Some
                    && updated_page(current.unwrap(), params, now, p),
                Err(m) => update_check(pages@, params, current) == Err::<(), Seq<char>>(m@) || (
                update_check(pages@, params, current) == Ok::<(), Seq<char>>(()) && current is None
                    && m@ == missing_page_message()),
            },
    {
        match &params.name {
            Some(n) => {
                match Self::check_duplicate(pages, n.as_str(), &params.path, Some(params.id.as_str())) {
                    Err(m) => {
                        return Err(m);
                    },
                    Ok(()) => {},
                }
            },
            None => {},
        }
        let mut page = match current {
            Some(p) => p,
            None => {
                return Err(owned("页面文件不存在"));
            },
        };
        if params.name.is_none() && params.path.is_some() {
            match Self::check_duplicate(pages, page.name.as_str(), &params.path, Some(params.id.as_str())) {
                Err(m) => {
                    return Err(m);
                },
                Ok(()) => {},
            }
        }
        let PageUpdateParams { id: _, name, path, remark, page_data, project_id: _ } = params;
        match name {
            Some(n) => {
                page.name = n;
            },
            None => {},
        }
        match path {
            Some(x) => {
                page.path = Some(x);
            },
            None => {},
        }
        match remark {
            Some(x) => {
                page.remark = Some(x);
            },
            None => {},
        }
        match page_data {
            Some(x) => {
                page.page_data = x;
            },
            None => {},
        }
        page.updated_at = now;
        Ok(page)
    }

    /// The page after the edit `params`, updated now; or why the edit is refused.
    pub fn update(pages: &Vec<Page>, params: PageUpdateParams, current: Option<Page>) -> (r: Result<
        Page,
        String,
    >)
        ensures
            match r {
                Ok(p) => update_check(pages@, params, current) == Ok::<(), Seq<char>>(()) && current is Some
                    && exists|now: String|
                    clock_text(now@) && #[trigger] updated_page(current.unwrap(), params, now, p),
                Err(m) => update_check(pages@, params, current) == Err::<(), Seq<char>>(m@) || (
                update_check(pages@, params, current) == Ok::<(), Seq<char>>(()) && current is None
                    && m@ == missing_page_message()),
            },
    {
        let now = get_current_time();
        Self::update_at(pages, params, current, now)
    }

    /// The copy of `source` that `params` asks for: its own id `id`, name, route, remark and
    /// project, the design of `source`, and the times `created_at` and `updated_at`.
    pub fn copy_with(
        source: &Page,
        params: PageCopyParams,
        id: String,
        created_at: String,
        updated_at: String,
    ) -> (p: Page)
        ensures
            built_page(
                p,
                id,
                params.name,
                params.path,
                params.remark,
                Some(source.page_data),
                params.project_id,
            ),
            p.created_at == created_at,
            p.updated_at == updated_at,
    {
        Self::new_at(
            id,
            params.name,
            params.path,
            params.remark,
            Some(source.page_data.clone()),
            params.project_id,
            created_at,
            updated_at,
        )
    }

    /// The copy of `source` that `params` asks for, with a fresh id, created and updated now.
    pub fn copy(source: &Page, params: PageCopyParams) -> (p: Page)
        ensures
            p.name == params.name,
            p.path == params.path,
            p.remark == params.remark,
            p.page_data@ == source.page_data@,
            p.project_id == params.project_id,
            p.id@.len() == 36,
            clock_text(p.created_at@),
            clock_text(p.updated_at@),
    {
        let id = new_id();
        let created_at = get_current_time();
        let updated_at = get_current_time();
        Self::copy_with(source, params, id, created_at, updated_at)
    }
}

/// No two pages of `pages` share a name, nor a route where both have one.
pub open spec fn pages_unique(pages: Seq<Page>) -> bool {
    forall|i: int, j: int|
        0 <= i < pages.len() && 0 <= j < pages.len() && i != j ==> {
            &&& (#[trigger] pages[i]).name@ != (#[trigger] pages[j]).name@
            &&& !(pages[i].path is Some && pages[j].path is Some && pages[i].path.unwrap()@
                == pages[j].path.unwrap()@)
        }
}

/// No two pages of `pages` share an id.
pub open spec fn ids_unique(pages: Seq<Page>) -> bool {
    forall|i: int, j: int|
        0 <= i < pages.len() && 0 <= j < pages.len() && i != j ==> (#[trigger] pages[i]).id@
            != (#[trigger] pages[j]).id@
}

/// Adding a page that passed the duplicate check keeps the names and routes of a project's
/// pages unique.
pub proof fn lemma_add_keeps_pages_unique(pages: Seq<Page>, p: Page)
    requires
        pages_unique(pages),
        duplicate_check(pages, p.name@, p.path, None) == Ok::<(), Seq<char>>(()),
    ensures
        pages_unique(pages.push(p)),
{
    let ex: Option<Seq<char>> = None;
    lemma_duplicate_check(pages, p.name@, p.path, ex);
    assert(no_clash(pages, p.name@, p.path, ex));
    let all = pages.push(p);
    assert forall|i: int, j: int|
        0 <= i < all.len() && 0 <= j < all.len() && i != j implies {
            &&& (#[trigger] all[i]).name@ != (#[trigger] all[j]).name@
            &&& !(all[i].path is Some && all[j].path is Some && all[i].path.unwrap()@
                == all[j].path.unwrap()@)
        } by {
        if i < pages.len() && j < pages.len() {
            assert(all[i] == pages[i] && all[j] == pages[j]);
        } else if i < pages.len() {
            assert(all[i] == pages[i] && all[j] == p);
            assert(ex != Some(pages[i].id@));
            assert(pages[i].name@ != p.name@);
        } else {
            assert(all[j] == pages[j] && all[i] == p);
            assert(ex != Some(pages[j].id@));
            assert(pages[j].name@ != p.name@);
        }
    }
}

/// An edit that passed its duplicate check keeps the names and routes of a project's pages
/// unique, where page ids are unique.
pub proof fn lemma_update_keeps_pages_unique(
    pages: Seq<Page>,
    k: int,
    params: PageUpdateParams,
    now: String,
    p: Page,
)
    requires
        pages_unique(pages),
        ids_unique(pages),
        0 <= k < pages.len(),
        pages[k].id == params.id,
        update_check(pages, params, Some(pages[k])) == Ok::<(), Seq<char>>(()),
        updated_page(pages[k], params, now, p),
    ensures
        pages_unique(pages.update(k, p)),
{
    let all = pages.update(k, p);
    if params.name is Some {
        lemma_duplicate_check(pages, params.name.unwrap()@, params.path, Some(params.id@));
    } else if params.path is Some {
        lemma_duplicate_check(pages, pages[k].name@, params.path, Some(params.id@));
    }
    assert forall|i: int, j: int|
        0 <= i < all.len() && 0 <= j < all.len() && i != j implies {
            &&& (#[trigger] all[i]).name@ != (#[trigger] all[j]).name@
            &&& !(all[i].path is Some && all[j].path is Some && all[i].path.unwrap()@
                == all[j].path.unwrap()@)
        } by {
        if i != k && j != k {
            assert(all[i] == pages[i] && all[j] == pages[j]);
        } else if i == k {
            assert(all[j] == pages[j]);
            assert(pages[j].id@ != pages[k].id@);
            assert(pages[i].name@ != pages[j].name@);
        } else {
            assert(all[i] == pages[i]);
            assert(pages[i].id@ != pages[k].id@);
            assert(pages[i].name@ != pages[j].name@);
        }
    }
}

/// The view of an optional string slice.
pub open spec fn opt_view(o: Option<&str>) -> Option<Seq<char>> {
    match o {
        Some(s) => Some(s@),
        None => None,
    }
}

} // verus!
