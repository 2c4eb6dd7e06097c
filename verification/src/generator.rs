use vstd::prelude::*;
use crate::page::Page;
use crate::project::Project;
use crate::naming::{component_name, component_of};
use crate::text::{chars_of, concat2, concat3, owned};

verus! {

/// A request to export the code of a project.
#[derive(Debug)]
pub struct ExportCodeParams {
    pub project_id: String,
    /// The kind of code to generate; it names the generator plugin.
    pub export_type: String,
}

/// What the code generator is asked to build.
#[derive(Debug)]
pub struct GeneratorOptions {
    pub project_name: String,
    /// The directory the project is written to.
    pub output_dir: String,
    pub version: String,
    /// npm, yarn or pnpm.
    pub package_manager: String,
    pub page_list: Vec<Page>,
}

/// A file the generator wrote, with its content.
#[derive(Debug)]
pub struct GeneratedArtifact {
    pub file_path: String,
    pub content: String,
}

/// A route of the generated application.
#[derive(Debug)]
pub struct RouteInfo {
    pub path: Option<String>,
    pub name: String,
    pub component_path: String,
}

/// Why code generation failed.
#[derive(Debug)]
pub enum GeneratorError {
    Io(String),
    Template(String),
    Validation(String),
}

/// The message of a generator error.
pub open spec fn error_message(e: GeneratorError) -> Seq<char> {
    match e {
        GeneratorError::Io(s) => "IO error: "@ + s@,
        GeneratorError::Template(s) => "Template error: "@ + s@,
        GeneratorError::Validation(s) => "Validation error: "@ + s@,
    }
}

impl GeneratorError {
    /// The message of the error: its kind, then its detail.
    pub fn message(&self) -> (m: String)
        ensures
            m@ == error_message(*self),
    {
        match self {
            GeneratorError::Io(s) => concat2("IO error: ", s.as_str()),
            GeneratorError::Template(s) => concat2("Template error: ", s.as_str()),
            GeneratorError::Validation(s) => concat2("Validation error: ", s.as_str()),
        }
    }
}

/// The outcome of a generator call as it crosses the plugin boundary.
#[derive(Debug)]
pub struct FfiResult<T> {
    pub success: bool,
    pub data: Option<T>,
    pub error: Option<String>,
}

impl<T> FfiResult<T> {
    /// The boundary form of `result`: the data on success, the error's message on failure.
    pub fn from(result: Result<T, GeneratorError>) -> (r: Self)
        ensures
            match result {
                Ok(d) => r.success && r.data == Some(d) && r.error is None,
                Err(e) => !r.success && r.data is None && r.error is Some && r.error.unwrap()@
                    == error_message(e),
            },
    {
        match result {
            Ok(data) => FfiResult { success: true, data: Some(data), error: None },
            Err(e) => FfiResult { success: false, data: None, error: Some(e.message()) },
        }
    }
}

/// A code generator plugin.
pub trait CodeGenerator {
    /// Creates the project skeleton and generates its code.
    fn init_project(&self, options: &GeneratorOptions) -> Result<Vec<GeneratedArtifact>, GeneratorError>;

    /// Generates the code of the project's pages and its router.
    fn generate_code(&self) -> Result<Vec<GeneratedArtifact>, GeneratorError>;

    /// Generates the code of one page and records its route.
    fn generate_page(&self, config: &Page, route_list: &mut Vec<RouteInfo>) -> Result<
        GeneratedArtifact,
        GeneratorError,
    >;
}

/// How `Debug`, in its pretty form (`{:#?}`), writes an optional string.
pub uninterp spec fn pretty_debug(o: Option<Seq<char>>) -> Seq<char>;

/// The view of an optional string.
pub open spec fn opt_seq(o: Option<String>) -> Option<Seq<char>> {
    match o {
        Some(s) => Some(s@),
        None => None,
    }
}

/// `format!("{:#?}", o)`: std's pretty `Debug` of an `Option<String>`, which depends on the
/// value alone: `None` for none; the text of a string, escaped, is named, not stated.
#[verifier::external_body]
fn debug_pretty(o: &Option<String>) -> (s: String)
    ensures
        s@ == pretty_debug(opt_seq(*o)),
        o is None ==> s@ == "None"@,
{
    format!("{:#?}", o)
}

/// The route of `page`, whose component is `component`: the page's route, the component's
/// name and its file under `@/views/`.
pub fn route_for(page: &Page, component: &str) -> (r: RouteInfo)
    ensures
        r.path == page.path,
        r.name@ == component@,
        r.component_path@ == "@/views/"@ + component@ + ".vue"@,
{
    RouteInfo {
        path: page.path.clone(),
        name: owned(component),
        component_path: concat3("@/views/", component, ".vue"),
    }
}

/// The pages of `pages` that carry a design, in their order: only those get a view.
pub open spec fn designed_pages(pages: Seq<Page>) -> Seq<Page>
    decreases pages.len(),
{
    if pages.len() == 0 {
        Seq::empty()
    } else {
        let rest = designed_pages(pages.drop_last());
        if pages.last().page_data@.len() > 0 {
            rest.push(pages.last())
        } else {
            rest
        }
    }
}

/// What a prefix of the pages yields for design is a prefix of what all of them yield.
proof fn lemma_designed_prefix(pages: Seq<Page>, n: int)
    requires
        0 <= n <= pages.len(),
    ensures
        designed_pages(pages.take(n)).len() <= designed_pages(pages).len(),
        forall|k: int|
            0 <= k < designed_pages(pages.take(n)).len() ==> designed_pages(pages)[k]
                == #[trigger] designed_pages(pages.take(n))[k],
    decreases pages.len(),
{
    if n == pages.len() {
        assert(pages.take(n) =~= pages);
    } else {
        assert(pages.drop_last().take(n) =~= pages.take(n));
        lemma_designed_prefix(pages.drop_last(), n);
    }
}

/// `r` is the route of page `p` under the component name `component`.
pub open spec fn route_of(r: RouteInfo, p: Page, component: Seq<char>) -> bool {
    &&& r.path == p.path
    &&& r.name@ == component
    &&& r.component_path@ == "@/views/"@ + component + ".vue"@
}

/// The view file name of the page `config` (its component name, as `component_of` gives it,
/// with `.vue`), its route pushed onto `route_list`. None, with `route_list` unchanged, where
/// the page name gives no component name.
pub fn push_page_route(config: &Page, route_list: &mut Vec<RouteInfo>) -> (r: Option<String>)
    ensures
        match component_of(config.name@) {
            Some(c) => r is Some && r->Some_0@ == c + ".vue"@ && final(route_list)@.len() == old(
                route_list,
            )@.len() + 1 && final(route_list)@.drop_last() == old(route_list)@ && route_of(
                final(route_list)@.last(),
                *config,
                c,
            ),
            None => r is None && final(route_list)@ == old(route_list)@,
        },
{
    match component_name(config.name.as_str()) {
        Some(c) => {
            let route = route_for(config, c.as_str());
            route_list.push(route);
            assert(route_list@.drop_last() =~= old(route_list)@);
            Some(concat2(c.as_str(), ".vue"))
        },
        None => None,
    }
}

/// Whether `c` may stand between `{{` and the `>` of a partial call: whitespace, the `~` that
/// trims whitespace, or the `#` of a partial block.
pub open spec fn partial_call_filler(c: char) -> bool {
    c == ' ' || c == '\t' || c == '\n' || c == '\r' || c == '~' || c == '#'
}

/// Whether a partial call (`{{> name}}` or `{{#> name}}`, with whitespace or `~` between)
/// starts at position `i` of `t`, its `>` at position `j`.
pub open spec fn partial_call_at(t: Seq<char>, i: int, j: int) -> bool {
    &&& 0 <= i
    &&& i + 2 <= j < t.len()
    &&& t[i] == '{'
    &&& t[i + 1] == '{'
    &&& t[j] == '>'
    &&& forall|k: int| i + 2 <= k < j ==> partial_call_filler(#[trigger] t[k])
}

/// Whether the template `t` calls no partial. Partials that include one another make the
/// renderer recurse without end, so the generator renders templates without partial calls.
pub open spec fn calls_no_partial(t: Seq<char>) -> bool {
    forall|i: int, j: int| !#[trigger] partial_call_at(t, i, j)
}

/// Whether the template `template` calls no partial, as `calls_no_partial` says.
pub fn template_calls_no_partial(template: &str) -> (b: bool)
    ensures
        b == calls_no_partial(template@),
{
    let t = chars_of(template);
    let n = t.len();
    let mut i: usize = 0;
    while i < n
        invariant
            i <= n,
            t@ == template@,
            n == t@.len(),
            forall|a: int, b: int| a < i ==> !#[trigger] partial_call_at(t@, a, b),
        decreases n - i,
    {
        if i + 1 < n && t[i] == '{' && t[i + 1] == '{' {
            let mut j: usize = i + 2;
            while j < n && (t[j] == ' ' || t[j] == '\t' || t[j] == '\n' || t[j] == '\r' || t[j] == '~'
                || t[j] == '#')
                invariant
                    i + 2 <= j <= n,
                    n == t@.len(),
                    forall|k: int| i + 2 <= k < j ==> partial_call_filler(#[trigger] t@[k]),
                decreases n - j,
            {
                j += 1;
            }
            if j < n && t[j] == '>' {
                assert(partial_call_at(t@, i as int, j as int));
                return false;
            }
            assert forall|b: int| !#[trigger] partial_call_at(t@, i as int, b) by {
                if partial_call_at(t@, i as int, b) {
                    if b < j {
                        assert(partial_call_filler(t@[b]));
                    } else if b > j {
                        assert(partial_call_filler(t@[j as int]));
                    }
                }
            }
        }
        i += 1;
    }
    true
}

/// What handlebars renders from the template text `template` on the JSON data `data`: the
/// rendered text, or the text of the error (an unreadable `data` is an error too).
pub uninterp spec fn handlebars_render(template: Seq<char>, data: Seq<char>) -> Result<
    Seq<char>,
    Seq<char>,
>;

/// `Handlebars::new().render_template(template, &data)` from handlebars, on the `Value` that
/// serde_json reads from `data_json`; errors as their text. The result depends on the two
/// texts alone (serde_json's objects keep a fixed order), so it is named, not stated. No
/// partial call is admitted: partials that include one another make the renderer recurse
/// without end.
#[verifier::external_body]
fn render_template(template: &str, data_json: &str) -> (r: Result<String, String>)
    requires
        calls_no_partial(template@),
    ensures
        match r {
            Ok(s) => handlebars_render(template@, data_json@) == Ok::<Seq<char>, Seq<char>>(s@),
            Err(e) => handlebars_render(template@, data_json@) == Err::<Seq<char>, Seq<char>>(e@),
        },
{
    let data: serde_json::Value = serde_json::from_str(data_json).map_err(|e| e.to_string())?;
    handlebars::Handlebars::new().render_template(template, &data).map_err(|e| e.to_string())
}

/// The path `rel` under the directory `dir`, as `Path::join` writes it on Unix: `rel` itself
/// where it is absolute or `dir` is empty, else the two with one `/` between.
pub open spec fn join_path(dir: Seq<char>, rel: Seq<char>) -> Seq<char> {
    if rel.len() > 0 && rel[0] == '/' {
        rel
    } else if dir.len() == 0 {
        rel
    } else if dir.last() == '/' {
        dir + rel
    } else {
        dir + "/"@ + rel
    }
}

/// `rel` under `dir`, as `join_path` says.
pub fn join_path_exec(dir: &str, rel: &str) -> (r: String)
    ensures
        r@ == join_path(dir@, rel@),
{
    let rc = chars_of(rel);
    if rc.len() > 0 && rc[0] == '/' {
        return owned(rel);
    }
    let dc = chars_of(dir);
    if dc.len() == 0 {
        owned(rel)
    } else if dc[dc.len() - 1] == '/' {
        concat2(dir, rel)
    } else {
        concat3(dir, "/", rel)
    }
}

/// The data a view template is rendered on: the merged components `components` (JSON text)
/// under the key `components`.
pub open spec fn view_data(components: Seq<char>) -> Seq<char> {
    "{\"components\":"@ + components + "}"@
}

/// The message of a template that calls a partial.
pub open spec fn partial_message() -> Seq<char> {
    "Failed to render template: partial calls are not supported"@
}

/// The code of the page `config`, whose design read as the merged components `components`
/// (their JSON text, or why the design could not be read): its route is pushed onto
/// `route_list` first; then the view template `views` is rendered on the components, and the
/// result is the file `<output_dir>/src/views/<Component>.vue` with that text.
pub fn generate_page(
    config: &Page,
    route_list: &mut Vec<RouteInfo>,
    output_dir: &str,
    views: &str,
    components: Result<String, String>,
) -> (r: Result<GeneratedArtifact, String>)
    requires
        component_of(config.name@) is Some,
    ensures
        ({
            let c = component_of(config.name@)->Some_0;
            &&& final(route_list)@.len() == old(route_list)@.len() + 1
            &&& final(route_list)@.drop_last() == old(route_list)@
            &&& route_of(final(route_list)@.last(), *config, c)
            &&& match components {
                Err(e) => r is Err && r->Err_0@ == "Failed to parse template data: "@ + e@,
                Ok(j) => if !calls_no_partial(views@) {
                    r is Err && r->Err_0@ == partial_message()
                } else {
                    match handlebars_render(views@, view_data(j@)) {
                        Ok(text) => r is Ok && r->Ok_0.file_path@ == join_path(
                            join_path(output_dir@, "src/views"@),
                            c + ".vue"@,
                        ) && r->Ok_0.content@ == text,
                        Err(e) => r is Err && r->Err_0@ == "Failed to render template: "@ + e,
                    }
                },
            }
        }),
{
    let file_name = match push_page_route(config, route_list) {
        Some(f) => f,
        None => String::new(),
    };
    let json = match components {
        Ok(j) => j,
        Err(e) => {
            return Err(concat2("Failed to parse template data: ", e.as_str()));
        },
    };
    if !template_calls_no_partial(views) {
        return Err(owned("Failed to render template: partial calls are not supported"));
    }
    let data = concat3("{\"components\":", json.as_str(), "}");
    match render_template(views, data.as_str()) {
        Ok(content) => {
            let dir = join_path_exec(output_dir, "src/views");
            let file_path = join_path_exec(dir.as_str(), file_name.as_str());
            Ok(GeneratedArtifact { file_path, content })
        },
        Err(e) => Err(concat2("Failed to render template: ", e.as_str())),
    }
}

/// The data the router template is rendered on: the routes `routes` (JSON text) under the key
/// `routes`.
pub open spec fn router_data(routes: Seq<char>) -> Seq<char> {
    "{\"routes\":"@ + routes + "}"@
}

/// The router of the generated application: the router template `template` rendered on the
/// routes `routes` (their JSON text), as the file `<output_dir>/src/router/index.ts`.
pub fn gen_router(output_dir: &str, routes: &str, template: &str) -> (r: Result<GeneratedArtifact, String>)
    ensures
        if !calls_no_partial(template@) {
            r is Err && r->Err_0@ == partial_message()
        } else {
            match handlebars_render(template@, router_data(routes@)) {
                Ok(text) => r is Ok && r->Ok_0.file_path@ == join_path(output_dir@, "src/router/index.ts"@)
                    && r->Ok_0.content@ == text,
                Err(e) => r is Err && r->Err_0@ == e,
            }
        },
{
    if !template_calls_no_partial(template) {
        return Err(owned("Failed to render template: partial calls are not supported"));
    }
    let data = concat3("{\"routes\":", routes, "}");
    match render_template(template, data.as_str()) {
        Ok(content) => {
            let file_path = join_path_exec(output_dir, "src/router/index.ts");
            Ok(GeneratedArtifact { file_path, content })
        },
        Err(e) => Err(e),
    }
}

/// What serde_json writes for the string `s`: the string in double quotes, escaped as JSON.
pub uninterp spec fn json_quoted(s: Seq<char>) -> Seq<char>;

/// `serde_json::to_string` on a `&str`: the string as a JSON string literal, which depends on
/// the string alone and is named, not stated. Writing a string cannot fail.
#[verifier::external_body]
fn quote_json(s: &str) -> (r: String)
    ensures
        r@ == json_quoted(s@),
{
    serde_json::to_string(s).unwrap()
}

/// What serde_json's `to_string_pretty` writes for the JSON value in the text `text` (objects
/// with their keys in order, two spaces a level), or the text of the error where `text` holds
/// no JSON value.
pub uninterp spec fn json_pretty(text: Seq<char>) -> Result<Seq<char>, Seq<char>>;

/// `serde_json::to_string_pretty` on the `Value` that `serde_json::from_str` reads from `text`;
/// errors as their text. The result depends on the text alone and is named, not stated.
#[verifier::external_body]
fn pretty_json(text: &str) -> (r: Result<String, String>)
    ensures
        match r {
            Ok(s) => json_pretty(text@) == Ok::<Seq<char>, Seq<char>>(s@),
            Err(e) => json_pretty(text@) == Err::<Seq<char>, Seq<char>>(e@),
        },
{
    let value: serde_json::Value = serde_json::from_str(text).map_err(|e| e.to_string())?;
    serde_json::to_string_pretty(&value).map_err(|e| e.to_string())
}

/// The scripts and packages of a generated project, as JSON members.
pub open spec fn package_members() -> Seq<char> {
    ",\"scripts\":{\"dev\":\"vite\",\"build\":\"vite build\"},\"dependencies\":{\"ant-design-vue\":\"^4.2.6\",\"vue\":\"^3.5.13\",\"vue-router\":\"^4.5.0\"},\"devDependencies\":{\"@tsconfig/node22\":\"^22.0.0\",\"@types/node\":\"^22.13.4\",\"@vitejs/plugin-vue\":\"^5.2.1\",\"@vitejs/plugin-vue-jsx\":\"^4.1.1\",\"@vue/tsconfig\":\"^0.7.0\",\"typescript\":\"~5.7.3\",\"vite\":\"^6.1.0\",\"vite-plugin-vue-devtools\":\"^7.7.2\",\"vue-tsc\":\"^2.2.2\"}}"@
}

/// The `package.json` of a project named `name` (as a JSON string) at version `version` (as a
/// JSON string), before it is laid out.
pub open spec fn package_json_text(name: Seq<char>, version: Seq<char>) -> Seq<char> {
    "{\"name\":"@ + name + ",\"version\":"@ + version + package_members()
}

/// Adds to `artifacts` the `package.json` of the project that `options` describes, in
/// `output_dir`: its name and version, the `dev` and `build` scripts of vite, and the packages
/// of a Vue project with ant-design-vue, laid out by serde_json.
pub fn generate_package_json(
    options: &GeneratorOptions,
    output_dir: &str,
    artifacts: &mut Vec<GeneratedArtifact>,
) -> (r: Result<(), String>)
    ensures
        match json_pretty(
            package_json_text(json_quoted(options.project_name@), json_quoted(options.version@)),
        ) {
            Ok(text) => r is Ok && final(artifacts)@.len() == old(artifacts)@.len() + 1
                && final(artifacts)@.drop_last() == old(artifacts)@ && final(artifacts)@.last().file_path@
                == join_path(output_dir@, "package.json"@) && final(artifacts)@.last().content@ == text,
            Err(e) => r is Err && r->Err_0@ == e && final(artifacts)@ == old(artifacts)@,
        },
{
    let name = quote_json(options.project_name.as_str());
    let version = quote_json(options.version.as_str());
    let head = concat3("{\"name\":", name.as_str(), ",\"version\":");
    let text = concat3(
        head.as_str(),
        version.as_str(),
        ",\"scripts\":{\"dev\":\"vite\",\"build\":\"vite build\"},\"dependencies\":{\"ant-design-vue\":\"^4.2.6\",\"vue\":\"^3.5.13\",\"vue-router\":\"^4.5.0\"},\"devDependencies\":{\"@tsconfig/node22\":\"^22.0.0\",\"@types/node\":\"^22.13.4\",\"@vitejs/plugin-vue\":\"^5.2.1\",\"@vitejs/plugin-vue-jsx\":\"^4.1.1\",\"@vue/tsconfig\":\"^0.7.0\",\"typescript\":\"~5.7.3\",\"vite\":\"^6.1.0\",\"vite-plugin-vue-devtools\":\"^7.7.2\",\"vue-tsc\":\"^2.2.2\"}}",
    );
    match pretty_json(text.as_str()) {
        Ok(content) => {
            let file_path = join_path_exec(output_dir, "package.json");
            artifacts.push(GeneratedArtifact { file_path, content });
            assert(artifacts@.drop_last() =~= old(artifacts)@);
            Ok(())
        },
        Err(e) => Err(e),
    }
}

/// The routes of the generated application: one for each page with a design, in order, under
/// the component name its page name gives. None where a page with a design has a name that
/// gives no component name.
pub fn page_routes(pages: &Vec<Page>) -> (r: Option<Vec<RouteInfo>>)
    ensures
        ({
            let d = designed_pages(pages@);
            &&& r is Some <==> forall|k: int|
                0 <= k < d.len() ==> (#[trigger] component_of(d[k].name@)) is Some
            &&& r is Some ==> r->Some_0@.len() == d.len() && forall|k: int|
                0 <= k < d.len() ==> route_of(
                    #[trigger] r->Some_0@[k],
                    d[k],
                    component_of(d[k].name@)->Some_0,
                )
        }),
{
    let mut routes: Vec<RouteInfo> = Vec::new();
    let mut i: usize = 0;
    while i < pages.len()
        invariant
            i <= pages@.len(),
            ({
                let d = designed_pages(pages@.take(i as int));
                &&& routes@.len() == d.len()
                &&& forall|k: int| 0 <= k < d.len() ==> (#[trigger] component_of(d[k].name@)) is Some
                &&& forall|k: int|
                    0 <= k < d.len() ==> route_of(
                        #[trigger] routes@[k],
                        d[k],
                        component_of(d[k].name@)->Some_0,
                    )
            }),
        decreases pages@.len() - i,
    {
        let ghost before = pages@.take(i as int);
        assert(pages@.take(i + 1).drop_last() =~= before);
        assert(pages@.take(i + 1).last() == pages@[i as int]);
        let page = &pages[i];
        if !page.page_data.as_str().is_empty() {
            let ghost old_routes = routes@;
            match push_page_route(page, &mut routes) {
                Some(_) => {
                    assert(routes@ =~= old_routes.push(routes@.last()));
                    proof {
                        let d = designed_pages(pages@.take(i + 1));
                        assert(d == designed_pages(before).push(pages@[i as int]));
                        assert forall|k: int| 0 <= k < d.len() implies route_of(
                            #[trigger] routes@[k],
                            d[k],
                            component_of(d[k].name@)->Some_0,
                        ) by {
                            if k < d.len() - 1 {
                                assert(d[k] == designed_pages(before)[k]);
                            }
                        }
                    }
                },
                None => {
                    proof {
                        let d = designed_pages(pages@.take(i + 1));
                        assert(d.last() == pages@[i as int]);
                        assert(component_of(d[d.len() - 1].name@) is None);
                        lemma_designed_prefix(pages@, i + 1);
                        assert(designed_pages(pages@)[d.len() - 1] == d[d.len() - 1]);
                    }
                    return None;
                },
            }
        } else {
            assert(designed_pages(pages@.take(i + 1)) == designed_pages(before));
        }
        i += 1;
    }
    assert(pages@.take(pages@.len() as int) =~= pages@);
    Some(routes)
}

/// The answer to a plugin's result: nothing on success, the plugin's error otherwise.
/// A successful result carries the generated files.
pub fn handle_generation_result(result: FfiResult<Vec<GeneratedArtifact>>) -> (r: Result<(), String>)
    requires
        result.success ==> result.data is Some,
    ensures
        result.success ==> r is Ok,
        !result.success ==> r is Err && r->Err_0@ == "出码失败: "@ + pretty_debug(opt_seq(result.error)),
{
    if result.success {
        Ok(())
    } else {
        let detail = debug_pretty(&result.error);
        Err(concat2("出码失败: ", detail.as_str()))
    }
}

/// The message of an export of a project without pages.
pub open spec fn no_pages_message() -> Seq<char> {
    "项目没有页面，导出结束"@
}

/// The options for exporting `project` with its pages `pages` to `output_dir`: version
/// 1.0.0, built with npm. A project without pages is not exported.
pub fn export_options(project: &Project, output_dir: String, pages: Vec<Page>) -> (r: Result<
    GeneratorOptions,
    String,
>)
    ensures
        pages@.len() == 0 ==> r is Err && r->Err_0@ == no_pages_message(),
        pages@.len() > 0 ==> r is Ok && ({
            let o = r->Ok_0;
            &&& o.project_name == project.name
            &&& o.output_dir == output_dir
            &&& o.version@ == "1.0.0"@
            &&& o.package_manager@ == "npm"@
            &&& o.page_list@ == pages@
        }),
{
    if pages.len() == 0 {
        return Err(owned("项目没有页面，导出结束"));
    }
    Ok(
        GeneratorOptions {
            project_name: project.name.clone(),
            output_dir,
            version: owned("1.0.0"),
            package_manager: owned("npm"),
            page_list: pages,
        },
    )
}

} // verus!
