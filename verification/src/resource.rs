use vstd::prelude::*;
use crate::project::keyword_matches;
use crate::text::{concat2, has_char, has_prefix, owned, str_contains, str_eq, str_has_char, str_starts_with};

verus! {

broadcast use vstd::string::group_string_axioms;

/// The name, family and full name of a font.
#[derive(Debug)]
pub struct FontMeta {
    pub postscript_name: String,
    pub family: String,
    pub full_name: String,
}

/// The text of an optional name, empty where there is none.
pub open spec fn name_or_empty(o: Option<String>) -> Seq<char> {
    match o {
        Some(s) => s@,
        None => Seq::empty(),
    }
}

/// The message of a font that could not be loaded, with the loader's own message `e`.
pub open spec fn font_error_message(e: Seq<char>) -> Seq<char> {
    "加载字体失败: "@ + e
}

/// The metadata of a font from what the loader read (`read`): its PostScript name (empty
/// where it has none), family and full name; or the loader's error, as a message.
pub fn font_meta(read: Result<(Option<String>, String, String), String>) -> (r: Result<FontMeta, String>)
    ensures
        match read {
            Ok((ps, family, full)) => r is Ok && r->Ok_0.postscript_name@ == name_or_empty(ps)
                && r->Ok_0.family == family && r->Ok_0.full_name == full,
            Err(e) => r is Err && r->Err_0@ == font_error_message(e@),
        },
{
    match read {
        Ok((ps, family, full_name)) => {
            let postscript_name = match ps {
                Some(n) => n,
                None => String::new(),
            };
            Ok(FontMeta { postscript_name, family, full_name })
        },
        Err(e) => Err(concat2("加载字体失败: ", e.as_str())),
    }
}

/// The kinds of project resources, each kept in a directory of its own.
#[derive(Debug, Clone, Copy)]
pub enum ResourceType {
    Img,
    Font,
    Js,
    Attachment,
    Other,
}

/// The directory name of a resource kind.
pub open spec fn resource_dir_name(t: ResourceType) -> Seq<char> {
    match t {
        ResourceType::Img => "img"@,
        ResourceType::Font => "font"@,
        ResourceType::Js => "js"@,
        ResourceType::Attachment => "attachment"@,
        ResourceType::Other => "other"@,
    }
}

/// Different resource kinds live in different directories.
pub proof fn lemma_resource_dirs_distinct(a: ResourceType, b: ResourceType)
    ensures
        resource_dir_name(a) == resource_dir_name(b) ==> a == b,
{
    reveal_strlit("img");
    reveal_strlit("font");
    reveal_strlit("js");
    reveal_strlit("attachment");
    reveal_strlit("other");
    if resource_dir_name(a) == resource_dir_name(b) && a != b {
        let x = resource_dir_name(a);
        let y = resource_dir_name(b);
        assert(x.len() == y.len());
        assert(x[0] == y[0]);
    }
}

impl ResourceType {
    /// The directory name of the resource kind.
    pub fn as_str(&self) -> (s: &'static str)
        ensures
            s@ == resource_dir_name(*self),
    {
        match self {
            ResourceType::Img => "img",
            ResourceType::Font => "font",
            ResourceType::Js => "js",
            ResourceType::Attachment => "attachment",
            ResourceType::Other => "other",
        }
    }
}

/// A query for the resources of a project.
#[derive(Debug)]
pub struct ResourceQueryParams {
    pub project_id: String,
    pub resource_type: ResourceType,
    pub keyword: Option<String>,
}

/// A request on a resource group (a directory of resources).
#[derive(Debug)]
pub struct OperResourceGroupParams {
    pub project_id: String,
    pub resource_type: ResourceType,
    pub group_name: String,
    pub new_group_name: Option<String>,
}

/// A request to import files into a resource group.
#[derive(Debug)]
pub struct UploadParams {
    pub project_id: String,
    pub resource_type: ResourceType,
    pub group_name: String,
    pub file_list: Vec<String>,
}

/// A resource as the resource manager lists it.
#[derive(Debug)]
pub struct ResourceInfo {
    pub name: String,
    pub path: String,
    pub file_type: String,
    pub last_modified_time: String,
    pub file_size: Option<String>,
}

/// A resource group as the resource manager lists it.
#[derive(Debug)]
pub struct ResourceGroupInfo {
    pub name: String,
    pub path: String,
    pub last_modified_time: String,
    pub resources: Vec<ResourceInfo>,
    /// Whether this is the default group, which holds a `main` directory.
    pub default_group: bool,
}

/// A request to rename a resource.
#[derive(Debug)]
pub struct RenameResource {
    pub project_id: String,
    pub resource_type: ResourceType,
    pub group_name: String,
    pub resource_name: String,
    pub new_resource_name: String,
}

/// A request to delete a resource.
#[derive(Debug)]
pub struct DeleteResource {
    pub project_id: String,
    pub resource_type: ResourceType,
    pub group_name: String,
    pub resource_name: String,
}

/// A request to replace a project's logo with a local file.
#[derive(Debug)]
pub struct UploadResourceParams {
    pub file_path: String,
    pub old_file_path: Option<String>,
}

/// An entry of a resource group directory, as read from disk: its name and path, its
/// extension where it has one, its modification date and its size, both already written
/// for display.
#[derive(Debug)]
pub struct ResourceEntry {
    pub name: String,
    pub path: String,
    pub extension: Option<String>,
    pub last_modified_time: String,
    pub file_size: String,
}

/// A resource group directory as read from disk, with its entries in directory order.
#[derive(Debug)]
pub struct ResourceGroupEntry {
    pub name: String,
    pub path: String,
    pub last_modified_time: String,
    pub entries: Vec<ResourceEntry>,
}

/// Whether an entry named `name` is listed as a resource: it is not the `main` marker, not
/// hidden, and its name passes the keyword filter.
pub open spec fn name_listed(name: Seq<char>, keyword: Option<String>) -> bool {
    &&& name != "main"@
    &&& !has_prefix(name, "."@)
    &&& keyword_matches(name, keyword)
}

/// Whether an entry is listed as a resource, by its name.
pub open spec fn is_listed(e: ResourceEntry, keyword: Option<String>) -> bool {
    name_listed(e.name@, keyword)
}

/// The resource an entry is listed as.
pub open spec fn resource_of(e: ResourceEntry) -> ResourceInfo {
    ResourceInfo {
        name: e.name,
        path: e.path,
        file_type: e.extension.unwrap(),
        last_modified_time: e.last_modified_time,
        file_size: Some(e.file_size),
    }
}

/// The resources listed for the entries `es`, in their order.
pub open spec fn listed_resources(es: Seq<ResourceEntry>, keyword: Option<String>) -> Seq<ResourceInfo>
    decreases es.len(),
{
    if es.len() == 0 {
        Seq::empty()
    } else {
        let rest = listed_resources(es.drop_last(), keyword);
        if is_listed(es.last(), keyword) {
            rest.push(resource_of(es.last()))
        } else {
            rest
        }
    }
}

/// Every entry that is listed has an extension (the listing needs one).
pub open spec fn listed_have_extension(es: Seq<ResourceEntry>, keyword: Option<String>) -> bool {
    forall|i: int| 0 <= i < es.len() && is_listed(#[trigger] es[i], keyword) ==> es[i].extension is Some
}

/// Whether a group directory holds the `main` marker of the default group.
pub open spec fn has_main(es: Seq<ResourceEntry>) -> bool {
    exists|i: int| 0 <= i < es.len() && #[trigger] es[i].name@ == "main"@
}

/// `info` lists the group directory `g`.
pub open spec fn group_listed(info: ResourceGroupInfo, g: ResourceGroupEntry, keyword: Option<String>) -> bool {
    &&& info.name == g.name
    &&& info.path == g.path
    &&& info.last_modified_time == g.last_modified_time
    &&& info.resources@ == listed_resources(g.entries@, keyword)
    &&& info.default_group == has_main(g.entries@)
}

/// The message of a logo file name that holds a path separator.
pub open spec fn bad_file_name_message() -> Seq<char> {
    "文件名包含非法路径字符."@
}

/// The resource group that the directory "默认分组" becomes in exported code.
pub open spec fn export_name(name: Seq<char>) -> Seq<char> {
    if name == "默认分组"@ {
        "defaultGroup"@
    } else {
        name
    }
}

/// The characters that `sanitize_filename` takes out of a file name on every platform: the
/// path and wildcard characters and the control characters.
pub open spec fn banned_in_file_name(c: char) -> bool {
    ||| c == '/' || c == '?' || c == '<' || c == '>' || c == '\\'
    ||| c == ':' || c == '*' || c == '|' || c == '"'
    ||| ('\u{0}' <= c && c <= '\u{1f}')
    ||| ('\u{80}' <= c && c <= '\u{9f}')
}

/// `s` with the banned characters taken out, the others kept in their order.
pub open spec fn without_banned(s: Seq<char>) -> Seq<char>
    decreases s.len(),
{
    if s.len() == 0 {
        Seq::empty()
    } else {
        let rest = without_banned(s.drop_last());
        if banned_in_file_name(s.last()) {
            rest
        } else {
            rest.push(s.last())
        }
    }
}

/// Whether `c` is the lower-case ASCII letter `lower` in either case.
pub open spec fn letter_either_case(c: char, lower: char) -> bool {
    c == lower || (c as u32) + 32 == (lower as u32)
}

/// Whether `s` begins with the letters `a`, `b`, `c`, in either case.
pub open spec fn starts_with_letters(s: Seq<char>, a: char, b: char, c: char) -> bool {
    &&& s.len() >= 3
    &&& letter_either_case(s[0], a)
    &&& letter_either_case(s[1], b)
    &&& letter_either_case(s[2], c)
}

/// Whether `s` ends after its first `k` characters or goes on with a dot.
pub open spec fn stem_ends_at(s: Seq<char>, k: int) -> bool {
    s.len() == k || (s.len() > k && s[k] == '.')
}

/// Whether `s` is a device name that Windows reserves (`con`, `prn`, `aux`, `nul`, `com0` to
/// `com9`, `lpt0` to `lpt9`, in any case), alone or with an extension.
pub open spec fn windows_device_name(s: Seq<char>) -> bool {
    ||| (starts_with_letters(s, 'c', 'o', 'n') || starts_with_letters(s, 'p', 'r', 'n')
        || starts_with_letters(s, 'a', 'u', 'x') || starts_with_letters(s, 'n', 'u', 'l'))
        && stem_ends_at(s, 3)
    ||| (starts_with_letters(s, 'c', 'o', 'm') || starts_with_letters(s, 'l', 'p', 't')) && s.len()
        >= 4 && '0' <= s[3] && s[3] <= '9' && stem_ends_at(s, 4)
}

/// Whether `s` is a file name that every platform keeps as it is: not empty, at most 255
/// ASCII characters, not ending in a dot or a space, and no Windows device name.
pub open spec fn plain_file_name(s: Seq<char>) -> bool {
    &&& 0 < s.len() <= 255
    &&& forall|i: int| 0 <= i < s.len() ==> (#[trigger] s[i] as u32) < 128
    &&& s.last() != '.'
    &&& s.last() != ' '
    &&& !windows_device_name(s)
}

/// Whether `s` is made of dots alone, and at least one.
pub open spec fn dots_only(s: Seq<char>) -> bool {
    s.len() > 0 && forall|i: int| 0 <= i < s.len() ==> #[trigger] s[i] == '.'
}

/// `r` is a file name made from `name` as `sanitize_filename::sanitize` makes one on every
/// platform: no banned character, at most 255 characters, and only characters of `name`.
/// Where `name` without its banned characters is a plain file name, that is the result; where
/// it is made of dots alone, the result is empty.
pub open spec fn sanitized_from(r: Seq<char>, name: Seq<char>) -> bool {
    &&& r.len() <= 255
    &&& forall|i: int| 0 <= i < r.len() ==> !banned_in_file_name(#[trigger] r[i])
    &&& forall|i: int| 0 <= i < r.len() ==> has_char(name, #[trigger] r[i])
    &&& plain_file_name(without_banned(name)) ==> r == without_banned(name)
    &&& dots_only(without_banned(name)) ==> r.len() == 0
}

/// `sanitize_filename::sanitize` with its default options. It deletes the banned characters,
/// then a name made of dots alone, on Windows also a reserved device name and trailing dots
/// and spaces, and then cuts the name to 255 bytes. Which of the Windows steps apply depends
/// on the platform, so the result is stated exactly only where none of them can change it.
#[verifier::external_body]
fn sanitize_name(name: &str) -> (r: String)
    ensures
        sanitized_from(r@, name@),
{
    sanitize_filename::sanitize(name)
}

/// The resource manager's logic on directories already read.
pub struct ResourceConfig {}

fn listed_exec(e: &ResourceEntry, keyword: &Option<String>) -> (b: bool)
    ensures
        b == is_listed(*e, *keyword),
{
    ResourceConfig::is_listed_name(e.name.as_str(), keyword)
}

fn list_group(g: &ResourceGroupEntry, keyword: &Option<String>) -> (info: ResourceGroupInfo)
    requires
        listed_have_extension(g.entries@, *keyword),
    ensures
        group_listed(info, *g, *keyword),
{
    let mut resources: Vec<ResourceInfo> = Vec::new();
    let mut default_group = false;
    let mut i: usize = 0;
    while i < g.entries.len()
        invariant
            i <= g.entries@.len(),
            listed_have_extension(g.entries@, *keyword),
            resources@ == listed_resources(g.entries@.take(i as int), *keyword),
            default_group == has_main(g.entries@.take(i as int)),
        decreases g.entries@.len() - i,
    {
        let e = &g.entries[i];
        let ghost prefix = g.entries@.take(i as int);
        assert(g.entries@.take(i + 1).drop_last() =~= prefix);
        assert(g.entries@.take(i + 1).last() == g.entries@[i as int]);
        if str_eq(e.name.as_str(), "main") {
            default_group = true;
            assert(g.entries@.take(i + 1)[i as int].name@ == "main"@);
        } else {
            assert(has_main(g.entries@.take(i + 1)) == has_main(prefix)) by {
                if has_main(g.entries@.take(i + 1)) {
                    let w = choose|w: int|
                        0 <= w < i + 1 && #[trigger] g.entries@.take(i + 1)[w].name@ == "main"@;
                    assert(w < i);
                    assert(prefix[w] == g.entries@.take(i + 1)[w]);
                }
                if has_main(prefix) {
                    let w = choose|w: int| 0 <= w < i && #[trigger] prefix[w].name@ == "main"@;
                    assert(g.entries@.take(i + 1)[w] == prefix[w]);
                }
            }
            if listed_exec(e, keyword) {
                let file_type = match &e.extension {
                    Some(x) => x.clone(),
                    None => String::new(),
                };
                resources.push(
                    ResourceInfo {
                        name: e.name.clone(),
                        path: e.path.clone(),
                        file_type,
                        last_modified_time: e.last_modified_time.clone(),
                        file_size: Some(e.file_size.clone()),
                    },
                );
            }
        }
        i += 1;
    }
    assert(g.entries@.take(g.entries@.len() as int) =~= g.entries@);
    ResourceGroupInfo {
        name: g.name.clone(),
        path: g.path.clone(),
        last_modified_time: g.last_modified_time.clone(),
        resources,
        default_group,
    }
}

impl ResourceConfig {
    /// The resource groups of one resource kind, listed from the group directories `groups`
    /// in their order: a group holding a `main` directory is the default group, and each
    /// group lists its entries that are not `main`, not hidden, and hold `keyword`.
    pub fn load(groups: Vec<ResourceGroupEntry>, keyword: Option<String>) -> (r: Vec<ResourceGroupInfo>)
        requires
            forall|i: int|
                0 <= i < groups@.len() ==> listed_have_extension(#[trigger] groups@[i].entries@, keyword),
        ensures
            r@.len() == groups@.len(),
            forall|i: int| 0 <= i < groups@.len() ==> group_listed(#[trigger] r@[i], groups@[i], keyword),
    {
        let mut r: Vec<ResourceGroupInfo> = Vec::new();
        let mut i: usize = 0;
        while i < groups.len()
            invariant
                i <= groups@.len(),
                r@.len() == i,
                forall|j: int|
                    0 <= j < groups@.len() ==> listed_have_extension(#[trigger] groups@[j].entries@, keyword),
                forall|j: int| 0 <= j < i ==> group_listed(#[trigger] r@[j], groups@[j], keyword),
            decreases groups@.len() - i,
        {
            let info = list_group(&groups[i], &keyword);
            r.push(info);
            i += 1;
        }
        r
    }

    /// Whether an entry named `name` is listed as a resource: it is not the `main` marker,
    /// not hidden, and holds `keyword` where one is given.
    pub fn is_listed_name(name: &str, keyword: &Option<String>) -> (b: bool)
        ensures
            b == name_listed(name@, *keyword),
    {
        if str_eq(name, "main") {
            return false;
        }
        if str_starts_with(name, ".") {
            return false;
        }
        match keyword {
            Some(k) => str_contains(name, k.as_str()),
            None => true,
        }
    }

    /// The directory name of a new resource group named `group_name`: the name made safe
    /// for the file system.
    pub fn group_dir_name(group_name: &str) -> (r: String)
        ensures
            sanitized_from(r@, group_name@),
    {
        sanitize_name(group_name)
    }

    /// Checks the file name of a new logo: it must not hold a path separator.
    pub fn check_logo_file_name(file_name: &str) -> (r: Result<(), String>)
        ensures
            r is Ok == !(has_char(file_name@, '/') || has_char(file_name@, '\\')),
            r is Err ==> r->Err_0@ == bad_file_name_message(),
    {
        if str_has_char(file_name, '/') || str_has_char(file_name, '\\') {
            return Err(owned("文件名包含非法路径字符."));
        }
        Ok(())
    }

    /// The name under which an exported resource entry `file_name`, found in the directory
    /// `parent_dir_name` (none at the top), is copied: the default group "默认分组" becomes
    /// `defaultGroup`, and its `main` marker is not copied at all.
    pub fn export_target_name(file_name: &str, parent_dir_name: Option<&str>) -> (r: Option<String>)
        ensures
            ({
                let in_default = match parent_dir_name {
                    Some(p) => p@ == "默认分组"@,
                    None => false,
                };
                if in_default && file_name@ == "main"@ {
                    r is None
                } else {
                    r is Some && r->Some_0@ == export_name(file_name@)
                }
            }),
    {
        let in_default = match parent_dir_name {
            Some(p) => str_eq(p, "默认分组"),
            None => false,
        };
        if in_default && str_eq(file_name, "main") {
            return None;
        }
        if str_eq(file_name, "默认分组") {
            Some(owned("defaultGroup"))
        } else {
            Some(owned(file_name))
        }
    }
}

} // verus!
