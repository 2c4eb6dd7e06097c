use qwikpage::group::{default_group, legacy_group_fix, migrate_group, Group, GroupConfig, LegacyFix};
use qwikpage::page::Page;
use qwikpage::page_store::{
    ErrorResponse, PageAddParams, PageConfig, PageCopyParams, PageUpdateParams,
};
use qwikpage::preferences::{Config, Preferences, PreferencesManager};
use qwikpage::project::{
    paginated_query_project_list, Project, ProjectAddParams, ProjectSummary, ProjectUpdateParams,
};
use qwikpage::files::is_valid_file;
use qwikpage::local_storage::LocalStorage;
use qwikpage::resource::{
    font_meta, ResourceConfig, ResourceEntry, ResourceGroupEntry, ResourceType,
};

fn page(id: &str, name: &str, path: Option<&str>) -> Page {
    Page {
        id: id.to_string(),
        name: name.to_string(),
        path: path.map(|p| p.to_string()),
        remark: None,
        page_data: format!("data-{}", id),
        created_at: "2024-01-01 00:00:00".to_string(),
        updated_at: "2024-01-01 00:00:00".to_string(),
        project_id: "p1".to_string(),
    }
}

fn group(id: &str, created: Option<&str>, projects: Option<Vec<&str>>, is_default: Option<bool>) -> Group {
    Group {
        id: id.to_string(),
        name: format!("name-{}", id),
        created_at: created.map(|c| c.to_string()),
        updated_at: None,
        projects: projects.map(|v| v.into_iter().map(|s| s.to_string()).collect()),
        is_default,
    }
}

fn summary(id: &str, name: &str) -> ProjectSummary {
    ProjectSummary {
        id: id.to_string(),
        name: name.to_string(),
        remark: None,
        theme_color: "#000".to_string(),
        updated_at: "t".to_string(),
        logo: String::new(),
        count: 2,
    }
}

#[test]
fn duplicate_name_is_refused() {
    let pages = vec![page("1", "Home", Some("/")), page("2", "About", Some("/about"))];
    let err = PageConfig::check_duplicate(&pages, "About", &None, None).unwrap_err();
    assert_eq!(err, "页面名称 'About' 已存在");
    let err = PageConfig::check_duplicate(&pages, "New", &Some("/".to_string()), None).unwrap_err();
    assert_eq!(err, "页面路径 '/' 已存在");
    assert!(PageConfig::check_duplicate(&pages, "About", &Some("/about".to_string()), Some("2")).is_ok());
    assert!(PageConfig::check_duplicate(&pages, "New", &Some("/new".to_string()), None).is_ok());
}

#[test]
fn add_page_builds_or_refuses() {
    let pages = vec![page("1", "Home", Some("/"))];
    let params = PageAddParams {
        name: "List".to_string(),
        path: Some("/list".to_string()),
        remark: None,
        page_data: None,
        project_id: "p1".to_string(),
    };
    let p = PageConfig::add_page(&pages, params).unwrap();
    assert_eq!(p.name, "List");
    assert_eq!(p.page_data, "");
    assert_eq!(p.id.len(), 36);
    let again = PageAddParams {
        name: "Home".to_string(),
        path: None,
        remark: None,
        page_data: None,
        project_id: "p1".to_string(),
    };
    assert_eq!(PageConfig::add_page(&pages, again).unwrap_err(), "页面名称 'Home' 已存在");
}

#[test]
fn update_page_edits_given_fields() {
    let pages = vec![page("1", "Home", Some("/")), page("2", "About", Some("/about"))];
    let params = PageUpdateParams {
        id: "2".to_string(),
        name: Some("About us".to_string()),
        path: None,
        remark: Some("r".to_string()),
        page_data: None,
        project_id: "p1".to_string(),
    };
    let p = PageConfig::update_at(&pages, params, Some(page("2", "About", Some("/about"))), "now".to_string())
        .unwrap();
    assert_eq!(p.name, "About us");
    assert_eq!(p.path.as_deref(), Some("/about"));
    assert_eq!(p.remark.as_deref(), Some("r"));
    assert_eq!(p.page_data, "data-2");
    assert_eq!(p.updated_at, "now");
    let clash = PageUpdateParams {
        id: "2".to_string(),
        name: Some("Home".to_string()),
        path: None,
        remark: None,
        page_data: None,
        project_id: "p1".to_string(),
    };
    assert_eq!(PageConfig::update(&pages, clash, None).unwrap_err(), "页面名称 'Home' 已存在");
    let missing = PageUpdateParams {
        id: "9".to_string(),
        name: None,
        path: None,
        remark: None,
        page_data: None,
        project_id: "p1".to_string(),
    };
    assert_eq!(PageConfig::update(&pages, missing, None).unwrap_err(), "页面文件不存在");
}

#[test]
fn copy_page_keeps_design() {
    let source = page("1", "Home", Some("/"));
    let params = PageCopyParams {
        id: "1".to_string(),
        name: "Home copy".to_string(),
        path: Some("/copy".to_string()),
        remark: None,
        project_id: "p1".to_string(),
    };
    let p = PageConfig::copy(&source, params);
    assert_eq!(p.page_data, "data-1");
    assert_eq!(p.name, "Home copy");
    assert_ne!(p.id, "1");
}

#[test]
fn list_pages_by_keyword() {
    let pages = vec![page("1", "Home", None), page("2", "Homework", None), page("3", "About", None)];
    let listed = PageConfig::list(pages, 1, 1, Some("Home".to_string()));
    assert_eq!(listed.total, 2);
    assert_eq!(listed.list.len(), 1);
    assert_eq!(listed.list[0].id, "1");
}

#[test]
fn preview_finds_page_by_route() {
    let pages = vec![page("1", "Home", Some("/")), page("2", "About", Some("/about"))];
    let home = PageConfig::get_page_detail_with_path(pages.clone(), "*".to_string()).unwrap();
    assert_eq!(home.id, "1");
    let about = PageConfig::get_page_detail_with_path(pages.clone(), "about".to_string()).unwrap();
    assert_eq!(about.id, "2");
    let err = PageConfig::get_page_detail_with_path(pages, "none".to_string()).unwrap_err();
    assert_eq!(err.code, 404);
    assert_eq!(err.message, "未找到匹配的页面，路径: /none");
}

#[test]
fn preview_looks_at_every_page() {
    let mut pages: Vec<Page> = (0..20).map(|i| page(&i.to_string(), &format!("p{}", i), None)).collect();
    pages.push(page("late", "late", Some("/late")));
    let p = PageConfig::get_page_detail_with_path(pages, "late".to_string()).unwrap();
    assert_eq!(p.id, "late");
}

#[test]
fn page_detail_with_id() {
    let e = PageConfig::get_page_detail_with_id(false, None).unwrap_err();
    assert_eq!(e.code, 404);
    assert_eq!(e.message, "页面目录不存在");
    let p = PageConfig::get_page_detail_with_id(true, Some(page("1", "Home", None))).unwrap();
    assert_eq!(p.id, "1");
    let nf = ErrorResponse::not_found("x".to_string());
    assert_eq!(nf.code, 404);
}

#[test]
fn group_details_sorted_and_default_collects_unassigned() {
    let config = GroupConfig {
        groups: vec![
            group("g1", Some("2024-01-01 00:00:00"), Some(vec!["a", "zz"]), Some(false)),
            group("g2", Some("2024-05-01 00:00:00"), None, Some(true)),
            group("g3", None, Some(vec!["b"]), Some(false)),
        ],
    };
    let projects = vec![summary("a", "alpha"), summary("b", "beta"), summary("c", "gamma")];
    let list = config.get_project_details(projects, None);
    let ids: Vec<&str> = list.groups.iter().map(|g| g.id.as_str()).collect();
    assert_eq!(ids, vec!["g2", "g1", "g3"]);
    let default_projects: Vec<&str> =
        list.groups[0].projects.as_ref().unwrap().iter().map(|p| p.id.as_str()).collect();
    assert_eq!(default_projects, vec!["c"]);
    let g1: Vec<&str> = list.groups[1].projects.as_ref().unwrap().iter().map(|p| p.id.as_str()).collect();
    assert_eq!(g1, vec!["a"]);
    assert_eq!(list.groups[2].created_at, "");
}

#[test]
fn group_details_filter_by_keyword() {
    let config = GroupConfig { groups: vec![group("g", Some("1"), None, Some(true))] };
    let projects = vec![summary("a", "alpha"), summary("b", "beta")];
    let list = config.get_project_details(projects, Some("be".to_string()));
    let ids: Vec<&str> = list.groups[0].projects.as_ref().unwrap().iter().map(|p| p.id.as_str()).collect();
    assert_eq!(ids, vec!["b"]);
}

#[test]
fn group_sort_is_stable() {
    let config = GroupConfig {
        groups: vec![group("x", Some("1"), None, None), group("y", Some("1"), None, None), group("z", Some("2"), None, None)],
    };
    let list = config.get_project_details(vec![], None);
    let ids: Vec<&str> = list.groups.iter().map(|g| g.id.as_str()).collect();
    assert_eq!(ids, vec!["z", "x", "y"]);
}

#[test]
fn group_edits() {
    let mut config = GroupConfig { groups: vec![group("g1", None, None, Some(true)), group("g2", None, Some(vec!["p"]), None)] };
    assert!(config.update_group_at("g2", Some("renamed".to_string()), "now".to_string()));
    assert_eq!(config.groups[1].name, "renamed");
    assert_eq!(config.groups[1].updated_at.as_deref(), Some("now"));
    assert!(!config.update_group("nope", Some("x".to_string())));
    assert!(config.add_group_project("g1".to_string(), "p1".to_string()));
    assert!(config.add_group_project("g1".to_string(), "p1".to_string()));
    assert_eq!(config.groups[0].projects.as_ref().unwrap(), &vec!["p1".to_string()]);
    assert!(!config.add_group_project("nope".to_string(), "p1".to_string()));
    assert!(config.remove_project_from_group("g1".to_string(), "p1".to_string()));
    assert!(config.groups[0].projects.as_ref().unwrap().is_empty());
    assert!(!config.remove_project_from_group("g1".to_string(), "p1".to_string()));
    let added = config.add_group("new".to_string());
    assert_eq!(added.id.len(), 36);
    assert_eq!(added.is_default, Some(false));
    assert_eq!(config.groups.len(), 3);
    assert!(config.delete_group("g2"));
    assert!(!config.delete_group("g2"));
    assert_eq!(config.groups.len(), 2);
    assert!(!config.delete_group("g1"));
    assert_eq!(config.groups.len(), 2);
    assert_eq!(config.groups[0].id, "g1");
}

#[test]
fn default_and_legacy_groups() {
    let d = default_group("id".to_string(), "now".to_string());
    assert_eq!(d.name, "默认分组");
    assert_eq!(d.is_default, Some(true));
    let old = migrate_group(group("-1", None, None, None), "fresh".to_string());
    assert_eq!(old.id, "fresh");
    assert_eq!(old.is_default, Some(true));
    let other = migrate_group(group("7", None, None, None), "fresh".to_string());
    assert_eq!(other.id, "7");
    assert_eq!(other.is_default, Some(false));
    let mut config = GroupConfig { groups: vec![group("-1", None, None, None), group("8", None, None, Some(true))] };
    config.migrate_legacy();
    assert_eq!(config.groups[0].id.len(), 36);
    assert_eq!(config.groups[1].is_default, Some(true));
}

#[test]
fn project_lifecycle() {
    let mut p = Project::new(
        "id".to_string(),
        "Demo".to_string(),
        "#1677ff".to_string(),
        None,
        "logo.png".to_string(),
        "g".to_string(),
        "/build".to_string(),
    );
    assert_eq!(p.layout, "leftRight");
    assert_eq!(p.menu_mode, "vertical");
    assert_eq!(p.menu_theme_color, "light");
    assert!(!p.breadcrumb);
    let params = ProjectUpdateParams {
        id: "id".to_string(),
        name: "Demo 2".to_string(),
        remark: Some("r".to_string()),
        layout: "top".to_string(),
        theme_color: "#000".to_string(),
        menu_mode: "horizontal".to_string(),
        menu_theme_color: "dark".to_string(),
        system_theme_color: None,
        code_export_path: "/out".to_string(),
        breadcrumb: true,
        tag: true,
        footer: false,
        logo: None,
    };
    p.update_at(params, "later".to_string());
    assert_eq!(p.name, "Demo 2");
    assert_eq!(p.logo, "logo.png");
    assert_eq!(p.updated_at, "later");
    let s = p.to_summary(4);
    assert_eq!(s.count, 4);
    assert_eq!(s.name, "Demo 2");
}

#[test]
fn project_listing() {
    let projects = vec![summary("a", "shop"), summary("b", "blog"), summary("c", "shop admin")];
    let list = paginated_query_project_list(projects.clone(), 1, 10, Some("shop".to_string()));
    assert_eq!(list.total, 2);
    assert_eq!(list.list[1].id, "c");
    let all = Project::get_project_list_by_option(projects, None);
    assert_eq!(all.len(), 3);
}

#[test]
fn resource_listing() {
    let entry = |name: &str, ext: Option<&str>| ResourceEntry {
        name: name.to_string(),
        path: format!("/r/{}", name),
        extension: ext.map(|e| e.to_string()),
        last_modified_time: "2024/03/15".to_string(),
        file_size: "1 KB".to_string(),
    };
    let groups = vec![ResourceGroupEntry {
        name: "默认分组".to_string(),
        path: "/r".to_string(),
        last_modified_time: "2024/03/15".to_string(),
        entries: vec![entry("main", None), entry(".DS_Store", None), entry("logo.png", Some("png")), entry("bg.jpg", Some("jpg"))],
    }];
    let listed = ResourceConfig::load(groups, Some("logo".to_string()));
    assert_eq!(listed.len(), 1);
    assert!(listed[0].default_group);
    assert_eq!(listed[0].resources.len(), 1);
    assert_eq!(listed[0].resources[0].file_type, "png");
    assert_eq!(listed[0].resources[0].file_size.as_deref(), Some("1 KB"));
}

#[test]
fn resource_rules() {
    assert_eq!(ResourceType::Img.as_str(), "img");
    assert_eq!(ResourceType::Attachment.as_str(), "attachment");
    assert!(ResourceConfig::check_logo_file_name("a.png").is_ok());
    assert_eq!(ResourceConfig::check_logo_file_name("a\\b.png").unwrap_err(), "文件名包含非法路径字符.");
    assert_eq!(ResourceConfig::export_target_name("默认分组", None).unwrap(), "defaultGroup");
    assert!(ResourceConfig::export_target_name("main", Some("默认分组")).is_none());
    assert_eq!(ResourceConfig::export_target_name("main", Some("other")).unwrap(), "main");
}

#[test]
fn preferences_defaults_and_updates() {
    let p = Preferences::default_for(true, "/code".to_string());
    assert_eq!(p.font_family, "PingFang SC");
    assert_eq!(p.font_size, 12);
    assert_eq!(p.theme, "auto");
    let q = Preferences::default_for(false, "/code".to_string());
    assert_eq!(q.font_family, "Microsoft YaHei Mono");
    let mut manager = PreferencesManager::new(p.clone());
    assert_eq!(manager.get_project_path(), "/code");
    let mut next = p.clone();
    next.project_path = "/elsewhere".to_string();
    manager.set_preferences(next);
    assert_eq!(manager.preferences().project_path, "/elsewhere");
    manager.update_preferences(|mut cur| {
        cur.theme = "dark".to_string();
        cur
    });
    assert_eq!(manager.get_preferences().theme, "dark");
    let mut config = Config::new(q);
    config.update_preferences(|mut cur| {
        cur.language = "zh".to_string();
        cur
    });
    assert_eq!(config.preferences().language, "zh");
    let loaded = Preferences::load(None, p.clone());
    assert_eq!(loaded.font_family, "PingFang SC");
    let mut r = p;
    let before = config.preferences().language.clone();
    let failed = r.set_preferences(
        Preferences::default_for(false, "/y".to_string()),
        Err("disk full".to_string()),
        &mut config,
    );
    assert_eq!(failed, Err("disk full".to_string()));
    assert_eq!(r.get_project_path(), "/y");
    assert_eq!(config.preferences().language, before);
    assert!(r.set_preferences(Preferences::default_for(false, "/x".to_string()), Ok(()), &mut config).is_ok());
    assert_eq!(r.get_project_path(), "/x");
    assert_eq!(config.preferences().project_path, "/x");
}

#[test]
fn valid_files() {
    assert!(is_valid_file("a.json", true));
    assert!(!is_valid_file(".a.json", true));
    assert!(!is_valid_file("dir", false));
}

#[test]
fn local_storage_prefers_what_was_read() {
    let storage = LocalStorage::new("settings.json", || 12u32);
    assert_eq!(storage.get_path(), "settings.json");
    assert_eq!(storage.load(Some(3)), 3);
    assert_eq!(storage.load(None), 12);
}

#[test]
fn local_storage_update_changes_the_loaded_value() {
    let storage = LocalStorage::new("settings.json", || 12u32);
    assert_eq!(storage.update(Some(3), |x| x * 2), 6);
    assert_eq!(storage.update(None, |x| x + 1), 13);
}

#[test]
fn added_page_takes_its_name_and_route() {
    let mut pages = vec![page("1", "Home", Some("/"))];
    let params = PageAddParams {
        name: "List".to_string(),
        path: Some("/list".to_string()),
        remark: None,
        page_data: None,
        project_id: "p1".to_string(),
    };
    let p = PageConfig::add_page(&pages, params).unwrap();
    pages.push(p);
    let same_name = PageAddParams {
        name: "List".to_string(),
        path: Some("/other".to_string()),
        remark: None,
        page_data: None,
        project_id: "p1".to_string(),
    };
    assert_eq!(PageConfig::add_page(&pages, same_name).unwrap_err(), "页面名称 'List' 已存在");
    let same_route = PageAddParams {
        name: "Other".to_string(),
        path: Some("/list".to_string()),
        remark: None,
        page_data: None,
        project_id: "p1".to_string(),
    };
    assert_eq!(PageConfig::add_page(&pages, same_route).unwrap_err(), "页面路径 '/list' 已存在");
}

#[test]
fn route_only_edit_is_checked() {
    let pages = vec![page("1", "Home", Some("/")), page("2", "About", Some("/about"))];
    let params = PageUpdateParams {
        id: "2".to_string(),
        name: None,
        path: Some("/".to_string()),
        remark: None,
        page_data: None,
        project_id: "p1".to_string(),
    };
    let err = PageConfig::update_at(&pages, params, Some(page("2", "About", Some("/about"))), "now".to_string())
        .unwrap_err();
    assert_eq!(err, "页面路径 '/' 已存在");
    let params = PageUpdateParams {
        id: "2".to_string(),
        name: None,
        path: Some("/us".to_string()),
        remark: None,
        page_data: None,
        project_id: "p1".to_string(),
    };
    let p = PageConfig::update_at(&pages, params, Some(page("2", "About", Some("/about"))), "now".to_string())
        .unwrap();
    assert_eq!(p.path.as_deref(), Some("/us"));
    assert_eq!(p.name, "About");
}

#[test]
fn unassigned_projects_need_a_default_group() {
    let config = GroupConfig { groups: vec![group("g", Some("1"), Some(vec!["a"]), Some(false))] };
    let projects = vec![summary("a", "alpha"), summary("b", "beta")];
    let list = config.get_project_details(projects, None);
    let ids: Vec<&str> = list.groups[0].projects.as_ref().unwrap().iter().map(|p| p.id.as_str()).collect();
    assert_eq!(ids, vec!["a"]);
}

#[test]
fn group_dir_names_are_made_safe() {
    assert_eq!(ResourceConfig::group_dir_name("icons"), "icons");
    assert_eq!(ResourceConfig::group_dir_name("my <icons>"), "my icons");
    assert_eq!(ResourceConfig::group_dir_name("a/b:c*"), "abc");
    assert_eq!(ResourceConfig::group_dir_name(".."), "");
    let long = "x".repeat(300);
    assert_eq!(ResourceConfig::group_dir_name(&long).len(), 255);
}

#[test]
fn font_meta_from_what_was_read() {
    let m = font_meta(Ok((None, "Fam".to_string(), "Fam Bold".to_string()))).unwrap();
    assert_eq!(m.postscript_name, "");
    assert_eq!(m.family, "Fam");
    assert_eq!(m.full_name, "Fam Bold");
    let m = font_meta(Ok((Some("Fam-Bold".to_string()), "Fam".to_string(), "Fam Bold".to_string()))).unwrap();
    assert_eq!(m.postscript_name, "Fam-Bold");
    assert_eq!(font_meta(Err("parse error".to_string())).unwrap_err(), "加载字体失败: parse error");
}


#[test]
fn fresh_group_file_holds_the_default_group() {
    let config = GroupConfig::with_default_group();
    assert_eq!(config.groups.len(), 1);
    let g = &config.groups[0];
    assert_eq!(g.name, "默认分组");
    assert_eq!(g.id.len(), 36);
    assert_eq!(g.is_default, Some(true));
    assert!(g.projects.is_none());
    assert_eq!(g.created_at.as_ref().unwrap().len(), 19);
}

#[test]
fn project_from_params_gets_a_fresh_id() {
    let params = ProjectAddParams {
        name: "Shop".to_string(),
        theme_color: "#fff".to_string(),
        remark: None,
        logo: "logo.png".to_string(),
        group_id: "g1".to_string(),
    };
    let p = Project::from_params(params, "/tmp/build".to_string());
    assert_eq!(p.id.len(), 36);
    assert_eq!(p.name, "Shop");
    assert_eq!(p.group_id, "g1");
    assert_eq!(p.layout, "leftRight");
    assert_eq!(p.code_export_path, "/tmp/build");
    assert!(!p.breadcrumb);
}

#[test]
fn listed_names() {
    assert!(ResourceConfig::is_listed_name("a.png", &None));
    assert!(!ResourceConfig::is_listed_name("main", &None));
    assert!(!ResourceConfig::is_listed_name(".hidden", &None));
    assert!(ResourceConfig::is_listed_name("logo.png", &Some("go".to_string())));
    assert!(!ResourceConfig::is_listed_name("logo.png", &Some("x".to_string())));
}

#[test]
fn legacy_group_fixes() {
    match legacy_group_fix("-1", true) {
        LegacyFix::NewDefault(id) => assert_eq!(id.len(), 36),
        other => panic!("unexpected {:?}", other),
    }
    assert!(matches!(legacy_group_fix("g", false), LegacyFix::MarkNotDefault));
    assert!(matches!(legacy_group_fix("g", true), LegacyFix::Keep));
}

#[test]
fn removing_undoes_filing() {
    let mut config = GroupConfig { groups: vec![group("g1", Some("1"), Some(vec!["a"]), Some(true))] };
    assert!(config.add_group_project("g1".to_string(), "b".to_string()));
    assert_eq!(config.groups[0].projects.as_ref().unwrap(), &vec!["a".to_string(), "b".to_string()]);
    assert!(config.remove_project_from_group("g1".to_string(), "b".to_string()));
    assert_eq!(config.groups[0].projects.as_ref().unwrap(), &vec!["a".to_string()]);
}
