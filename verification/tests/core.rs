use qwikpage::generator::{
    export_options, gen_router, generate_package_json, generate_page, GeneratorOptions, handle_generation_result, join_path_exec, page_routes,
    push_page_route, route_for, template_calls_no_partial, FfiResult, GeneratedArtifact, GeneratorError,
};
use qwikpage::helpers::{css_property_name, props_text, style_text, PropValue};
use qwikpage::naming::{capitalize_first, component_name, pinyin_name};
use qwikpage::page::{merge_element, Element, ElementMap, ElementObj, Event, Method, Page};
use qwikpage::pagination::paginate;
use qwikpage::project::Project;
use chrono::{Local, TimeZone};
use qwikpage::stamp::{format_resource_system_time, get_current_time, resource_timestamp};
use qwikpage::templates::template_files;

fn page(id: &str, name: &str, path: Option<&str>) -> Page {
    Page {
        id: id.to_string(),
        name: name.to_string(),
        path: path.map(|p| p.to_string()),
        remark: None,
        page_data: String::new(),
        created_at: "2024-01-01 00:00:00".to_string(),
        updated_at: "2024-01-01 00:00:00".to_string(),
        project_id: "p1".to_string(),
    }
}

fn element(id: &str, children: Vec<Element>) -> Element {
    Element {
        id: id.to_string(),
        parent_id: None,
        component_type: "button".to_string(),
        name: format!("n-{}", id),
        elements: children,
    }
}

fn settings(config: &str) -> ElementObj {
    ElementObj {
        config: config.to_string(),
        events: vec![Event { value: "v".to_string(), name: "click".to_string() }],
        methods: vec![Method { name: "m".to_string(), title: "t".to_string() }],
    }
}

#[test]
fn test_get_current_time() {
    let current_time = get_current_time();
    assert!(current_time.len() == 19);
    assert!(current_time.contains('-'));
    assert!(current_time.contains(':'));
    assert!(current_time.contains(' '));
}

#[test]
fn test_format_resource_system_time() {
    let test_time = Local.with_ymd_and_hms(2024, 3, 15, 14, 30, 45).unwrap();
    let system_time = test_time.into();
    let formatted_time = format_resource_system_time(system_time);
    assert_eq!(formatted_time.as_deref(), Some("2024/03/15"));
}

#[test]
fn resource_timestamps_split_like_chrono() {
    assert_eq!(resource_timestamp(Ok((10, 5))), Some((10, 5)));
    assert_eq!(resource_timestamp(Err((10, 0))), Some((-10, 0)));
    assert_eq!(resource_timestamp(Err((10, 250_000_000))), Some((-11, 750_000_000)));
    assert_eq!(resource_timestamp(Ok((253_402_214_399, 0))), Some((253_402_214_399, 0)));
    assert_eq!(resource_timestamp(Ok((253_402_214_400, 0))), None);
    assert_eq!(resource_timestamp(Err((62_135_510_400, 0))), Some((-62_135_510_400, 0)));
    assert_eq!(resource_timestamp(Err((62_135_510_400, 1))), None);
}

#[test]
fn resource_dates_have_their_form() {
    let t = std::time::SystemTime::UNIX_EPOCH + std::time::Duration::from_secs(86400 * 400);
    let d = format_resource_system_time(t).unwrap();
    assert_eq!(d.len(), 10);
    assert!(d.starts_with("1971/02/0"));
    let far = std::time::SystemTime::UNIX_EPOCH + std::time::Duration::from_secs(300_000_000_000);
    assert!(format_resource_system_time(far).is_none());
}

#[test]
fn current_time_has_its_separators() {
    let t = get_current_time();
    assert!(t.contains('-') && t.contains(':') && t.contains(' '));
}

#[test]
fn paginate_middle_page() {
    let (list, total) = paginate(vec![1, 2, 3, 4, 5, 6, 7], 2, 3);
    assert_eq!(list, vec![4, 5, 6]);
    assert_eq!(total, 7);
}

#[test]
fn paginate_last_partial_page() {
    let (list, total) = paginate(vec![1, 2, 3, 4, 5, 6, 7], 3, 3);
    assert_eq!(list, vec![7]);
    assert_eq!(total, 7);
}

#[test]
fn paginate_page_after_the_end_is_empty() {
    let (list, total) = paginate(vec![1, 2, 3], 2, 3);
    assert!(list.is_empty());
    assert_eq!(total, 3);
}

#[test]
fn pages_tile_the_list() {
    let items: Vec<u32> = (0..10).collect();
    let mut all = vec![];
    for n in 1..=4 {
        let (list, _) = paginate(items.clone(), n, 3);
        all.extend(list);
    }
    assert_eq!(all, items);
}

#[test]
fn merge_keeps_order_and_drops_unknown_nodes() {
    let elements = vec![
        element("a", vec![element("a1", vec![]), element("zz", vec![element("a2", vec![])])]),
        element("missing", vec![element("b", vec![])]),
        element("b", vec![]),
    ];
    let mut map = ElementMap::new();
    map.insert("a".to_string(), settings("{\"x\":1}"));
    map.insert("a1".to_string(), settings("{}"));
    map.insert("a2".to_string(), settings("{}"));
    map.insert("b".to_string(), settings("{\"y\":2}"));
    let merged = merge_element(&elements, &map);
    assert_eq!(merged.len(), 2);
    assert_eq!(merged[0].id, "a");
    assert_eq!(merged[0].config, "{\"x\":1}");
    assert_eq!(merged[0].elements.len(), 1);
    assert_eq!(merged[0].elements[0].id, "a1");
    assert_eq!(merged[1].id, "b");
    assert_eq!(merged[1].component_type, "button");
    assert_eq!(merged[1].events[0].name, "click");
    assert_eq!(merged[1].methods[0].title, "t");
}

#[test]
fn element_map_insert_replaces() {
    let mut map = ElementMap::new();
    map.insert("a".to_string(), settings("1"));
    map.insert("a".to_string(), settings("2"));
    assert_eq!(map.len(), 1);
    assert_eq!(map.get("a").unwrap().config, "2");
    assert!(map.get("b").is_none());
}

#[test]
fn pinyin_of_chinese() {
    assert_eq!(pinyin_name("中文"), "zhongwen");
    assert_eq!(pinyin_name("首页abc"), "shouye");
    assert_eq!(pinyin_name("abc"), "");
}

#[test]
fn component_names() {
    assert_eq!(component_name("首页").unwrap(), "Shouye");
    assert_eq!(component_name("login").unwrap(), "Login");
    assert_eq!(component_name("Login").unwrap(), "Login");
    assert!(component_name("").is_none());
    assert!(component_name("😀").is_none());
    assert_eq!(capitalize_first("x1"), "X1");
}

#[test]
fn route_of_a_page() {
    let p = page("1", "Home", Some("/home"));
    let r = route_for(&p, "Home");
    assert_eq!(r.path.as_deref(), Some("/home"));
    assert_eq!(r.name, "Home");
    assert_eq!(r.component_path, "@/views/Home.vue");
}

#[test]
fn push_page_route_names_the_view_and_adds_its_route() {
    let mut routes = vec![];
    let home = page("1", "首页", Some("/"));
    assert_eq!(push_page_route(&home, &mut routes).as_deref(), Some("Shouye.vue"));
    assert_eq!(routes.len(), 1);
    assert_eq!(routes[0].component_path, "@/views/Shouye.vue");
    let odd = page("2", "😀", None);
    assert!(push_page_route(&odd, &mut routes).is_none());
    assert_eq!(routes.len(), 1);
}

#[test]
fn generate_page_renders_the_view() {
    let mut routes = vec![];
    let home = page("1", "首页", Some("/"));
    let views = "<template>{{#each components}}<{{type}} id=\"{{id}}\"/>{{/each}}</template>";
    let components = Ok(r#"[{"type":"a-button","id":"b1"},{"type":"a-input","id":"i1"}]"#.to_string());
    let a = generate_page(&home, &mut routes, "/out", views, components).unwrap();
    assert_eq!(a.file_path, "/out/src/views/Shouye.vue");
    assert_eq!(a.content, "<template><a-button id=\"b1\"/><a-input id=\"i1\"/></template>");
    assert_eq!(routes.len(), 1);
    assert_eq!(routes[0].name, "Shouye");
}

#[test]
fn generate_page_errors() {
    let mut routes = vec![];
    let about = page("2", "about", Some("/about"));
    let e = generate_page(&about, &mut routes, "/out", "x", Err("bad json".to_string())).unwrap_err();
    assert_eq!(e, "Failed to parse template data: bad json");
    assert_eq!(routes.len(), 1);
    let e = generate_page(&about, &mut routes, "/out/", "{{> form}}", Ok("[]".to_string())).unwrap_err();
    assert_eq!(e, "Failed to render template: partial calls are not supported");
    let e = generate_page(&about, &mut routes, "/out/", "{{#each}", Ok("[]".to_string())).unwrap_err();
    assert!(e.starts_with("Failed to render template: "));
    let a = generate_page(&about, &mut routes, "/out/", "ok", Ok("[]".to_string())).unwrap();
    assert_eq!(a.file_path, "/out/src/views/About.vue");
    assert_eq!(a.content, "ok");
    assert_eq!(routes.len(), 4);
}

#[test]
fn router_file() {
    let t = "{{#each routes}}{path: '{{path}}', name: '{{name}}'},{{/each}}";
    let a = gen_router("out", r#"[{"path":"/","name":"Home","component_path":"@/views/Home.vue"}]"#, t).unwrap();
    assert_eq!(a.file_path, "out/src/router/index.ts");
    assert_eq!(a.content, "{path: '/', name: 'Home'},");
    assert!(gen_router("out", "[]", "{{~ > x}}").is_err());
}

#[test]
fn partial_calls_are_found() {
    assert!(template_calls_no_partial("<div>{{name}}</div> a > b"));
    assert!(!template_calls_no_partial("{{> form}}"));
    assert!(!template_calls_no_partial("x{{ ~ #> layout}}y{{/layout}}"));
    assert!(template_calls_no_partial("{{#each items}}>{{/each}}"));
}

#[test]
fn paths_join_as_on_unix() {
    assert_eq!(join_path_exec("a", "b"), "a/b");
    assert_eq!(join_path_exec("a/", "b"), "a/b");
    assert_eq!(join_path_exec("", "b"), "b");
    assert_eq!(join_path_exec("a", "/b"), "/b");
}

#[test]
fn routes_only_for_designed_pages() {
    let mut home = page("1", "首页", Some("/"));
    home.page_data = "{}".to_string();
    let blank = page("2", "blank", Some("/blank"));
    let mut login = page("3", "login", Some("/login"));
    login.page_data = "{}".to_string();
    let routes = page_routes(&vec![home, blank, login]).unwrap();
    assert_eq!(routes.len(), 2);
    assert_eq!(routes[0].name, "Shouye");
    assert_eq!(routes[0].path.as_deref(), Some("/"));
    assert_eq!(routes[0].component_path, "@/views/Shouye.vue");
    assert_eq!(routes[1].name, "Login");
    assert_eq!(routes[1].component_path, "@/views/Login.vue");
}

#[test]
fn routes_refused_for_a_name_without_component() {
    let mut odd = page("1", "😀", None);
    odd.page_data = "{}".to_string();
    assert!(page_routes(&vec![odd]).is_none());
    let quiet = page("2", "😀", None);
    assert_eq!(page_routes(&vec![quiet]).unwrap().len(), 0);
}

#[test]
fn skeleton_files() {
    let files = template_files();
    let names: Vec<&str> = files.iter().map(|f| f.filename.as_str()).collect();
    assert_eq!(
        names,
        vec![
            "vite.config.ts",
            "tsconfig.node.json",
            "tsconfig.json",
            "tsconfig.app.json",
            "index.html",
            "env.d.ts",
            "src/App.vue",
            "src/main.ts",
            "start",
            "start.cmd"
        ]
    );
    assert!(files[0].content.contains("defineConfig"));
    assert!(files[7].content.contains("createApp(App)"));
    assert!(files[9].content.contains("@echo off"));
}

#[test]
fn css_names() {
    assert_eq!(css_property_name("backgroundColor"), "background-color");
    assert_eq!(css_property_name("Color"), "color");
    assert_eq!(css_property_name("fontSize"), "font-size");
}

#[test]
fn style_and_props() {
    let style = style_text(&vec![
        ("fontSize".to_string(), "12px".to_string()),
        ("color".to_string(), "red".to_string()),
    ]);
    assert_eq!(style, "font-size: 12px; color: red");
    assert_eq!(style_text(&vec![]), "");
    let props = props_text(&vec![
        ("a".to_string(), PropValue::Str("x".to_string())),
        ("b".to_string(), PropValue::Json("1".to_string())),
    ]);
    assert_eq!(props, "{a: \"x\", b: 1}");
    assert_eq!(props_text(&vec![]), "{}");
}

#[test]
fn ffi_result_from_ok_and_err() {
    let ok: FfiResult<u32> = FfiResult::from(Ok(3));
    assert!(ok.success);
    assert_eq!(ok.data, Some(3));
    assert!(ok.error.is_none());
    let err: FfiResult<u32> = FfiResult::from(Err(GeneratorError::Template("bad".to_string())));
    assert!(!err.success);
    assert!(err.data.is_none());
    assert_eq!(err.error.as_deref(), Some("Template error: bad"));
    let io = GeneratorError::Io("disk".to_string()).message();
    assert_eq!(io, "IO error: disk");
    assert_eq!(GeneratorError::Validation("v".to_string()).message(), "Validation error: v");
}

#[test]
fn generation_result_messages() {
    let ok = FfiResult {
        success: true,
        data: Some(vec![GeneratedArtifact { file_path: "a".to_string(), content: "b".to_string() }]),
        error: None,
    };
    assert!(handle_generation_result(ok).is_ok());
    let bad: FfiResult<Vec<GeneratedArtifact>> =
        FfiResult { success: false, data: None, error: Some("boom".to_string()) };
    assert_eq!(handle_generation_result(bad).unwrap_err(), "出码失败: Some(\n    \"boom\",\n)");
    let none: FfiResult<Vec<GeneratedArtifact>> = FfiResult { success: false, data: None, error: None };
    assert_eq!(handle_generation_result(none).unwrap_err(), "出码失败: None");
}

#[test]
fn export_needs_pages() {
    let project = Project::new_at(
        "id".to_string(),
        "Demo".to_string(),
        "#fff".to_string(),
        None,
        "logo".to_string(),
        "g".to_string(),
        "/build".to_string(),
        "t0".to_string(),
        "t1".to_string(),
    );
    let err = export_options(&project, "/out".to_string(), vec![]).unwrap_err();
    assert_eq!(err, "项目没有页面，导出结束");
    let opts = export_options(&project, "/out".to_string(), vec![page("1", "a", None)]).unwrap();
    assert_eq!(opts.project_name, "Demo");
    assert_eq!(opts.output_dir, "/out");
    assert_eq!(opts.version, "1.0.0");
    assert_eq!(opts.package_manager, "npm");
    assert_eq!(opts.page_list.len(), 1);
}

#[test]
fn package_json_of_a_project() {
    let options = GeneratorOptions {
        project_name: "shop \"a\"".to_string(),
        output_dir: "/out".to_string(),
        version: "1.0.0".to_string(),
        package_manager: "npm".to_string(),
        page_list: vec![],
    };
    let mut artifacts = vec![];
    generate_package_json(&options, "/out", &mut artifacts).unwrap();
    assert_eq!(artifacts.len(), 1);
    assert_eq!(artifacts[0].file_path, "/out/package.json");
    let expected = r#"{
  "dependencies": {
    "ant-design-vue": "^4.2.6",
    "vue": "^3.5.13",
    "vue-router": "^4.5.0"
  },
  "devDependencies": {
    "@tsconfig/node22": "^22.0.0",
    "@types/node": "^22.13.4",
    "@vitejs/plugin-vue": "^5.2.1",
    "@vitejs/plugin-vue-jsx": "^4.1.1",
    "@vue/tsconfig": "^0.7.0",
    "typescript": "~5.7.3",
    "vite": "^6.1.0",
    "vite-plugin-vue-devtools": "^7.7.2",
    "vue-tsc": "^2.2.2"
  },
  "name": "shop \"a\"",
  "scripts": {
    "build": "vite build",
    "dev": "vite"
  },
  "version": "1.0.0"
}"#;
    assert_eq!(artifacts[0].content, expected);
}
