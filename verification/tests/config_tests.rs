use project_butler::config::{
    App, Config, IconFiles, IconReads, Project, icon_file, data_url, encodable_len, mime_type_for, mime_type_for_extension,
};

fn project(id: u128, name: &str, icon: Option<&str>) -> Project {
    Project {
        id,
        name: name.to_string(),
        description: None,
        color: None,
        icon: icon.map(|s| s.to_string()),
        apps: vec![],
        icon_data: None,
    }
}

fn app(id: u128, name: &str) -> App {
    App {
        id,
        name: name.to_string(),
        description: String::new(),
        icon: None,
        command: "cargo".to_string(),
        args: vec![],
        env: vec![],
        cwd: None,
        confirm: false,
        icon_data: None,
    }
}

#[test]
fn mime_types_follow_the_extension() {
    assert_eq!(mime_type_for("/icons/a.svg"), "image/svg+xml");
    assert_eq!(mime_type_for("a.jpg"), "image/jpeg");
    assert_eq!(mime_type_for("a.jpeg"), "image/jpeg");
    assert_eq!(mime_type_for("a.webp"), "image/webp");
    assert_eq!(mime_type_for("a.png"), "image/png");
    assert_eq!(mime_type_for("a.gif"), "image/png");
    assert_eq!(mime_type_for("noextension"), "image/png");
    assert_eq!(mime_type_for(".svg"), "image/png");
    assert_eq!(mime_type_for("dir.svg/file"), "image/png");
}

#[test]
fn icon_data_is_a_base64_data_url() {
    let bytes = Some(b"hi".to_vec());
    assert_eq!(
        Config::load_icon_as_base64("icon.svg", &bytes).as_deref(),
        Some("data:image/svg+xml;base64,aGk=")
    );
    let bytes = Some(b"abc".to_vec());
    assert_eq!(
        Config::load_icon_as_base64("pic.png", &bytes).as_deref(),
        Some("data:image/png;base64,YWJj")
    );
    let empty = Some(Vec::new());
    assert_eq!(Config::load_icon_as_base64("x.webp", &empty).as_deref(), Some("data:image/webp;base64,"));
}

#[test]
fn icon_data_is_absent_when_the_file_could_not_be_read() {
    assert_eq!(Config::load_icon_as_base64("icon.svg", &None), None);
}

#[test]
fn icon_files_are_the_icons_that_name_files() {
    let mut a = project(1, "a", Some("/icons/a.png"));
    let mut x = app(10, "x");
    x.icon = Some("x.svg".to_string());
    let mut y = app(11, "y");
    y.icon = Some("\u{1f5a5}".to_string());
    a.apps = vec![x, y, app(12, "z")];
    let config = Config {
        projects: vec![a, project(2, "b", Some("\u{1f680}")), project(3, "c", None)],
    };
    assert_eq!(
        config.icon_files(),
        vec![
            IconFiles {
                project: Some("/icons/a.png".to_string()),
                apps: vec![Some("x.svg".to_string()), None, None],
            },
            IconFiles { project: None, apps: vec![] },
            IconFiles { project: None, apps: vec![] },
        ]
    );
}

#[test]
fn load_derives_icon_data_only_for_icon_files() {
    let parsed = Config {
        projects: vec![
            project(1, "a", Some("a.jpg")),
            project(2, "b", Some("\u{26a1}")),
            project(3, "c", Some("missing.png")),
            project(4, "d", Some("beyond.svg")),
        ],
    };
    let reads = vec![
        IconReads { project: Some(b"xyz".to_vec()), apps: vec![] },
        IconReads { project: Some(b"ignored".to_vec()), apps: vec![] },
        IconReads { project: None, apps: vec![] },
    ];
    let loaded = Config::load(parsed, &reads);
    assert_eq!(loaded.projects.len(), 4);
    assert_eq!(loaded.projects[0].icon_data.as_deref(), Some("data:image/jpeg;base64,eHl6"));
    assert_eq!(loaded.projects[1].icon_data, None);
    assert_eq!(loaded.projects[2].icon_data, None);
    assert_eq!(loaded.projects[3].icon_data, None);
    assert_eq!(loaded.projects[0].name, "a");
    assert_eq!(loaded.projects[3].id, 4);
}

#[test]
fn load_derives_icon_data_of_apps() {
    let mut p = project(1, "a", None);
    let mut x = app(10, "x");
    x.icon = Some("icons/x.webp".to_string());
    let mut y = app(11, "y");
    y.icon = Some("\u{1f5a5}".to_string());
    let mut z = app(12, "z");
    z.icon = Some("gone.svg".to_string());
    let mut w = app(13, "w");
    w.icon = Some("past.png".to_string());
    p.apps = vec![x, y, z, w];
    let parsed = Config { projects: vec![p] };
    let reads = vec![IconReads {
        project: None,
        apps: vec![Some(b"hi".to_vec()), Some(b"ignored".to_vec()), None],
    }];
    let loaded = Config::load(parsed, &reads);
    let apps = &loaded.projects[0].apps;
    assert_eq!(apps.len(), 4);
    assert_eq!(apps[0].icon_data.as_deref(), Some("data:image/webp;base64,aGk="));
    assert_eq!(apps[1].icon_data, None);
    assert_eq!(apps[2].icon_data, None);
    assert_eq!(apps[3].icon_data, None);
    assert_eq!(apps[0].name, "x");
    assert_eq!(loaded.projects[0].icon_data, None);
}

#[test]
fn icon_file_of_an_icon() {
    assert_eq!(icon_file(&Some("a.png".to_string())).as_deref(), Some("a.png"));
    assert_eq!(icon_file(&Some("\u{1f680}".to_string())), None);
    assert_eq!(icon_file(&None), None);
}

#[test]
fn default_config_has_no_projects() {
    assert!(Config::default().projects.is_empty());
}

#[test]
fn add_app_goes_to_the_first_project_with_the_id() {
    let mut config = Config { projects: vec![project(1, "a", None), project(2, "b", None), project(2, "c", None)] };
    config.add_app(2, app(10, "server"));
    assert_eq!(config.projects[0].apps.len(), 0);
    assert_eq!(config.projects[1].apps.len(), 1);
    assert_eq!(config.projects[1].apps[0].name, "server");
    assert_eq!(config.projects[2].apps.len(), 0);
    config.add_app(2, app(11, "worker"));
    assert_eq!(config.projects[1].apps.len(), 2);
    assert_eq!(config.projects[1].apps[1].id, 11);
}

#[test]
fn add_app_without_the_project_changes_nothing() {
    let mut config = Config { projects: vec![project(1, "a", None)] };
    config.add_app(9, app(10, "server"));
    assert_eq!(config.projects.len(), 1);
    assert!(config.projects[0].apps.is_empty());
}

#[test]
fn selected_project_is_looked_up_by_position() {
    let config = Config { projects: vec![project(1, "a", None), project(2, "b", None)] };
    assert_eq!(config.selected_project(1).map(|p| p.id), Some(2));
    assert!(config.selected_project(2).is_none());
}

#[test]
fn accent_defaults_to_blue() {
    let mut p = project(1, "a", None);
    assert_eq!(p.accent(), "#3b82f6");
    p.color = Some("#ff0000".to_string());
    assert_eq!(p.accent(), "#ff0000");
}

#[test]
fn encodable_lengths() {
    assert!(encodable_len(0));
    assert!(encodable_len(1 << 20));
    assert!(!encodable_len(usize::MAX));
    assert!(!encodable_len(usize::MAX / 4 * 3 + 1));
    assert!(encodable_len(usize::MAX / 4 * 3));
}

#[test]
fn mime_types_by_extension() {
    assert_eq!(mime_type_for_extension(Some("svg")), "image/svg+xml");
    assert_eq!(mime_type_for_extension(Some("jpeg")), "image/jpeg");
    assert_eq!(mime_type_for_extension(Some("JPG")), "image/png");
    assert_eq!(mime_type_for_extension(Some("webp")), "image/webp");
    assert_eq!(mime_type_for_extension(Some("")), "image/png");
    assert_eq!(mime_type_for_extension(None), "image/png");
}

#[test]
fn data_urls() {
    assert_eq!(data_url("image/png", "AAAA"), "data:image/png;base64,AAAA");
    assert_eq!(data_url("image/webp", ""), "data:image/webp;base64,");
}
