use project_butler::config::{Config, Project};
use project_butler::forms::{AppForm, EnvRow, ProjectForm};

fn row(key: &str, value: &str) -> EnvRow {
    EnvRow { id: 0, key: key.to_string(), value: value.to_string() }
}

fn filled_form() -> AppForm {
    AppForm {
        name: "  Dev Server ".to_string(),
        description: " Start the development server ".to_string(),
        icon: " \u{26a1}".to_string(),
        command: " npm ".to_string(),
        working_dir: "/path/to/project".to_string(),
        args: " run  dev ".to_string(),
        env_vars: vec![
            row(" NODE_ENV ", " development "),
            row("   ", "ignored"),
            row("PORT", "3000"),
            row("NODE_ENV", "production"),
        ],
        confirm: true,
    }
}

fn empty_project(id: u128) -> Project {
    Project {
        id,
        name: "p".to_string(),
        description: None,
        color: None,
        icon: None,
        apps: vec![],
        icon_data: None,
    }
}

fn is_v4(id: u128) -> bool {
    id & 0xF000_C000_0000_0000_0000u128 == 0x4000_8000_0000_0000_0000u128
}

#[test]
fn app_form_validity_needs_name_and_command() {
    let mut f = AppForm::default();
    assert!(!f.is_valid());
    f.name = " x ".to_string();
    assert!(!f.is_valid());
    f.command = "\t".to_string();
    assert!(!f.is_valid());
    f.command = "ls".to_string();
    assert!(f.is_valid());
    f.name = "\u{3000}".to_string();
    assert!(!f.is_valid());
}

#[test]
fn into_app_trims_splits_and_collects_the_environment() {
    let app = filled_form().into_app();
    assert!(is_v4(app.id));
    assert_eq!(app.name, "Dev Server");
    assert_eq!(app.description, "Start the development server");
    assert_eq!(app.icon.as_deref(), Some(" \u{26a1}"));
    assert_eq!(app.command, "npm");
    assert_eq!(app.args, vec!["run", "dev"]);
    assert_eq!(
        app.env,
        vec![
            ("NODE_ENV".to_string(), "production".to_string()),
            ("PORT".to_string(), "3000".to_string())
        ]
    );
    assert_eq!(app.cwd.as_deref(), Some("/path/to/project"));
    assert!(app.confirm);
    assert_eq!(app.icon_data, None);
}

#[test]
fn into_app_leaves_out_empty_optional_fields() {
    let mut f = AppForm::default();
    f.name = "n".to_string();
    f.command = "c".to_string();
    let app = f.into_app();
    assert_eq!(app.icon, None);
    assert_eq!(app.cwd, None);
    assert!(app.args.is_empty());
    assert!(app.env.is_empty());
}

#[test]
fn env_rows_are_edited_in_place() {
    let mut f = AppForm::default();
    f.add_env_row();
    f.add_env_row();
    assert_eq!(f.env_vars.len(), 2);
    assert!(is_v4(f.env_vars[0].id));
    assert_ne!(f.env_vars[0].id, f.env_vars[1].id);
    f.set_env_key(1, "KEY".to_string());
    f.set_env_value(1, "VALUE".to_string());
    assert_eq!(f.env_vars[1].key, "KEY");
    assert_eq!(f.env_vars[1].value, "VALUE");
    assert_eq!(f.env_vars[0].key, "");
    let kept = f.env_vars[1].id;
    f.remove_env_row(0);
    assert_eq!(f.env_vars.len(), 1);
    assert_eq!(f.env_vars[0].id, kept);
}

#[test]
fn confirming_a_valid_app_form_adds_the_app() {
    let mut config = Config { projects: vec![empty_project(1), empty_project(2)] };
    let saved = filled_form().confirm(&mut config, 2);
    assert_eq!(saved.as_deref(), Some("  Dev Server "));
    assert!(config.projects[0].apps.is_empty());
    assert_eq!(config.projects[1].apps.len(), 1);
    assert_eq!(config.projects[1].apps[0].name, "Dev Server");
}

#[test]
fn confirming_for_a_missing_project_still_reports_the_name() {
    let mut config = Config { projects: vec![empty_project(1)] };
    let saved = filled_form().confirm(&mut config, 7);
    assert_eq!(saved.as_deref(), Some("  Dev Server "));
    assert!(config.projects[0].apps.is_empty());
}

#[test]
fn confirming_an_invalid_app_form_changes_nothing() {
    let mut config = Config { projects: vec![empty_project(1)] };
    let mut f = filled_form();
    f.command = "  ".to_string();
    assert_eq!(f.confirm(&mut config, 1), None);
    assert!(config.projects[0].apps.is_empty());
}

#[test]
fn project_form_makes_a_project() {
    let f = ProjectForm {
        name: " Game Client ".to_string(),
        description: "  ".to_string(),
        icon_path: "/icons/game.png".to_string(),
        color: String::new(),
    };
    assert!(f.is_valid());
    assert_eq!(f.color_value(), "#3b82f6");
    let p = f.into_project();
    assert!(is_v4(p.id));
    assert_eq!(p.name, "Game Client");
    assert_eq!(p.description.as_deref(), Some(""));
    assert_eq!(p.icon.as_deref(), Some("/icons/game.png"));
    assert_eq!(p.color, None);
    assert!(p.apps.is_empty());
    assert_eq!(p.icon_data, None);
}

#[test]
fn project_form_colour_and_validity() {
    let mut f = ProjectForm::default();
    assert!(!f.is_valid());
    f.color = "#123456".to_string();
    assert_eq!(f.color_value(), "#123456");
    f.name = " \n".to_string();
    assert!(!f.is_valid());
}

#[test]
fn confirming_a_project_form() {
    let mut config = Config::default();
    let mut f = ProjectForm::default();
    assert_eq!(f.clone().confirm(&mut config), None);
    assert!(config.projects.is_empty());
    f.name = "Tools ".to_string();
    f.color = "#00ff00".to_string();
    assert_eq!(f.confirm(&mut config).as_deref(), Some("Tools "));
    assert_eq!(config.projects.len(), 1);
    assert_eq!(config.projects[0].name, "Tools");
    assert_eq!(config.projects[0].color.as_deref(), Some("#00ff00"));
}
