use personal_website::models::project::{Project, Timestamp};
use personal_website::routes::{
    health_handler, home_handler, not_found_handler, project_detail_handler, projects_handler,
    ProjectsQueryParams, ViewModel,
};
use personal_website::AppError;

fn project(slug: &str, category: &str, featured: bool, created: i64) -> Project {
    Project {
        id: created,
        slug: slug.to_string(),
        title: slug.to_uppercase(),
        category: category.to_string(),
        short_desc: "short".to_string(),
        long_desc: "long".to_string(),
        github_url: None,
        live_url: None,
        featured,
        tags: "[]".to_string(),
        created_at: Timestamp { secs: created, nanos: 0 },
        updated_at: Timestamp { secs: created, nanos: 0 },
    }
}

fn rows() -> Vec<Project> {
    vec![
        project("a", "Rust", true, 1),
        project("b", "Web", false, 2),
        project("c", "Rust", false, 3),
    ]
}

fn names() -> Vec<String> {
    vec!["Web".to_string(), "Rust".to_string(), "Web".to_string()]
}

fn slugs(projects: &[Project]) -> Vec<String> {
    projects.iter().map(|p| p.slug.clone()).collect()
}

#[test]
fn home_shows_the_featured_projects() {
    let view = home_handler(&rows());
    assert_eq!(view.template_name(), "home");
    match view {
        ViewModel::Home { featured_projects } => assert_eq!(slugs(&featured_projects), vec!["a"]),
        other => panic!("unexpected view {:?}", other),
    }
}

#[test]
fn full_page_without_category() {
    let params = ProjectsQueryParams { category: None, fragment: None };
    let view = projects_handler(&params, &rows(), &names());
    assert_eq!(view.template_name(), "projects");
    match view {
        ViewModel::Projects { projects, categories, selected_category } => {
            assert_eq!(slugs(&projects), vec!["c", "b", "a"]);
            assert_eq!(categories, vec!["Rust", "Web"]);
            assert_eq!(selected_category, "");
        },
        other => panic!("unexpected view {:?}", other),
    }
}

#[test]
fn full_page_with_category() {
    let params = ProjectsQueryParams { category: Some("Rust".to_string()), fragment: Some(false) };
    match projects_handler(&params, &rows(), &names()) {
        ViewModel::Projects { projects, categories, selected_category } => {
            assert_eq!(slugs(&projects), vec!["c", "a"]);
            assert_eq!(categories, vec!["Rust", "Web"]);
            assert_eq!(selected_category, "Rust");
        },
        other => panic!("unexpected view {:?}", other),
    }
}

#[test]
fn fragment_holds_the_listing_alone() {
    let params = ProjectsQueryParams { category: Some("Web".to_string()), fragment: Some(true) };
    let view = projects_handler(&params, &rows(), &names());
    assert_eq!(view.template_name(), "project_fragment");
    match view {
        ViewModel::ProjectFragment { projects } => assert_eq!(slugs(&projects), vec!["b"]),
        other => panic!("unexpected view {:?}", other),
    }
}

#[test]
fn fragment_without_category() {
    let params = ProjectsQueryParams { category: None, fragment: Some(true) };
    match projects_handler(&params, &rows(), &Vec::new()) {
        ViewModel::ProjectFragment { projects } => {
            assert_eq!(slugs(&projects), vec!["c", "b", "a"])
        },
        other => panic!("unexpected view {:?}", other),
    }
}

#[test]
fn params_say_what_to_ask_for() {
    let params = ProjectsQueryParams { category: Some("Rust".to_string()), fragment: None };
    assert!(!params.is_fragment());
    let query = params.query();
    assert_eq!(query.category.as_deref(), Some("Rust"));
    assert_eq!(query.featured, None);
    assert_eq!(query.limit, None);
    assert!(ProjectsQueryParams { category: None, fragment: Some(true) }.is_fragment());
    assert!(!ProjectsQueryParams { category: None, fragment: Some(false) }.is_fragment());
    assert!(ProjectsQueryParams { category: None, fragment: None }.query().category.is_none());
}

#[test]
fn detail_of_a_known_slug() {
    let view = project_detail_handler("b", &rows()).unwrap();
    assert_eq!(view.template_name(), "project_detail");
    match view {
        ViewModel::ProjectDetail { project } => {
            assert_eq!(project.slug, "b");
            assert_eq!(project.category, "Web");
        },
        other => panic!("unexpected view {:?}", other),
    }
}

#[test]
fn unknown_slug_is_not_found_and_named() {
    match project_detail_handler("unknown-slug", &rows()) {
        Err(AppError::NotFound(message)) => {
            assert_eq!(message, "Project 'unknown-slug' not found");
            assert!(message.contains("unknown-slug"));
        },
        other => panic!("expected not found, got {:?}", other),
    }
    match project_detail_handler("unknown-slug", &Vec::new()) {
        Err(e) => {
            let reply = e.into_response();
            assert_eq!(reply.status, 404);
            assert_eq!(reply.body, "Project 'unknown-slug' not found");
        },
        Ok(view) => panic!("unexpected view {:?}", view),
    }
}

#[test]
fn health_and_fallback() {
    let health = health_handler();
    assert_eq!(health.status, 200);
    assert_eq!(health.body, "OK");
    let missing = not_found_handler("<h1>Nothing here</h1>".to_string());
    assert_eq!(missing.status, 404);
    assert_eq!(missing.body, "<h1>Nothing here</h1>");
}
