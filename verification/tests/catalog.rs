use personal_website::models::project::{Project, ProjectQuery, Timestamp};
use personal_website::AppError;

fn at(secs: i64) -> Timestamp {
    Timestamp { secs, nanos: 0 }
}

fn project(
    id: i64,
    slug: &str,
    title: &str,
    category: &str,
    featured: bool,
    created: i64,
) -> Project {
    Project {
        id,
        slug: slug.to_string(),
        title: title.to_string(),
        category: category.to_string(),
        short_desc: format!("{} in short", title),
        long_desc: format!("{} at length", title),
        github_url: None,
        live_url: None,
        featured,
        tags: "[]".to_string(),
        created_at: at(created),
        updated_at: at(created),
    }
}

fn seeded() -> Vec<Project> {
    vec![
        project(1, "nine-lives-cat-sudoku", "Nine Lives: Cat Sudoku", "Rust", true, 100),
        project(2, "portfolio-site", "Portfolio Site", "Web Development", true, 300),
        project(3, "ray-tracer", "Ray Tracer", "Rust", false, 200),
        project(4, "notes-app", "Notes App", "Web Development", false, 200),
        project(5, "tiny-shell", "Tiny Shell", "Systems", false, 50),
    ]
}

fn no_filter() -> ProjectQuery {
    ProjectQuery { category: None, featured: None, limit: None }
}

fn slugs(projects: &[Project]) -> Vec<String> {
    projects.iter().map(|p| p.slug.clone()).collect()
}

#[test]
fn test_featured_projects() {
    let projects = Project::featured(&seeded());
    assert!(!projects.is_empty());
    for project in &projects {
        assert!(project.featured);
    }
}

#[test]
fn test_find_by_slug() {
    let project = Project::find_by_slug(&seeded(), "nine-lives-cat-sudoku");
    assert!(project.is_some());
    let project = project.unwrap();
    assert_eq!(project.slug, "nine-lives-cat-sudoku");
    assert_eq!(project.title, "Nine Lives: Cat Sudoku");
}

#[test]
fn test_categories() {
    let categories = Project::categories(&seeded());
    assert!(!categories.is_empty());
    assert!(categories.contains(&"Rust".to_string()));
    assert!(categories.contains(&"Web Development".to_string()));
}

#[test]
fn test_all_projects_with_filter() {
    let query = ProjectQuery { category: Some("Rust".to_string()), featured: None, limit: None };
    let projects = Project::all(&seeded(), &query).unwrap();
    assert!(!projects.is_empty());
    for project in &projects {
        assert_eq!(project.category, "Rust");
    }
}

#[test]
fn unfiltered_listing_holds_every_row_newest_first() {
    let projects = Project::all(&seeded(), &no_filter()).unwrap();
    assert_eq!(
        slugs(&projects),
        vec!["portfolio-site", "ray-tracer", "notes-app", "nine-lives-cat-sudoku", "tiny-shell"]
    );
}

#[test]
fn rows_created_together_keep_their_order() {
    let rows = vec![
        project(1, "first", "First", "A", false, 7),
        project(2, "second", "Second", "A", false, 7),
        project(3, "third", "Third", "A", false, 7),
    ];
    let projects = Project::all(&rows, &no_filter()).unwrap();
    assert_eq!(slugs(&projects), vec!["first", "second", "third"]);
}

#[test]
fn nanoseconds_order_rows_of_one_second() {
    let mut early = project(1, "early", "Early", "A", false, 7);
    early.created_at = Timestamp { secs: 7, nanos: 1 };
    let mut late = project(2, "late", "Late", "A", false, 7);
    late.created_at = Timestamp { secs: 7, nanos: 2 };
    let mut before = project(3, "before", "Before", "A", false, 6);
    before.created_at = Timestamp { secs: 6, nanos: 999_999_999 };
    let projects = Project::all(&vec![early, before, late], &no_filter()).unwrap();
    assert_eq!(slugs(&projects), vec!["late", "early", "before"]);
}

#[test]
fn category_filter_returns_only_that_category() {
    for category in ["Rust", "Web Development", "Systems", "Absent"] {
        let query =
            ProjectQuery { category: Some(category.to_string()), featured: None, limit: None };
        let projects = Project::all(&seeded(), &query).unwrap();
        for p in &projects {
            assert_eq!(p.category, category);
        }
        let expected = seeded().iter().filter(|p| p.category == category).count();
        assert_eq!(projects.len(), expected);
    }
}

#[test]
fn category_match_is_exact() {
    let query = ProjectQuery { category: Some("rust".to_string()), featured: None, limit: None };
    assert!(Project::all(&seeded(), &query).unwrap().is_empty());
    let query = ProjectQuery { category: Some("Rus".to_string()), featured: None, limit: None };
    assert!(Project::all(&seeded(), &query).unwrap().is_empty());
}

#[test]
fn featured_filter_agrees_with_featured_listing() {
    let query = ProjectQuery { category: None, featured: Some(true), limit: None };
    let listed = Project::all(&seeded(), &query).unwrap();
    let featured = Project::featured(&seeded());
    assert_eq!(slugs(&listed), slugs(&featured));
    assert_eq!(slugs(&featured), vec!["portfolio-site", "nine-lives-cat-sudoku"]);
}

#[test]
fn featured_false_selects_the_others() {
    let query = ProjectQuery { category: None, featured: Some(false), limit: None };
    let listed = Project::all(&seeded(), &query).unwrap();
    assert_eq!(slugs(&listed), vec!["ray-tracer", "notes-app", "tiny-shell"]);
}

#[test]
fn category_and_featured_together() {
    let query =
        ProjectQuery { category: Some("Rust".to_string()), featured: Some(true), limit: None };
    let listed = Project::all(&seeded(), &query).unwrap();
    assert_eq!(slugs(&listed), vec!["nine-lives-cat-sudoku"]);
}

#[test]
fn limit_caps_the_listing() {
    for limit in 0..8i64 {
        let query = ProjectQuery { category: None, featured: None, limit: Some(limit) };
        let listed = Project::all(&seeded(), &query).unwrap();
        assert!(listed.len() as i64 <= limit);
        assert_eq!(listed.len() as i64, limit.min(5));
    }
}

#[test]
fn limit_keeps_the_newest() {
    let query = ProjectQuery { category: None, featured: None, limit: Some(2) };
    let listed = Project::all(&seeded(), &query).unwrap();
    assert_eq!(slugs(&listed), vec!["portfolio-site", "ray-tracer"]);
}

#[test]
fn limit_zero_gives_nothing() {
    let query = ProjectQuery { category: None, featured: None, limit: Some(0) };
    assert!(Project::all(&seeded(), &query).unwrap().is_empty());
}

#[test]
fn largest_limit_is_accepted() {
    let query = ProjectQuery { category: None, featured: None, limit: Some(i64::MAX) };
    assert_eq!(Project::all(&seeded(), &query).unwrap().len(), 5);
}

#[test]
fn negative_limit_is_a_validation_error() {
    for limit in [-1, -7, i64::MIN] {
        let query = ProjectQuery { category: None, featured: None, limit: Some(limit) };
        match Project::all(&seeded(), &query) {
            Err(AppError::Validation(message)) => assert_eq!(message, "limit must not be negative"),
            other => panic!("expected a validation error, got {:?}", other),
        }
    }
}

#[test]
fn listing_is_sorted_newest_first() {
    let listed = Project::all(&seeded(), &no_filter()).unwrap();
    for pair in listed.windows(2) {
        assert!(pair[0].created_at.is_at_or_after(&pair[1].created_at));
    }
}

#[test]
fn listing_of_no_rows_is_empty() {
    assert!(Project::all(&Vec::new(), &no_filter()).unwrap().is_empty());
    assert!(Project::featured(&Vec::new()).is_empty());
    assert!(Project::categories(&Vec::new()).is_empty());
    assert!(Project::find_by_slug(&Vec::new(), "a").is_none());
}

#[test]
fn listing_again_changes_nothing() {
    let query = ProjectQuery { category: Some("Rust".to_string()), featured: None, limit: Some(1) };
    let once = Project::all(&seeded(), &query).unwrap();
    let twice = Project::all(&once, &query).unwrap();
    assert_eq!(slugs(&once), slugs(&twice));
    assert_eq!(slugs(&once), vec!["ray-tracer"]);
}

#[test]
fn listing_copies_every_field() {
    let mut row = project(9, "full", "Full", "Rust", true, 5);
    row.github_url = Some("https://example.org/src".to_string());
    row.live_url = Some("https://example.org".to_string());
    row.tags = "[\"x\"]".to_string();
    row.updated_at = Timestamp { secs: 6, nanos: 3 };
    let listed = Project::all(&vec![row], &no_filter()).unwrap();
    let copy = &listed[0];
    assert_eq!(copy.id, 9);
    assert_eq!(copy.slug, "full");
    assert_eq!(copy.title, "Full");
    assert_eq!(copy.category, "Rust");
    assert_eq!(copy.short_desc, "Full in short");
    assert_eq!(copy.long_desc, "Full at length");
    assert_eq!(copy.github_url.as_deref(), Some("https://example.org/src"));
    assert_eq!(copy.live_url.as_deref(), Some("https://example.org"));
    assert!(copy.featured);
    assert_eq!(copy.tags, "[\"x\"]");
    assert_eq!(copy.created_at, Timestamp { secs: 5, nanos: 0 });
    assert_eq!(copy.updated_at, Timestamp { secs: 6, nanos: 3 });
}

#[test]
fn find_by_slug_gives_the_row_or_nothing() {
    let rows = seeded();
    for row in &rows {
        let found = Project::find_by_slug(&rows, &row.slug).unwrap();
        assert_eq!(found.slug, row.slug);
        assert_eq!(found.id, row.id);
    }
    assert!(Project::find_by_slug(&rows, "unknown-slug").is_none());
    assert!(Project::find_by_slug(&rows, "").is_none());
    assert!(Project::find_by_slug(&rows, "ray-trace").is_none());
    assert!(Project::find_by_slug(&rows, "ray-tracer ").is_none());
}

#[test]
fn find_by_slug_takes_the_first_of_several() {
    let rows = vec![
        project(1, "twin", "First Twin", "A", false, 1),
        project(2, "twin", "Second Twin", "A", false, 2),
    ];
    assert_eq!(Project::find_by_slug(&rows, "twin").unwrap().id, 1);
}

#[test]
fn categories_are_ascending_and_distinct() {
    let categories = Project::categories(&seeded());
    assert_eq!(categories, vec!["Rust", "Systems", "Web Development"]);
}

#[test]
fn categories_are_ordered_by_bytes() {
    let rows = vec![
        project(1, "a", "A", "web", false, 1),
        project(2, "b", "B", "Web", false, 2),
        project(3, "c", "C", "Zoo", false, 3),
        project(4, "d", "D", "Web ", false, 4),
        project(5, "e", "E", "", false, 5),
        project(6, "f", "F", "\u{e9}t\u{e9}", false, 6),
        project(7, "g", "G", "Web", false, 7),
    ];
    let categories = Project::categories(&rows);
    assert_eq!(categories, vec!["", "Web", "Web ", "Zoo", "web", "\u{e9}t\u{e9}"]);
    let mut expected: Vec<String> = rows.iter().map(|p| p.category.clone()).collect();
    expected.sort();
    expected.dedup();
    assert_eq!(categories, expected);
}

#[test]
fn scenario_two_projects() {
    let rows = vec![
        project(1, "a", "A", "Rust", true, 1),
        project(2, "b", "B", "Web", false, 2),
    ];
    let query = ProjectQuery { category: Some("Rust".to_string()), featured: None, limit: None };
    assert_eq!(slugs(&Project::all(&rows, &query).unwrap()), vec!["a"]);
    assert_eq!(slugs(&Project::featured(&rows)), vec!["a"]);
    assert!(Project::find_by_slug(&rows, "c").is_none());
    assert_eq!(Project::categories(&rows), vec!["Rust", "Web"]);
}

#[test]
fn query_matches_by_its_constraints() {
    let row = project(1, "a", "A", "Rust", true, 1);
    assert!(no_filter().matches(&row));
    let rust = ProjectQuery { category: Some("Rust".to_string()), featured: None, limit: None };
    assert!(rust.matches(&row));
    let web = ProjectQuery { category: Some("Web".to_string()), featured: None, limit: None };
    assert!(!web.matches(&row));
    let plain = ProjectQuery { category: None, featured: Some(false), limit: None };
    assert!(!plain.matches(&row));
    let ignored_limit = ProjectQuery { category: None, featured: Some(true), limit: Some(-3) };
    assert!(ignored_limit.matches(&row));
}

#[test]
fn link_accessors() {
    let mut row = project(1, "a", "A", "Rust", true, 1);
    assert!(!row.has_github_url());
    assert!(!row.has_live_url());
    assert_eq!(row.github_url_or_empty(), "");
    assert_eq!(row.live_url_or_empty(), "");
    row.github_url = Some("https://example.org/src".to_string());
    row.live_url = Some("https://example.org".to_string());
    assert!(row.has_github_url());
    assert!(row.has_live_url());
    assert_eq!(row.github_url_or_empty(), "https://example.org/src");
    assert_eq!(row.live_url_or_empty(), "https://example.org");
}

#[test]
fn timestamps_compare_by_seconds_then_nanoseconds() {
    let a = Timestamp { secs: 5, nanos: 10 };
    assert!(a.is_at_or_after(&a));
    assert!(a.is_at_or_after(&Timestamp { secs: 5, nanos: 9 }));
    assert!(!a.is_at_or_after(&Timestamp { secs: 5, nanos: 11 }));
    assert!(a.is_at_or_after(&Timestamp { secs: 4, nanos: 999 }));
    assert!(!a.is_at_or_after(&Timestamp { secs: 6, nanos: 0 }));
    assert!(Timestamp { secs: -1, nanos: 0 }.is_at_or_after(&Timestamp { secs: -2, nanos: 5 }));
}
