//! What a request is answered with. Each handler takes the request's
//! parameters and the rows the store returned for it, and gives the view to
//! render or the error to report. Asking the store and rendering the view
//! are the caller's part.

use crate::errors::{AppError, Reply, STATUS_NOT_FOUND, STATUS_OK};
use crate::models::catalog::{
    distinct_sorted, featured_only, has_slug, is_first_with_slug, list_rows, listing,
};
use crate::models::project::{copy_optional_text, Project, ProjectQuery};
use crate::text::{is_ascending, texts_of};
use vstd::prelude::*;
use vstd::string::StringExecFns;

verus! {

/// The parameters of a request for the listing page.
#[derive(Debug)]
pub struct ProjectsQueryParams {
    pub category: Option<String>,
    pub fragment: Option<bool>,
}

/// The data one template is rendered from.
#[derive(Debug)]
pub enum ViewModel {
    /// The homepage.
    Home { featured_projects: Vec<Project> },
    /// The listing as a full page, with the categories to choose from.
    Projects { projects: Vec<Project>, categories: Vec<String>, selected_category: String },
    /// One project.
    ProjectDetail { project: Project },
    /// The listing alone, to replace the one on a page already shown.
    ProjectFragment { projects: Vec<Project> },
}

impl ViewModel {
    /// The view is the homepage and shows `featured`.
    pub open spec fn is_home_of(self, featured: Seq<Project>) -> bool {
        self matches ViewModel::Home { featured_projects } && featured_projects@ == featured
    }

    /// The view is the listing alone and shows `listed`.
    pub open spec fn is_fragment_of(self, listed: Seq<Project>) -> bool {
        self matches ViewModel::ProjectFragment { projects } && projects@ == listed
    }

    /// The view is the full listing page: it shows `listed`, offers the
    /// texts of `names`, each once and in ascending order, and marks
    /// `selected`.
    pub open spec fn is_page_of(
        self,
        listed: Seq<Project>,
        names: Seq<Seq<char>>,
        selected: Seq<char>,
    ) -> bool {
        self matches ViewModel::Projects { projects, categories, selected_category } && {
            &&& projects@ == listed
            &&& is_ascending(texts_of(categories@))
            &&& forall|text: Seq<char>|
                texts_of(categories@).contains(text) <==> names.contains(text)
            &&& selected_category@ == selected
        }
    }

    /// The view shows one project: the first of `rows` whose slug is `slug`.
    pub open spec fn is_detail_of(self, rows: Seq<Project>, slug: Seq<char>) -> bool {
        self matches ViewModel::ProjectDetail { project } && is_first_with_slug(rows, slug, project)
    }

    /// The name of the template that renders the view.
    pub open spec fn spec_template_name(self) -> Seq<char> {
        match self {
            ViewModel::Home { .. } => "home"@,
            ViewModel::Projects { .. } => "projects"@,
            ViewModel::ProjectDetail { .. } => "project_detail"@,
            ViewModel::ProjectFragment { .. } => "project_fragment"@,
        }
    }

    /// The name of the template that renders the view.
    pub fn template_name(&self) -> (name: &'static str)
        ensures
            name@ == self.spec_template_name(),
    {
        match self {
            ViewModel::Home { .. } => "home",
            ViewModel::Projects { .. } => "projects",
            ViewModel::ProjectDetail { .. } => "project_detail",
            ViewModel::ProjectFragment { .. } => "project_fragment",
        }
    }
}

impl ProjectsQueryParams {
    /// Whether the request asks for the listing alone.
    pub open spec fn wants_fragment(self) -> bool {
        self.fragment == Some(true)
    }

    /// The filter the request asks the listing with: its category, if any,
    /// and nothing else.
    pub open spec fn spec_query(self) -> ProjectQuery {
        ProjectQuery { category: self.category, featured: None, limit: None }
    }

    /// The category the request selected, or the empty text.
    pub open spec fn spec_selected_category(self) -> Seq<char> {
        match self.category {
            Some(c) => c@,
            None => Seq::<char>::empty(),
        }
    }

    /// Whether the request asks for the listing alone. A request that does
    /// not say asks for the full page.
    pub fn is_fragment(&self) -> (r: bool)
        ensures
            r == self.wants_fragment(),
    {
        match self.fragment {
            Some(f) => f,
            None => false,
        }
    }

    /// The filter to ask the store's listing with.
    pub fn query(&self) -> (query: ProjectQuery)
        ensures
            query == self.spec_query(),
            query.well_formed(),
    {
        ProjectQuery { category: copy_optional_text(&self.category), featured: None, limit: None }
    }
}

/// The message that reports that no project has the slug.
pub open spec fn not_found_message(slug: Seq<char>) -> Seq<char> {
    "Project '"@ + slug + "' not found"@
}

/// The homepage: the featured projects among `rows`, newest first.
pub fn home_handler(rows: &Vec<Project>) -> (view: ViewModel)
    ensures
        view.is_home_of(listing(rows@, featured_only())),
{
    ViewModel::Home { featured_projects: Project::featured(rows) }
}

/// The listing page. `rows` are the projects and `names` the categories the
/// store returned. A request for a fragment gets the listing alone; any
/// other gets the listing, the categories, each once and in ascending order,
/// and the category it selected.
pub fn projects_handler(
    params: &ProjectsQueryParams,
    rows: &Vec<Project>,
    names: &Vec<String>,
) -> (view: ViewModel)
    ensures
        params.wants_fragment() ==> view.is_fragment_of(listing(rows@, params.spec_query())),
        !params.wants_fragment() ==> view.is_page_of(
            listing(rows@, params.spec_query()),
            texts_of(names@),
            params.spec_selected_category(),
        ),
{
    let query = params.query();
    let projects = list_rows(rows, &query);
    if params.is_fragment() {
        ViewModel::ProjectFragment { projects }
    } else {
        let selected_category = match &params.category {
            Some(c) => c.clone(),
            None => String::new(),
        };
        ViewModel::Projects { projects, categories: distinct_sorted(names), selected_category }
    }
}

/// The page of one project. `rows` are what the store returned for `slug`.
/// Where none of them has that slug the outcome is `NotFound`, with a
/// message that names the slug.
pub fn project_detail_handler(slug: &str, rows: &Vec<Project>) -> (outcome: Result<
    ViewModel,
    AppError,
>)
    ensures
        outcome is Ok <==> has_slug(rows@, slug@),
        outcome is Ok ==> outcome->Ok_0.is_detail_of(rows@, slug@),
        outcome is Err ==> outcome->Err_0.is_not_found(not_found_message(slug@)),
{
    match Project::find_by_slug(rows, slug) {
        Some(project) => Ok(ViewModel::ProjectDetail { project }),
        None => {
            let mut message = String::from_str("Project '");
            message.append(slug);
            message.append("' not found");
            Err(AppError::NotFound(message))
        },
    }
}

/// The answer to a liveness probe.
pub fn health_handler() -> (reply: Reply)
    ensures
        reply.status == STATUS_OK,
        reply.body@ == "OK"@,
{
    Reply { status: STATUS_OK, body: String::from_str("OK") }
}

/// The answer to a request that no route takes: `document`, the site's
/// not-found page, under the not-found status.
pub fn not_found_handler(document: String) -> (reply: Reply)
    ensures
        reply.status == STATUS_NOT_FOUND,
        reply.body == document,
{
    Reply { status: STATUS_NOT_FOUND, body: document }
}

} // verus!
