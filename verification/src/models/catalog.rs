//! What a set of rows yields: the listing a filter selects from them, the
//! featured projects, the project with a given slug, and the categories.
//!
//! The rows are the store's, handed over as plain values. Each operation
//! states its result exactly, so what it returns holds for whatever the
//! store handed back.

use crate::errors::AppError;
use crate::models::project::{Project, ProjectQuery};
use crate::text::{
    compare_text, is_ascending, lemma_precedes_transitive, precedes, same_text, texts_of,
    TextOrder,
};
use vstd::prelude::*;
use vstd::string::StringExecFns;

verus! {

/// The rows that `query` selects, in the order of `rows`.
pub open spec fn selected(rows: Seq<Project>, query: ProjectQuery) -> Seq<Project>
    decreases rows.len(),
{
    if rows.len() == 0 {
        Seq::<Project>::empty()
    } else if query.selects(rows.last()) {
        selected(rows.drop_last(), query).push(rows.last())
    } else {
        selected(rows.drop_last(), query)
    }
}

/// No row was created later than a row before it.
pub open spec fn is_newest_first(rows: Seq<Project>) -> bool {
    forall|i: int, j: int|
        0 <= i <= j < rows.len() ==> (#[trigger] rows[i]).not_older_than(#[trigger] rows[j])
}

/// Where `project` goes among `sorted`: behind the last row that was not
/// created earlier than it.
pub open spec fn slot(sorted: Seq<Project>, project: Project) -> int
    decreases sorted.len(),
{
    if sorted.len() == 0 {
        0
    } else if sorted.last().not_older_than(project) {
        sorted.len() as int
    } else {
        slot(sorted.drop_last(), project)
    }
}

/// `rows` ordered newest first. Rows created at the same time keep the order
/// they had in `rows`.
pub open spec fn newest_first(rows: Seq<Project>) -> Seq<Project>
    decreases rows.len(),
{
    if rows.len() == 0 {
        Seq::<Project>::empty()
    } else {
        let sorted = newest_first(rows.drop_last());
        sorted.insert(slot(sorted, rows.last()), rows.last())
    }
}

/// The first `limit` rows, or all of them where there are fewer or no limit
/// is set.
pub open spec fn capped(rows: Seq<Project>, limit: Option<i64>) -> Seq<Project> {
    match limit {
        Some(n) => if 0 <= n < rows.len() {
            rows.take(n as int)
        } else {
            rows
        },
        None => rows,
    }
}

/// The listing that `query` selects from `rows`: the rows that meet its
/// constraints, newest first, cut off at its limit.
pub open spec fn listing(rows: Seq<Project>, query: ProjectQuery) -> Seq<Project> {
    capped(newest_first(selected(rows, query)), query.limit)
}

/// The query behind the homepage: the featured projects, all of them.
pub open spec fn featured_only() -> ProjectQuery {
    ProjectQuery { category: None, featured: Some(true), limit: None }
}

/// `slot` is a position of `sorted` or its end; the rows from it on were
/// created earlier than `project`, and the row before it was not.
pub proof fn lemma_slot(sorted: Seq<Project>, project: Project)
    ensures
        0 <= slot(sorted, project) <= sorted.len(),
        forall|k: int|
            slot(sorted, project) <= k < sorted.len() ==> !(#[trigger] sorted[k]).not_older_than(
                project,
            ),
        slot(sorted, project) > 0 ==> sorted[slot(sorted, project) - 1].not_older_than(project),
    decreases sorted.len(),
{
    if sorted.len() > 0 && !sorted.last().not_older_than(project) {
        lemma_slot(sorted.drop_last(), project);
        assert forall|k: int| slot(sorted, project) <= k < sorted.len() implies !(
        #[trigger] sorted[k]).not_older_than(project) by {
            if k < sorted.len() - 1 {
                assert(sorted[k] == sorted.drop_last()[k]);
            }
        }
    }
}

/// Putting a row into its slot keeps the rows newest first.
pub proof fn lemma_insert_keeps_order(sorted: Seq<Project>, project: Project)
    requires
        is_newest_first(sorted),
    ensures
        is_newest_first(sorted.insert(slot(sorted, project), project)),
{
    lemma_slot(sorted, project);
    let at = slot(sorted, project);
    let out = sorted.insert(at, project);
    assert forall|i: int, j: int| 0 <= i <= j < out.len() implies (
    #[trigger] out[i]).not_older_than(#[trigger] out[j]) by {
        if i < at && j == at {
            assert(sorted[i].not_older_than(sorted[at - 1]));
        } else if i < at && j > at {
            assert(out[j] == sorted[j - 1]);
        } else if i == at && j > at {
            assert(out[j] == sorted[j - 1]);
        } else if i > at {
            assert(out[i] == sorted[i - 1]);
            assert(out[j] == sorted[j - 1]);
        }
    }
}

/// `newest_first` orders its rows and neither drops nor adds one.
pub proof fn lemma_newest_first(rows: Seq<Project>)
    ensures
        is_newest_first(newest_first(rows)),
        newest_first(rows).len() == rows.len(),
        newest_first(rows).to_multiset() == rows.to_multiset(),
    decreases rows.len(),
{
    broadcast use vstd::seq_lib::group_to_multiset_ensures;

    if rows.len() == 0 {
    } else {
        let sorted = newest_first(rows.drop_last());
        lemma_newest_first(rows.drop_last());
        lemma_slot(sorted, rows.last());
        lemma_insert_keeps_order(sorted, rows.last());
        vstd::seq_lib::to_multiset_insert(sorted, slot(sorted, rows.last()), rows.last());
        assert(rows.drop_last().push(rows.last()) =~= rows);
    }
}

/// `selected` holds exactly the rows that the query selects.
pub proof fn lemma_selected(rows: Seq<Project>, query: ProjectQuery)
    ensures
        selected(rows, query).len() <= rows.len(),
        forall|p: Project| #[trigger]
            selected(rows, query).contains(p) <==> rows.contains(p) && query.selects(p),
    decreases rows.len(),
{
    if rows.len() == 0 {
    } else {
        let rest = selected(rows.drop_last(), query);
        lemma_selected(rows.drop_last(), query);
        assert forall|p: Project| #[trigger]
            selected(rows, query).contains(p) <==> rows.contains(p) && query.selects(p) by {
            if rows.contains(p) {
                let i = choose|i: int| 0 <= i < rows.len() && rows[i] == p;
                if i < rows.len() - 1 {
                    assert(rows.drop_last()[i] == p);
                }
            }
            if rows.drop_last().contains(p) {
                let i = choose|i: int| 0 <= i < rows.drop_last().len() && rows.drop_last()[i] == p;
                assert(rows[i] == p);
            }
            if query.selects(rows.last()) {
                assert(rest.push(rows.last()).last() == rows.last());
                if rest.contains(p) {
                    let i = choose|i: int| 0 <= i < rest.len() && rest[i] == p;
                    assert(rest.push(rows.last())[i] == p);
                }
                if rest.push(rows.last()).contains(p) {
                    let i = choose|i: int|
                        0 <= i < rest.push(rows.last()).len() && rest.push(rows.last())[i] == p;
                    if i < rest.len() {
                        assert(rest[i] == p);
                    }
                }
            }
            assert(rows[rows.len() - 1] == rows.last());
        }
    }
}

impl ProjectQuery {
    /// Whether the project meets the category and the featured constraint.
    pub fn matches(&self, project: &Project) -> (r: bool)
        ensures
            r == self.selects(*project),
    {
        let category_fits = match &self.category {
            Some(c) => project.category == *c,
            None => true,
        };
        let featured_fits = match self.featured {
            Some(f) => project.featured == f,
            None => true,
        };
        category_fits && featured_fits
    }
}

/// The rows that `query` selects, newest first.
fn select_newest_first(rows: &Vec<Project>, query: &ProjectQuery) -> (sorted: Vec<Project>)
    ensures
        sorted@ == newest_first(selected(rows@, *query)),
{
    let mut sorted: Vec<Project> = Vec::new();
    let mut i: usize = 0;
    while i < rows.len()
        invariant
            i <= rows.len(),
            sorted@ == newest_first(selected(rows@.take(i as int), *query)),
        decreases rows.len() - i,
    {
        let row = &rows[i];
        proof {
            assert(rows@.take(i + 1).drop_last() =~= rows@.take(i as int));
            assert(rows@.take(i + 1).last() == rows@[i as int]);
        }
        if query.matches(row) {
            let ghost chosen = selected(rows@.take(i as int), *query);
            let mut at: usize = sorted.len();
            assert(sorted@.take(at as int) =~= sorted@);
            while at > 0 && !sorted[at - 1].is_not_older_than(row)
                invariant
                    at <= sorted.len(),
                    slot(sorted@, *row) == slot(sorted@.take(at as int), *row),
                decreases at,
            {
                proof {
                    assert(sorted@.take(at as int).drop_last() =~= sorted@.take(at - 1));
                }
                at = at - 1;
            }
            proof {
                if at > 0 {
                    assert(sorted@.take(at as int).last() == sorted@[at - 1]);
                }
                assert(slot(sorted@, *row) == at);
                assert(chosen.push(*row).drop_last() =~= chosen);
            }
            sorted.insert(at, row.clone());
        }
        i = i + 1;
    }
    assert(rows@.take(i as int) =~= rows@);
    sorted
}

/// The listing that a query with a sound limit selects from `rows`.
pub(crate) fn list_rows(rows: &Vec<Project>, query: &ProjectQuery) -> (projects: Vec<Project>)
    requires
        query.well_formed(),
    ensures
        projects@ == listing(rows@, *query),
{
    let mut projects = select_newest_first(rows, query);
    if let Some(limit) = query.limit {
        if (limit as u64) < (projects.len() as u64) {
            projects.truncate(limit as usize);
        }
    }
    projects
}

impl Project {
    /// The listing that `query` selects from `rows`: the rows that meet its
    /// constraints, newest first, at most as many as its limit allows. A
    /// query with a negative limit is rejected.
    pub fn all(rows: &Vec<Project>, query: &ProjectQuery) -> (found: Result<Vec<Project>, AppError>)
        ensures
            found is Ok <==> query.well_formed(),
            found matches Ok(projects) ==> {
                &&& projects@ == listing(rows@, *query)
                &&& forall|i: int|
                    0 <= i < projects@.len() ==> rows@.contains(#[trigger] projects@[i])
                        && query.selects(projects@[i])
                &&& is_newest_first(projects@)
                &&& query.limit matches Some(n) ==> projects@.len() <= n
            },
            found matches Err(e) ==> e.is_validation("limit must not be negative"@),
    {
        match query.validate() {
            Err(e) => Err(e),
            Ok(()) => {
                let projects = list_rows(rows, query);
                proof {
                    law_listing(rows@, *query);
                }
                Ok(projects)
            },
        }
    }

    /// The featured projects among `rows`, newest first.
    pub fn featured(rows: &Vec<Project>) -> (projects: Vec<Project>)
        ensures
            projects@ == listing(rows@, featured_only()),
            forall|i: int|
                0 <= i < projects@.len() ==> rows@.contains(#[trigger] projects@[i])
                    && projects@[i].featured,
            forall|i: int|
                0 <= i < rows@.len() && (#[trigger] rows@[i]).featured ==> projects@.contains(
                    rows@[i],
                ),
            is_newest_first(projects@),
    {
        let query = ProjectQuery { category: None, featured: Some(true), limit: None };
        let projects = select_newest_first(rows, &query);
        proof {
            law_listing(rows@, query);
            law_listing_complete(rows@, query);
        }
        projects
    }
}

/// Every row of a listing is one of the rows it was selected from and meets
/// the query; the listing is ordered newest first; and it is no longer than
/// the limit.
pub proof fn law_listing(rows: Seq<Project>, query: ProjectQuery)
    ensures
        forall|i: int|
            0 <= i < listing(rows, query).len() ==> rows.contains(
                #[trigger] listing(rows, query)[i],
            ) && query.selects(listing(rows, query)[i]),
        is_newest_first(listing(rows, query)),
        query.limit matches Some(n) ==> n >= 0 ==> listing(rows, query).len() <= n,
        listing(rows, query).len() <= rows.len(),
{
    broadcast use vstd::seq_lib::group_to_multiset_ensures;

    let chosen = selected(rows, query);
    let sorted = newest_first(chosen);
    let listed = listing(rows, query);
    lemma_selected(rows, query);
    lemma_newest_first(chosen);
    assert forall|i: int| 0 <= i < listed.len() implies rows.contains(#[trigger] listed[i])
        && query.selects(listed[i]) by {
        assert(listed[i] == sorted[i]);
        assert(sorted.contains(sorted[i]));
        assert(sorted.to_multiset().count(sorted[i]) > 0);
        assert(chosen.contains(sorted[i]));
    }
    assert forall|i: int, j: int| 0 <= i <= j < listed.len() implies (
    #[trigger] listed[i]).not_older_than(#[trigger] listed[j]) by {
        assert(listed[i] == sorted[i]);
        assert(listed[j] == sorted[j]);
    }
}

/// Without a limit, a listing holds every row that meets the query.
pub proof fn law_listing_complete(rows: Seq<Project>, query: ProjectQuery)
    requires
        query.limit is None,
    ensures
        forall|i: int|
            0 <= i < rows.len() && query.selects(#[trigger] rows[i]) ==> listing(
                rows,
                query,
            ).contains(rows[i]),
{
    broadcast use vstd::seq_lib::group_to_multiset_ensures;

    let chosen = selected(rows, query);
    lemma_selected(rows, query);
    lemma_newest_first(chosen);
    assert forall|i: int| 0 <= i < rows.len() && query.selects(#[trigger] rows[i]) implies listing(
        rows,
        query,
    ).contains(rows[i]) by {
        assert(rows.contains(rows[i]));
        assert(chosen.contains(rows[i]));
        assert(chosen.to_multiset().count(rows[i]) > 0);
    }
}

/// Two queries that select the same rows of `rows` select them in the same
/// order.
pub proof fn lemma_selected_alike(rows: Seq<Project>, first: ProjectQuery, second: ProjectQuery)
    requires
        forall|i: int|
            0 <= i < rows.len() ==> first.selects(#[trigger] rows[i]) == second.selects(rows[i]),
    ensures
        selected(rows, first) == selected(rows, second),
    decreases rows.len(),
{
    if rows.len() > 0 {
        assert forall|i: int| 0 <= i < rows.drop_last().len() implies first.selects(
            #[trigger] rows.drop_last()[i],
        ) == second.selects(rows.drop_last()[i]) by {
            assert(rows.drop_last()[i] == rows[i]);
        }
        lemma_selected_alike(rows.drop_last(), first, second);
        assert(rows.last() == rows[rows.len() - 1]);
    }
}

/// A listing asked for with `featured` set to true holds only projects of
/// the featured listing of the same rows, whatever else the query asks.
pub proof fn law_featured_listing_within(rows: Seq<Project>, query: ProjectQuery)
    requires
        query.featured == Some(true),
    ensures
        forall|i: int|
            0 <= i < listing(rows, query).len() ==> listing(rows, featured_only()).contains(
                #[trigger] listing(rows, query)[i],
            ),
{
    law_listing(rows, query);
    law_listing_complete(rows, featured_only());
    assert forall|i: int| 0 <= i < listing(rows, query).len() implies listing(
        rows,
        featured_only(),
    ).contains(#[trigger] listing(rows, query)[i]) by {
        let listed = listing(rows, query)[i];
        assert(rows.contains(listed));
        let j = choose|j: int| 0 <= j < rows.len() && rows[j] == listed;
        assert(featured_only().selects(rows[j]));
    }
}

/// A listing asked for with `featured` set to true holds the same projects
/// as the featured listing of the same rows, provided the query's other
/// constraints leave no featured row out: its category excludes none of
/// them, and its limit is not below their number.
pub proof fn law_featured_listing(rows: Seq<Project>, query: ProjectQuery)
    requires
        query.featured == Some(true),
        forall|i: int|
            0 <= i < rows.len() && (#[trigger] rows[i]).featured ==> query.selects(rows[i]),
        query.limit matches Some(n) ==> n >= selected(rows, featured_only()).len(),
    ensures
        listing(rows, query) == listing(rows, featured_only()),
        listing(rows, query).to_set() == listing(rows, featured_only()).to_set(),
{
    lemma_selected_alike(rows, query, featured_only());
    lemma_newest_first(selected(rows, featured_only()));
}

/// A query selects all of the rows that all meet it.
pub proof fn lemma_selected_keeps(rows: Seq<Project>, query: ProjectQuery)
    requires
        forall|i: int| 0 <= i < rows.len() ==> query.selects(#[trigger] rows[i]),
    ensures
        selected(rows, query) == rows,
    decreases rows.len(),
{
    if rows.len() > 0 {
        assert forall|i: int| 0 <= i < rows.drop_last().len() implies query.selects(
            #[trigger] rows.drop_last()[i],
        ) by {
            assert(rows.drop_last()[i] == rows[i]);
        }
        lemma_selected_keeps(rows.drop_last(), query);
        assert(rows.last() == rows[rows.len() - 1]);
        assert(rows.drop_last().push(rows.last()) =~= rows);
    } else {
        assert(rows =~= Seq::<Project>::empty());
    }
}

/// Rows that are newest first already stay as they are.
pub proof fn lemma_newest_first_keeps(rows: Seq<Project>)
    requires
        is_newest_first(rows),
    ensures
        newest_first(rows) == rows,
    decreases rows.len(),
{
    if rows.len() > 0 {
        let front = rows.drop_last();
        assert forall|i: int, j: int| 0 <= i <= j < front.len() implies (
        #[trigger] front[i]).not_older_than(#[trigger] front[j]) by {
            assert(front[i] == rows[i]);
            assert(front[j] == rows[j]);
        }
        lemma_newest_first_keeps(front);
        if front.len() > 0 {
            assert(front.last() == rows[rows.len() - 2]);
            assert(rows.last() == rows[rows.len() - 1]);
        }
        assert(slot(front, rows.last()) == front.len());
        assert(front.insert(front.len() as int, rows.last()) =~= rows);
    } else {
        assert(rows =~= Seq::<Project>::empty());
    }
}

/// With no constraint and no limit set, a listing holds every row, each as
/// often as the rows do.
pub proof fn law_unfiltered_listing(rows: Seq<Project>, query: ProjectQuery)
    requires
        query.category is None,
        query.featured is None,
        query.limit is None,
    ensures
        listing(rows, query).len() == rows.len(),
        listing(rows, query).to_multiset() == rows.to_multiset(),
{
    lemma_selected_keeps(rows, query);
    lemma_newest_first(rows);
}

/// Rows that are a listing for `query` already are their own listing: where
/// every row meets the query, the rows are newest first and no more than
/// the limit, listing them changes nothing.
pub proof fn law_listing_keeps_a_listing(rows: Seq<Project>, query: ProjectQuery)
    requires
        forall|i: int| 0 <= i < rows.len() ==> query.selects(#[trigger] rows[i]),
        is_newest_first(rows),
        query.limit matches Some(n) ==> rows.len() <= n,
    ensures
        listing(rows, query) == rows,
{
    lemma_selected_keeps(rows, query);
    lemma_newest_first_keeps(rows);
}

/// Listing a listing again, with the same query, changes nothing.
pub proof fn law_listing_twice(rows: Seq<Project>, query: ProjectQuery)
    requires
        query.well_formed(),
    ensures
        listing(listing(rows, query), query) == listing(rows, query),
{
    law_listing(rows, query);
    law_listing_keeps_a_listing(listing(rows, query), query);
}

/// No two rows have the same slug.
pub open spec fn slugs_are_unique(rows: Seq<Project>) -> bool {
    forall|i: int, j: int|
        0 <= i < j < rows.len() ==> (#[trigger] rows[i]).slug@ != (#[trigger] rows[j]).slug@
}

/// Some row of `rows` has the slug `slug`.
pub open spec fn has_slug(rows: Seq<Project>, slug: Seq<char>) -> bool {
    exists|i: int| 0 <= i < rows.len() && (#[trigger] rows[i]).slug@ == slug
}

/// `project` is the first row of `rows` with the slug `slug`.
pub open spec fn is_first_with_slug(rows: Seq<Project>, slug: Seq<char>, project: Project) -> bool {
    &&& project.slug@ == slug
    &&& exists|i: int|
        0 <= i < rows.len() && #[trigger] rows[i] == project && forall|j: int|
            0 <= j < i ==> (#[trigger] rows[j]).slug@ != slug
}

/// Among rows with unique slugs, a row found under a slug is the only row
/// with that slug.
pub proof fn law_slug_names_one_row(rows: Seq<Project>, i: int, j: int)
    requires
        slugs_are_unique(rows),
        0 <= i < rows.len(),
        0 <= j < rows.len(),
        rows[i].slug@ == rows[j].slug@,
    ensures
        i == j,
{
}

/// Some row of `rows` has the category `name`.
pub open spec fn has_category(rows: Seq<Project>, name: Seq<char>) -> bool {
    exists|i: int| 0 <= i < rows.len() && (#[trigger] rows[i]).category@ == name
}

/// Puts `name` into the ascending `sorted` unless it is there already.
pub fn insert_distinct(sorted: &mut Vec<String>, name: &str)
    requires
        is_ascending(texts_of(old(sorted)@)),
    ensures
        is_ascending(texts_of(final(sorted)@)),
        forall|text: Seq<char>|
            texts_of(final(sorted)@).contains(text) <==> texts_of(old(sorted)@).contains(text)
                || text == name@,
{
    let ghost before = texts_of(sorted@);
    let mut at: usize = 0;
    while at < sorted.len()
        invariant
            at <= sorted@.len(),
            texts_of(sorted@) == before,
            is_ascending(before),
            forall|k: int| 0 <= k < at ==> precedes(#[trigger] before[k], name@),
        ensures
            at < sorted@.len() ==> precedes(name@, before[at as int]),
        decreases sorted@.len() - at,
    {
        assert(before[at as int] == sorted@[at as int]@);
        match compare_text(sorted[at].as_str(), name) {
            TextOrder::Before => {
                at = at + 1;
            },
            TextOrder::Same => {
                proof {
                    assert forall|text: Seq<char>|
                        before.contains(text) <==> before.contains(text) || text == name@ by {
                        if text == name@ {
                            assert(before[at as int] == text);
                        }
                    }
                }
                return ;
            },
            TextOrder::After => {
                break ;
            },
        }
    }
    proof {
        assert forall|k: int| at <= k < before.len() implies precedes(
            name@,
            #[trigger] before[k],
        ) by {
            if k > at {
                lemma_precedes_transitive(name@, before[at as int], before[k]);
            }
        }
    }
    sorted.insert(at, String::from_str(name));
    proof {
        let after = texts_of(sorted@);
        assert(after =~= before.insert(at as int, name@));
        assert forall|i: int, j: int| 0 <= i < j < after.len() implies precedes(
            #[trigger] after[i],
            #[trigger] after[j],
        ) by {
            if i < at && j > at {
                assert(after[j] == before[j - 1]);
            } else if i == at {
                assert(after[j] == before[j - 1]);
            } else if i > at {
                assert(after[i] == before[i - 1]);
                assert(after[j] == before[j - 1]);
            }
        }
        assert forall|text: Seq<char>| after.contains(text) <==> before.contains(text) || text
            == name@ by {
            if before.contains(text) {
                let k = choose|k: int| 0 <= k < before.len() && before[k] == text;
                if k < at {
                    assert(after[k] == text);
                } else {
                    assert(after[k + 1] == text);
                }
            }
            if text == name@ {
                assert(after[at as int] == text);
            }
            if after.contains(text) {
                let k = choose|k: int| 0 <= k < after.len() && after[k] == text;
                if k < at {
                    assert(before[k] == text);
                } else if k > at {
                    assert(before[k - 1] == text);
                }
            }
        }
    }
}

/// The texts of `names`, each once, in ascending order.
pub fn distinct_sorted(names: &Vec<String>) -> (sorted: Vec<String>)
    ensures
        is_ascending(texts_of(sorted@)),
        forall|text: Seq<char>|
            texts_of(sorted@).contains(text) <==> texts_of(names@).contains(text),
{
    let mut sorted: Vec<String> = Vec::new();
    let mut i: usize = 0;
    while i < names.len()
        invariant
            i <= names@.len(),
            is_ascending(texts_of(sorted@)),
            forall|text: Seq<char>|
                texts_of(sorted@).contains(text) <==> texts_of(names@.take(i as int)).contains(
                    text,
                ),
        decreases names@.len() - i,
    {
        let ghost seen = texts_of(names@.take(i as int));
        let ghost next = texts_of(names@.take(i + 1));
        insert_distinct(&mut sorted, names[i].as_str());
        proof {
            assert(next =~= seen.push(names@[i as int]@));
            assert forall|text: Seq<char>| next.contains(text) <==> seen.contains(text) || text
                == names@[i as int]@ by {
                if seen.contains(text) {
                    let k = choose|k: int| 0 <= k < seen.len() && seen[k] == text;
                    assert(next[k] == text);
                }
                if text == names@[i as int]@ {
                    assert(next[i as int] == text);
                }
            }
        }
        i = i + 1;
    }
    assert(names@.take(i as int) =~= names@);
    sorted
}

impl Project {
    /// The project of `rows` whose slug is `slug`: the first one, should the
    /// rows hold several. `None` says that no row has that slug.
    pub fn find_by_slug(rows: &Vec<Project>, slug: &str) -> (found: Option<Project>)
        ensures
            found is Some <==> has_slug(rows@, slug@),
            found matches Some(project) ==> is_first_with_slug(rows@, slug@, project),
    {
        let mut i: usize = 0;
        while i < rows.len()
            invariant
                i <= rows@.len(),
                forall|j: int| 0 <= j < i ==> (#[trigger] rows@[j]).slug@ != slug@,
            decreases rows@.len() - i,
        {
            if same_text(rows[i].slug.as_str(), slug) {
                return Some(rows[i].clone());
            }
            i = i + 1;
        }
        None
    }

    /// The categories of `rows`, each once, in ascending order.
    pub fn categories(rows: &Vec<Project>) -> (names: Vec<String>)
        ensures
            is_ascending(texts_of(names@)),
            forall|text: Seq<char>|
                texts_of(names@).contains(text) <==> has_category(rows@, text),
    {
        let mut names: Vec<String> = Vec::new();
        let mut i: usize = 0;
        while i < rows.len()
            invariant
                i <= rows@.len(),
                is_ascending(texts_of(names@)),
                forall|text: Seq<char>|
                    texts_of(names@).contains(text) <==> has_category(rows@.take(i as int), text),
            decreases rows@.len() - i,
        {
            let ghost seen = rows@.take(i as int);
            let ghost next = rows@.take(i + 1);
            insert_distinct(&mut names, rows[i].category.as_str());
            proof {
                assert forall|text: Seq<char>|
                    has_category(next, text) <==> has_category(seen, text) || text
                        == rows@[i as int].category@ by {
                    if has_category(seen, text) {
                        let k = choose|k: int| 0 <= k < seen.len() && seen[k].category@ == text;
                        assert(next[k].category@ == text);
                    }
                    if text == rows@[i as int].category@ {
                        assert(next[i as int].category@ == text);
                    }
                    if has_category(next, text) {
                        let k = choose|k: int| 0 <= k < next.len() && next[k].category@ == text;
                        if k < i {
                            assert(seen[k].category@ == text);
                        }
                    }
                }
            }
            i = i + 1;
        }
        assert(rows@.take(i as int) =~= rows@);
        names
    }
}

} // verus!
