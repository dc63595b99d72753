//! The statements that ask the store for projects.
//!
//! A statement is text with `?` placeholders and the values bound to them,
//! in the order of the placeholders. A value a caller supplied as text is
//! always bound and never written into the statement. The one value that is
//! written out is the row limit, a validated number.

use crate::errors::AppError;
use crate::models::project::ProjectQuery;
use crate::text::{decimal, push_decimal, texts_of};
use vstd::prelude::*;
use vstd::string::StringExecFns;

verus! {

/// One constraint of a statement: the text that adds it to the `WHERE`
/// clause, holding one placeholder, and the value bound to that placeholder.
#[derive(Debug)]
pub struct Predicate {
    pub fragment: String,
    pub parameter: String,
}

/// A statement ready to be executed: its text and the values for its
/// placeholders, first placeholder first.
#[derive(Debug)]
pub struct SqlStatement {
    pub text: String,
    pub params: Vec<String>,
}

/// How the store writes a boolean.
pub open spec fn flag_text(flag: bool) -> Seq<char> {
    if flag {
        "1"@
    } else {
        "0"@
    }
}

/// The fragments of `predicates`, one after the other.
pub open spec fn joined_fragments(predicates: Seq<Predicate>) -> Seq<char>
    decreases predicates.len(),
{
    if predicates.len() == 0 {
        Seq::<char>::empty()
    } else {
        joined_fragments(predicates.drop_last()) + predicates.last().fragment@
    }
}

/// The parameters of `predicates`, in order.
pub open spec fn bound_values(predicates: Seq<Predicate>) -> Seq<Seq<char>> {
    Seq::new(predicates.len(), |i: int| predicates[i].parameter@)
}

/// The fragment and the parameter of each of `predicates`, as texts.
pub open spec fn pairs_of(predicates: Seq<Predicate>) -> Seq<(Seq<char>, Seq<char>)> {
    Seq::new(predicates.len(), |i: int| (predicates[i].fragment@, predicates[i].parameter@))
}

impl SqlStatement {
    /// The values bound to the placeholders, as texts.
    pub open spec fn bound(self) -> Seq<Seq<char>> {
        texts_of(self.params@)
    }
}

impl ProjectQuery {
    /// The query's constraints as predicates: the category first, then the
    /// featured flag, each only where it is set.
    pub open spec fn spec_predicates(self) -> Seq<(Seq<char>, Seq<char>)> {
        (match self.category {
            Some(c) => seq![(" AND category = ?"@, c@)],
            None => Seq::<(Seq<char>, Seq<char>)>::empty(),
        }) + (match self.featured {
            Some(f) => seq![(" AND featured = ?"@, flag_text(f))],
            None => Seq::<(Seq<char>, Seq<char>)>::empty(),
        })
    }

    /// The part of the `WHERE` clause that the query's constraints add.
    pub open spec fn spec_where_text(self) -> Seq<char> {
        (if self.category is Some {
            " AND category = ?"@
        } else {
            Seq::<char>::empty()
        }) + (if self.featured is Some {
            " AND featured = ?"@
        } else {
            Seq::<char>::empty()
        })
    }

    /// The clause that caps the number of rows.
    pub open spec fn spec_limit_text(self) -> Seq<char> {
        match self.limit {
            Some(n) => " LIMIT "@ + decimal(n as nat),
            None => Seq::<char>::empty(),
        }
    }

    /// The text of the statement that selects the listing: every row, then
    /// one predicate for each constraint that is set, newest first, capped.
    pub open spec fn spec_statement_text(self) -> Seq<char> {
        "SELECT * FROM projects WHERE 1=1"@ + self.spec_where_text()
            + " ORDER BY created_at DESC"@ + self.spec_limit_text()
    }

    /// The values bound to the statement's placeholders: the category, then
    /// the featured flag, each only where it is set.
    pub open spec fn spec_statement_params(self) -> Seq<Seq<char>> {
        (match self.category {
            Some(c) => seq![c@],
            None => Seq::<Seq<char>>::empty(),
        }) + (match self.featured {
            Some(f) => seq![flag_text(f)],
            None => Seq::<Seq<char>>::empty(),
        })
    }

    /// Rejects a query whose limit is negative.
    pub fn validate(&self) -> (checked: Result<(), AppError>)
        ensures
            checked is Ok <==> self.well_formed(),
            checked matches Err(e) ==> e.is_validation("limit must not be negative"@),
    {
        match self.limit {
            Some(n) => {
                if n < 0 {
                    Err(AppError::Validation(String::from_str("limit must not be negative")))
                } else {
                    Ok(())
                }
            },
            None => Ok(()),
        }
    }

    /// The constraints that are set, as predicates in the order in which the
    /// statement holds them.
    pub fn predicates(&self) -> (predicates: Vec<Predicate>)
        ensures
            pairs_of(predicates@) == self.spec_predicates(),
    {
        let mut predicates: Vec<Predicate> = Vec::new();
        if let Some(category) = &self.category {
            predicates.push(
                Predicate {
                    fragment: String::from_str(" AND category = ?"),
                    parameter: category.clone(),
                },
            );
        }
        if let Some(featured) = self.featured {
            let flag = if featured {
                "1"
            } else {
                "0"
            };
            predicates.push(
                Predicate {
                    fragment: String::from_str(" AND featured = ?"),
                    parameter: String::from_str(flag),
                },
            );
        }
        assert(pairs_of(predicates@) =~= self.spec_predicates());
        predicates
    }
}

/// Joined, the predicates of a query are its `WHERE` text, and their
/// parameters are the values its statement binds, in the same order.
pub proof fn lemma_predicates_join(predicates: Seq<Predicate>, query: ProjectQuery)
    requires
        pairs_of(predicates) == query.spec_predicates(),
    ensures
        joined_fragments(predicates) == query.spec_where_text(),
        bound_values(predicates) == query.spec_statement_params(),
{
    let pairs = query.spec_predicates();
    let first = match query.category {
        Some(c) => seq![(" AND category = ?"@, c@)],
        None => Seq::<(Seq<char>, Seq<char>)>::empty(),
    };
    let second = match query.featured {
        Some(f) => seq![(" AND featured = ?"@, flag_text(f))],
        None => Seq::<(Seq<char>, Seq<char>)>::empty(),
    };
    assert(pairs == first + second);
    assert(predicates.len() == pairs_of(predicates).len());
    assert forall|i: int| 0 <= i < predicates.len() implies predicates[i].fragment@ == pairs[i].0
        && predicates[i].parameter@ == pairs[i].1 by {
        assert(pairs_of(predicates)[i] == pairs[i]);
    }
    reveal_with_fuel(joined_fragments, 3);
    if predicates.len() == 1 {
        assert(predicates.drop_last().len() == 0);
        assert(pairs[0] == if first.len() == 1 {
            first[0]
        } else {
            second[0]
        });
    } else if predicates.len() == 2 {
        assert(predicates.drop_last().len() == 1);
        assert(predicates.drop_last().last() == predicates[0]);
        assert(predicates.drop_last().drop_last().len() == 0);
        assert(pairs[0] == first[0]);
        assert(pairs[1] == second[0]);
    }
    assert(joined_fragments(predicates) =~= query.spec_where_text());
    assert(bound_values(predicates) =~= query.spec_statement_params());
}

/// The text of a statement depends on which constraints are set and on the
/// limit, never on a constraint's value: no category can change the
/// statement it is bound to.
pub proof fn law_statement_text_ignores_values(first: ProjectQuery, second: ProjectQuery)
    requires
        first.category is Some <==> second.category is Some,
        first.featured is Some <==> second.featured is Some,
        first.limit == second.limit,
    ensures
        first.spec_statement_text() == second.spec_statement_text(),
{
}

/// A statement binds one value for each constraint that is set.
pub proof fn law_statement_binds_each_constraint(query: ProjectQuery)
    ensures
        query.spec_statement_params().len() == (if query.category is Some {
            1int
        } else {
            0int
        }) + (if query.featured is Some {
            1int
        } else {
            0int
        }),
        query.category matches Some(c) ==> query.spec_statement_params()[0] == c@,
{
}

impl SqlStatement {
    /// The statement that selects the listing `query` asks for. A query with
    /// a negative limit is rejected, and nothing is built.
    pub fn listing(query: &ProjectQuery) -> (built: Result<SqlStatement, AppError>)
        ensures
            built is Ok <==> query.well_formed(),
            built matches Ok(statement) ==> statement.text@ == query.spec_statement_text()
                && statement.bound() == query.spec_statement_params(),
            built matches Err(e) ==> e.is_validation("limit must not be negative"@),
    {
        match query.validate() {
            Err(e) => Err(e),
            Ok(()) => {
                let predicates = query.predicates();
                proof {
                    lemma_predicates_join(predicates@, *query);
                }
                let mut text = String::from_str("SELECT * FROM projects WHERE 1=1");
                let mut params: Vec<String> = Vec::new();
                let mut i: usize = 0;
                while i < predicates.len()
                    invariant
                        i <= predicates.len(),
                        text@ == "SELECT * FROM projects WHERE 1=1"@ + joined_fragments(
                            predicates@.take(i as int),
                        ),
                        params@.len() == i,
                        forall|j: int|
                            0 <= j < i ==> (#[trigger] params@[j])@ == predicates@[j].parameter@,
                    decreases predicates.len() - i,
                {
                    let predicate = &predicates[i];
                    text.append(predicate.fragment.as_str());
                    params.push(predicate.parameter.clone());
                    proof {
                        let next = predicates@.take(i + 1);
                        assert(next.drop_last() =~= predicates@.take(i as int));
                        assert(next.last() == predicates@[i as int]);
                    }
                    i = i + 1;
                }
                assert(predicates@.take(i as int) =~= predicates@);
                assert(texts_of(params@) =~= bound_values(predicates@));
                text.append(" ORDER BY created_at DESC");
                if let Some(limit) = query.limit {
                    text.append(" LIMIT ");
                    push_decimal(&mut text, limit as u64);
                }
                assert(text@ =~= query.spec_statement_text());
                Ok(SqlStatement { text, params })
            },
        }
    }

    /// The statement that selects the featured projects, newest first.
    pub fn featured() -> (statement: SqlStatement)
        ensures
            statement.text@
                == "SELECT * FROM projects WHERE featured = true ORDER BY created_at DESC"@,
            statement.params@.len() == 0,
    {
        SqlStatement {
            text: String::from_str(
                "SELECT * FROM projects WHERE featured = true ORDER BY created_at DESC",
            ),
            params: Vec::new(),
        }
    }

    /// The statement that selects the project named `slug`. The slug is
    /// bound, not written into the text.
    pub fn by_slug(slug: &str) -> (statement: SqlStatement)
        ensures
            statement.text@ == "SELECT * FROM projects WHERE slug = ?"@,
            statement.bound() == seq![slug@],
    {
        let mut params: Vec<String> = Vec::new();
        params.push(String::from_str(slug));
        assert(texts_of(params@) =~= seq![slug@]);
        SqlStatement { text: String::from_str("SELECT * FROM projects WHERE slug = ?"), params }
    }

    /// The statement that selects each category once, in ascending order.
    pub fn categories() -> (statement: SqlStatement)
        ensures
            statement.text@ == "SELECT DISTINCT category FROM projects ORDER BY category"@,
            statement.params@.len() == 0,
    {
        SqlStatement {
            text: String::from_str("SELECT DISTINCT category FROM projects ORDER BY category"),
            params: Vec::new(),
        }
    }
}

} // verus!
