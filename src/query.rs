//! The search query: its text from the command line's selectors, and the API
//! request built from it.
use vstd::prelude::*;
use vstd::string::*;

verus! {

#[verifier::external_type_specification]
pub struct ExArxivQuery(arxiv::ArxivQuery);

#[verifier::external_type_specification]
pub struct ExArxivQueryBuilder(arxiv::ArxivQueryBuilder);

/// Relies on `ArxivQueryBuilder::new`: the API's address, and every other
/// setting empty or unset.
pub assume_specification[ arxiv::ArxivQueryBuilder::new ]() -> (r: arxiv::ArxivQueryBuilder)
    ensures
        r.base_url@ == "http://export.arxiv.org/api/query?"@,
        r.search_query@.len() == 0,
        r.id_list@.len() == 0,
        r.start is None,
        r.max_results is None,
        r.sort_by@.len() == 0,
        r.sort_order@.len() == 0,
;

/// Relies on `ArxivQueryBuilder::search_query`: a copy with the search text set.
pub assume_specification[ arxiv::ArxivQueryBuilder::search_query ](
    b: &arxiv::ArxivQueryBuilder,
    search_query: &str,
) -> (r: arxiv::ArxivQueryBuilder)
    ensures
        r.base_url@ == b.base_url@,
        r.search_query@ == search_query@,
        r.id_list@ == b.id_list@,
        r.start == b.start,
        r.max_results == b.max_results,
        r.sort_by@ == b.sort_by@,
        r.sort_order@ == b.sort_order@,
;

/// Relies on `ArxivQueryBuilder::start`: a copy with the offset set.
pub assume_specification[ arxiv::ArxivQueryBuilder::start ](
    b: &arxiv::ArxivQueryBuilder,
    start: i32,
) -> (r: arxiv::ArxivQueryBuilder)
    ensures
        r.base_url@ == b.base_url@,
        r.search_query@ == b.search_query@,
        r.id_list@ == b.id_list@,
        r.start == Some(start),
        r.max_results == b.max_results,
        r.sort_by@ == b.sort_by@,
        r.sort_order@ == b.sort_order@,
;

/// Relies on `ArxivQueryBuilder::max_results`: a copy with the result limit set.
pub assume_specification[ arxiv::ArxivQueryBuilder::max_results ](
    b: &arxiv::ArxivQueryBuilder,
    max_results: i32,
) -> (r: arxiv::ArxivQueryBuilder)
    ensures
        r.base_url@ == b.base_url@,
        r.search_query@ == b.search_query@,
        r.id_list@ == b.id_list@,
        r.start == b.start,
        r.max_results == Some(max_results),
        r.sort_by@ == b.sort_by@,
        r.sort_order@ == b.sort_order@,
;

/// Relies on `ArxivQueryBuilder::sort_by`: a copy with the sort field set.
pub assume_specification[ arxiv::ArxivQueryBuilder::sort_by ](
    b: &arxiv::ArxivQueryBuilder,
    sort_by: &str,
) -> (r: arxiv::ArxivQueryBuilder)
    ensures
        r.base_url@ == b.base_url@,
        r.search_query@ == b.search_query@,
        r.id_list@ == b.id_list@,
        r.start == b.start,
        r.max_results == b.max_results,
        r.sort_by@ == sort_by@,
        r.sort_order@ == b.sort_order@,
;

/// Relies on `ArxivQueryBuilder::sort_order`: a copy with the sort order set.
pub assume_specification[ arxiv::ArxivQueryBuilder::sort_order ](
    b: &arxiv::ArxivQueryBuilder,
    sort_order: &str,
) -> (r: arxiv::ArxivQueryBuilder)
    ensures
        r.base_url@ == b.base_url@,
        r.search_query@ == b.search_query@,
        r.id_list@ == b.id_list@,
        r.start == b.start,
        r.max_results == b.max_results,
        r.sort_by@ == b.sort_by@,
        r.sort_order@ == sort_order@,
;

/// Relies on `ArxivQueryBuilder::build`: a query with the builder's settings.
pub assume_specification[ arxiv::ArxivQueryBuilder::build ](b: &arxiv::ArxivQueryBuilder) -> (r:
    arxiv::ArxivQuery)
    ensures
        r.base_url@ == b.base_url@,
        r.search_query@ == b.search_query@,
        r.id_list@ == b.id_list@,
        r.start == b.start,
        r.max_results == b.max_results,
        r.sort_by@ == b.sort_by@,
        r.sort_order@ == b.sort_order@,
;

/// The search text for a category, a free-text query, or both; none where
/// neither is given.
pub open spec fn search_text(category: Option<Seq<char>>, query: Option<Seq<char>>) -> Option<
    Seq<char>,
> {
    match (category, query) {
        (Some(c), Some(q)) => Some("cat:"@ + c + " AND "@ + q),
        (Some(c), None) => Some("cat:"@ + c),
        (None, Some(q)) => Some(q),
        (None, None) => None,
    }
}

pub open spec fn view_of(s: Option<String>) -> Option<Seq<char>> {
    match s {
        Some(t) => Some(t@),
        None => None,
    }
}

/// Builds the search text: `cat:<category> AND <query>`, `cat:<category>`, or
/// the query unchanged. `None` means that neither was given, a usage error.
pub fn build_search_query(category: Option<String>, query: Option<String>) -> (r: Option<String>)
    ensures
        view_of(r) == search_text(view_of(category), view_of(query)),
        r is None <==> category is None && query is None,
{
    match (category, query) {
        (Some(c), Some(q)) => {
            let mut s = String::from_str("cat:");
            s.append(c.as_str());
            s.append(" AND ");
            s.append(q.as_str());
            assert(s@ =~= "cat:"@ + c@ + " AND "@ + q@);
            Some(s)
        },
        (Some(c), None) => {
            let s = String::from_str("cat:");
            let s = s.concat(c.as_str());
            Some(s)
        },
        (None, Some(q)) => Some(q),
        (None, None) => None,
    }
}

/// The API request for the search text: from the first result, at most
/// `num_results` of them, newest submissions first.
pub fn make_query(search_query: &str, num_results: i32) -> (r: arxiv::ArxivQuery)
    ensures
        r.base_url@ == "http://export.arxiv.org/api/query?"@,
        r.search_query@ == search_query@,
        r.id_list@.len() == 0,
        r.start == Some(0i32),
        r.max_results == Some(num_results),
        r.sort_by@ == "submittedDate"@,
        r.sort_order@ == "descending"@,
{
    arxiv::ArxivQueryBuilder::new().search_query(search_query).start(0).max_results(
        num_results,
    ).sort_by("submittedDate").sort_order("descending").build()
}

} // verus!
