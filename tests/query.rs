use arxiv_cli::query::{build_search_query, make_query};

#[test]
fn search_query_from_category_and_query() {
    assert_eq!(
        build_search_query(Some("cs.CL".to_string()), Some("graphrag".to_string())),
        Some("cat:cs.CL AND graphrag".to_string())
    );
}

#[test]
fn search_query_from_category_only() {
    assert_eq!(build_search_query(Some("cs.AI".to_string()), None), Some("cat:cs.AI".to_string()));
}

#[test]
fn search_query_from_query_only() {
    assert_eq!(
        build_search_query(None, Some("machine learning".to_string())),
        Some("machine learning".to_string())
    );
}

#[test]
fn search_query_needs_one_selector() {
    assert_eq!(build_search_query(None, None), None);
}

#[test]
fn request_settings() {
    let q = make_query("cat:cs.CL", 5);
    assert_eq!(q.search_query, "cat:cs.CL");
    assert_eq!(q.start, Some(0));
    assert_eq!(q.max_results, Some(5));
    assert_eq!(q.sort_by, "submittedDate");
    assert_eq!(q.sort_order, "descending");
    assert_eq!(q.base_url, "http://export.arxiv.org/api/query?");
}
