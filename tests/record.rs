use arxiv_cli::record::{repair_url, SerDesArxiv};

fn test_paper() -> SerDesArxiv {
    SerDesArxiv {
        id: "".to_string(),
        updated: "".to_string(),
        published: "".to_string(),
        title: "test_title".to_string(),
        summary: "This is a test summary.".to_string(),
        authors: vec![],
        primary_category: "".to_string(),
        categories: vec![],
        pdf_url: "".to_string(),
        html_url: "".to_string(),
        comment: None,
    }
}

#[test]
fn test_serdes_arxiv_to_string() {
    let paper = test_paper();
    let json_content = paper.metadata_line();
    assert!(!json_content.contains("summary"));
}

#[test]
fn metadata_line_of_empty_record() {
    let paper = test_paper();
    assert_eq!(
        paper.metadata_line(),
        "{\"id\":\"\",\"updated\":\"\",\"published\":\"\",\"title\":\"test_title\",\"authors\":[],\"primary_category\":\"\",\"categories\":[],\"pdf_url\":\"\",\"html_url\":\"\",\"comment\":null}"
    );
}

#[test]
fn metadata_line_with_lists_and_comment() {
    let mut paper = test_paper();
    paper.id = "http://arxiv.org/abs/2401.00001v1".to_string();
    paper.authors = vec!["Ada Lovelace".to_string(), "Alan Turing".to_string()];
    paper.categories = vec!["cs.CL".to_string()];
    paper.comment = Some("12 pages".to_string());
    assert_eq!(
        paper.metadata_line(),
        "{\"id\":\"http://arxiv.org/abs/2401.00001v1\",\"updated\":\"\",\"published\":\"\",\"title\":\"test_title\",\"authors\":[\"Ada Lovelace\",\"Alan Turing\"],\"primary_category\":\"\",\"categories\":[\"cs.CL\"],\"pdf_url\":\"\",\"html_url\":\"\",\"comment\":\"12 pages\"}"
    );
}

#[test]
fn metadata_line_escapes_quotes_and_line_breaks() {
    let mut paper = test_paper();
    paper.title = "a \"quoted\"\ntitle".to_string();
    let line = paper.metadata_line();
    assert!(line.contains("\"title\":\"a \\\"quoted\\\"\\ntitle\""));
    assert!(!line.contains('\n'));
}

#[test]
fn metadata_line_ignores_summary() {
    let a = test_paper();
    let mut b = test_paper();
    b.summary = "Something else entirely.".to_string();
    assert_eq!(a.metadata_line(), b.metadata_line());
}

#[test]
fn repair_url_fixes_scheme_typo() {
    assert_eq!(repair_url("httpss://arxiv.org/pdf/2401.00001v1"), "https://arxiv.org/pdf/2401.00001v1");
    assert_eq!(repair_url("https://arxiv.org/abs/1"), "https://arxiv.org/abs/1");
    assert_eq!(repair_url("http://arxiv.org/abs/1"), "http://arxiv.org/abs/1");
    assert_eq!(repair_url(""), "");
}

#[test]
fn from_arxiv_repairs_both_links() {
    let a = arxiv::Arxiv {
        id: "id1".to_string(),
        updated: "2024-01-02".to_string(),
        published: "2024-01-01".to_string(),
        title: "A title".to_string(),
        summary: "A summary.".to_string(),
        authors: vec!["X".to_string()],
        primary_category: "cs.CL".to_string(),
        categories: vec!["cs.CL".to_string(), "cs.AI".to_string()],
        pdf_url: "httpss://arxiv.org/pdf/id1".to_string(),
        html_url: "httpss://arxiv.org/abs/id1".to_string(),
        comment: Some("c".to_string()),
    };
    let p = SerDesArxiv::from_arxiv(a);
    assert_eq!(p.pdf_url, "https://arxiv.org/pdf/id1");
    assert_eq!(p.html_url, "https://arxiv.org/abs/id1");
    assert_eq!(p.title, "A title");
    assert_eq!(p.summary, "A summary.");
    assert_eq!(p.authors, vec!["X".to_string()]);
    assert_eq!(p.categories.len(), 2);
    assert_eq!(p.comment, Some("c".to_string()));
}

#[test]
fn metadata_line_escapes_control_characters() {
    let mut paper = test_paper();
    paper.title = "a\u{1}b\tc\\d".to_string();
    let line = paper.metadata_line();
    assert!(line.contains("\"title\":\"a\\u0001b\\tc\\\\d\""));
}

#[test]
fn metadata_line_empty_comment_is_not_null() {
    let mut paper = test_paper();
    paper.comment = Some("".to_string());
    assert!(paper.metadata_line().ends_with("\"comment\":\"\"}"));
}
