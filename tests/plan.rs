use arxiv_cli::plan::{join_path, plan_downloads, with_extension, Action, OutputConfig};
use arxiv_cli::record::SerDesArxiv;

fn paper(title: &str, summary: &str) -> SerDesArxiv {
    SerDesArxiv {
        id: format!("id-{}", title),
        updated: "".to_string(),
        published: "".to_string(),
        title: title.to_string(),
        summary: summary.to_string(),
        authors: vec![],
        primary_category: "cs.CL".to_string(),
        categories: vec![],
        pdf_url: format!("https://arxiv.org/pdf/{}", title),
        html_url: "".to_string(),
        comment: None,
    }
}

fn two_papers() -> Vec<SerDesArxiv> {
    vec![paper("First: one", "Summary one."), paper("Second", "Summary two.")]
}

#[test]
fn default_places() {
    let c = OutputConfig::new(true, false, true);
    assert!(c.save_metadata && !c.save_pdfs && c.save_summaries);
    assert_eq!(c.metadata_file, "metadata.jsonl");
    assert_eq!(c.pdf_dir, "pdfs");
    assert_eq!(c.text_dir, "texts");
}

#[test]
fn extension_added_once() {
    assert_eq!(with_extension("pdfs/a", ".pdf"), "pdfs/a.pdf");
    assert_eq!(with_extension("pdfs/a.pdf", ".pdf"), "pdfs/a.pdf");
    assert_eq!(with_extension("", ".txt"), ".txt");
    assert_eq!(join_path("texts", "a.txt"), "texts/a.txt");
}

#[test]
fn metadata_only_writes_one_line_per_paper() {
    let papers = two_papers();
    let steps = plan_downloads(&papers, &OutputConfig::new(true, false, false));
    assert_eq!(steps.len(), 1);
    match &steps[0] {
        Action::WriteMetadata { path, contents } => {
            assert_eq!(path, "metadata.jsonl");
            let expected = format!("{}\n{}\n", papers[0].metadata_line(), papers[1].metadata_line());
            assert_eq!(contents, &expected);
            assert_eq!(contents.lines().count(), 2);
            assert!(contents.lines().all(|l| !l.is_empty()));
        }
        other => panic!("unexpected step {:?}", other),
    }
}

#[test]
fn no_metadata_file_when_disabled() {
    let steps = plan_downloads(&two_papers(), &OutputConfig::new(false, true, true));
    assert!(!steps.iter().any(|s| matches!(s, Action::WriteMetadata { .. })));
}

#[test]
fn one_pdf_per_paper() {
    let papers = two_papers();
    let steps = plan_downloads(&papers, &OutputConfig::new(false, true, false));
    assert_eq!(
        steps,
        vec![
            Action::CreateDir { dir: "pdfs".to_string() },
            Action::FetchPdf {
                url: "https://arxiv.org/pdf/First: one".to_string(),
                path: "pdfs/First_ one.pdf".to_string(),
            },
            Action::CreateDir { dir: "pdfs".to_string() },
            Action::FetchPdf {
                url: "https://arxiv.org/pdf/Second".to_string(),
                path: "pdfs/Second.pdf".to_string(),
            },
        ]
    );
}

#[test]
fn one_summary_per_paper() {
    let papers = two_papers();
    let steps = plan_downloads(&papers, &OutputConfig::new(false, false, true));
    let writes: Vec<(String, String)> = steps
        .iter()
        .filter_map(|s| match s {
            Action::WriteSummary { path, contents } => Some((path.clone(), contents.clone())),
            _ => None,
        })
        .collect();
    assert_eq!(
        writes,
        vec![
            ("texts/First_ one.txt".to_string(), "Summary one.".to_string()),
            ("texts/Second.txt".to_string(), "Summary two.".to_string()),
        ]
    );
}

#[test]
fn all_outputs_in_order() {
    let papers = vec![paper("Only", "S.")];
    let steps = plan_downloads(&papers, &OutputConfig::new(true, true, true));
    assert_eq!(steps.len(), 5);
    assert!(matches!(&steps[1], Action::FetchPdf { path, .. } if path == "pdfs/Only.pdf"));
    assert!(matches!(&steps[3], Action::WriteSummary { path, .. } if path == "texts/Only.txt"));
    assert!(matches!(&steps[4], Action::WriteMetadata { .. }));
}

#[test]
fn nothing_to_do_with_all_flags_off() {
    assert!(plan_downloads(&two_papers(), &OutputConfig::new(false, false, false)).is_empty());
}

#[test]
fn nothing_to_do_without_papers() {
    assert!(plan_downloads(&vec![], &OutputConfig::new(true, true, true)).is_empty());
}
