//! What a run writes, decided ahead of any I/O: for each record in turn, the
//! PDF to download and the summary to write, then the metadata file.
use vstd::prelude::*;
use vstd::string::*;

use crate::record::{has_no_line_break, metadata_json, SerDesArxiv};
use crate::sanitize::{sanitize_filename, sanitized};

verus! {

/// Which outputs a run produces, and where.
#[derive(Clone, Debug)]
pub struct OutputConfig {
    pub save_metadata: bool,
    pub save_pdfs: bool,
    pub save_summaries: bool,
    pub metadata_file: String,
    pub pdf_dir: String,
    pub text_dir: String,
}

impl OutputConfig {
    /// The chosen outputs at the usual places: `metadata.jsonl`, `pdfs/` and
    /// `texts/` in the working directory.
    pub fn new(save_metadata: bool, save_pdfs: bool, save_summaries: bool) -> (r: Self)
        ensures
            r.save_metadata == save_metadata,
            r.save_pdfs == save_pdfs,
            r.save_summaries == save_summaries,
            r.metadata_file@ == "metadata.jsonl"@,
            r.pdf_dir@ == "pdfs"@,
            r.text_dir@ == "texts"@,
    {
        OutputConfig {
            save_metadata,
            save_pdfs,
            save_summaries,
            metadata_file: String::from_str("metadata.jsonl"),
            pdf_dir: String::from_str("pdfs"),
            text_dir: String::from_str("texts"),
        }
    }
}

/// One operation on the outside world.
#[derive(Clone, Debug, PartialEq, Eq)]
pub enum Action {
    /// Create the directory unless it exists.
    CreateDir { dir: String },
    /// Download the document at `url` into the file `path`, replacing it.
    FetchPdf { url: String, path: String },
    /// Write a summary into the file `path`, replacing it.
    WriteSummary { path: String, contents: String },
    /// Write the metadata lines into the file `path`, replacing it.
    WriteMetadata { path: String, contents: String },
}

/// An action as a value of specifications.
pub enum Step {
    CreateDir { dir: Seq<char> },
    FetchPdf { url: Seq<char>, path: Seq<char> },
    WriteSummary { path: Seq<char>, contents: Seq<char> },
    WriteMetadata { path: Seq<char>, contents: Seq<char> },
}

impl View for Action {
    type V = Step;

    open spec fn view(&self) -> Step {
        match self {
            Action::CreateDir { dir } => Step::CreateDir { dir: dir@ },
            Action::FetchPdf { url, path } => Step::FetchPdf { url: url@, path: path@ },
            Action::WriteSummary { path, contents } => Step::WriteSummary {
                path: path@,
                contents: contents@,
            },
            Action::WriteMetadata { path, contents } => Step::WriteMetadata {
                path: path@,
                contents: contents@,
            },
        }
    }
}

pub open spec fn ends_with(s: Seq<char>, suffix: Seq<char>) -> bool {
    suffix.len() <= s.len() && s.skip(s.len() - suffix.len()) == suffix
}

/// `path` with the extension added unless it already ends with it.
pub open spec fn with_ext(path: Seq<char>, ext: Seq<char>) -> Seq<char> {
    if ends_with(path, ext) {
        path
    } else {
        path + ext
    }
}

/// The path of `name` inside `dir`.
pub open spec fn in_dir(dir: Seq<char>, name: Seq<char>) -> Seq<char> {
    dir + "/"@ + name
}

/// Where a record's PDF goes: its sanitized title in the PDF directory.
pub open spec fn pdf_path(c: OutputConfig, p: SerDesArxiv) -> Seq<char> {
    with_ext(in_dir(c.pdf_dir@, sanitized(p.title@)), ".pdf"@)
}

/// Where a record's summary goes: its sanitized title in the text directory.
pub open spec fn summary_path(c: OutputConfig, p: SerDesArxiv) -> Seq<char> {
    in_dir(c.text_dir@, sanitized(p.title@) + ".txt"@)
}

/// The steps for one record.
pub open spec fn record_steps(c: OutputConfig, p: SerDesArxiv) -> Seq<Step> {
    (if c.save_pdfs {
        seq![
            Step::CreateDir { dir: c.pdf_dir@ },
            Step::FetchPdf { url: p.pdf_url@, path: pdf_path(c, p) },
        ]
    } else {
        Seq::empty()
    }) + (if c.save_summaries {
        seq![
            Step::CreateDir { dir: c.text_dir@ },
            Step::WriteSummary { path: summary_path(c, p), contents: p.summary@ },
        ]
    } else {
        Seq::empty()
    })
}

/// The steps for the records, one after another.
pub open spec fn records_steps(c: OutputConfig, ps: Seq<SerDesArxiv>) -> Seq<Step>
    decreases ps.len(),
{
    if ps.len() == 0 {
        Seq::empty()
    } else {
        records_steps(c, ps.drop_last()) + record_steps(c, ps.last())
    }
}

/// The lines, each followed by a line break.
pub open spec fn terminated_lines(lines: Seq<Seq<char>>) -> Seq<char>
    decreases lines.len(),
{
    if lines.len() == 0 {
        Seq::empty()
    } else {
        terminated_lines(lines.drop_last()) + lines.last() + "\n"@
    }
}

/// The metadata line of each record.
pub open spec fn metadata_lines(ps: Seq<SerDesArxiv>) -> Seq<Seq<char>> {
    ps.map_values(|p: SerDesArxiv| metadata_json(p))
}

/// Every step of a run: the records' steps, then the metadata file, written
/// once, where metadata is asked for and there is at least one record.
pub open spec fn plan(c: OutputConfig, ps: Seq<SerDesArxiv>) -> Seq<Step> {
    records_steps(c, ps) + (if c.save_metadata && ps.len() > 0 {
        seq![
            Step::WriteMetadata {
                path: c.metadata_file@,
                contents: terminated_lines(metadata_lines(ps)),
            },
        ]
    } else {
        Seq::empty()
    })
}

/// The kinds of step.
pub enum StepKind {
    Dir,
    Fetch,
    Summary,
    Metadata,
}

pub open spec fn has_kind(s: Step, k: StepKind) -> bool {
    match k {
        StepKind::Dir => s is CreateDir,
        StepKind::Fetch => s is FetchPdf,
        StepKind::Summary => s is WriteSummary,
        StepKind::Metadata => s is WriteMetadata,
    }
}

/// How many of the steps are of the kind.
pub open spec fn count_steps(s: Seq<Step>, k: StepKind) -> nat
    decreases s.len(),
{
    if s.len() == 0 {
        0
    } else {
        count_steps(s.drop_last(), k) + if has_kind(s.last(), k) {
            1nat
        } else {
            0nat
        }
    }
}

proof fn lemma_count_concat(a: Seq<Step>, b: Seq<Step>, k: StepKind)
    ensures
        count_steps(a + b, k) == count_steps(a, k) + count_steps(b, k),
    decreases b.len(),
{
    if b.len() == 0 {
        assert(a + b =~= a);
    } else {
        assert((a + b).drop_last() =~= a + b.drop_last());
        lemma_count_concat(a, b.drop_last(), k);
    }
}

proof fn lemma_count_pair(x: Step, y: Step, k: StepKind)
    ensures
        count_steps(seq![x, y], k) == (if has_kind(x, k) {
            1nat
        } else {
            0nat
        }) + (if has_kind(y, k) {
            1nat
        } else {
            0nat
        }),
{
    reveal_with_fuel(count_steps, 3);
    assert(seq![x, y].drop_last() =~= seq![x]);
    assert(seq![x].drop_last() =~= Seq::<Step>::empty());
}

/// How many steps of the kind one record takes.
pub open spec fn steps_per_record(c: OutputConfig, k: StepKind) -> nat {
    match k {
        StepKind::Dir => (if c.save_pdfs {
            1nat
        } else {
            0nat
        }) + (if c.save_summaries {
            1nat
        } else {
            0nat
        }),
        StepKind::Fetch => if c.save_pdfs {
            1nat
        } else {
            0nat
        },
        StepKind::Summary => if c.save_summaries {
            1nat
        } else {
            0nat
        },
        StepKind::Metadata => 0nat,
    }
}

proof fn lemma_record_count(c: OutputConfig, p: SerDesArxiv, k: StepKind)
    ensures
        count_steps(record_steps(c, p), k) == steps_per_record(c, k),
{
    let a = if c.save_pdfs {
        seq![
            Step::CreateDir { dir: c.pdf_dir@ },
            Step::FetchPdf { url: p.pdf_url@, path: pdf_path(c, p) },
        ]
    } else {
        Seq::empty()
    };
    let b = if c.save_summaries {
        seq![
            Step::CreateDir { dir: c.text_dir@ },
            Step::WriteSummary { path: summary_path(c, p), contents: p.summary@ },
        ]
    } else {
        Seq::empty()
    };
    lemma_count_concat(a, b, k);
    if c.save_pdfs {
        lemma_count_pair(a[0], a[1], k);
        assert(a =~= seq![a[0], a[1]]);
    }
    if c.save_summaries {
        lemma_count_pair(b[0], b[1], k);
        assert(b =~= seq![b[0], b[1]]);
    }
}

/// The records' steps hold, of each kind, as many as one record's, once per
/// record.
proof fn lemma_records_count(c: OutputConfig, ps: Seq<SerDesArxiv>, k: StepKind)
    ensures
        count_steps(records_steps(c, ps), k) == ps.len() * steps_per_record(c, k),
    decreases ps.len(),
{
    if ps.len() > 0 {
        lemma_records_count(c, ps.drop_last(), k);
        lemma_count_concat(records_steps(c, ps.drop_last()), record_steps(c, ps.last()), k);
        lemma_record_count(c, ps.last(), k);
        assert(ps.len() * steps_per_record(c, k) == (
        ps.len() - 1) * steps_per_record(c, k)
            + steps_per_record(c, k)) by (nonlinear_arith);
    }
}

/// Each step of each record's own steps stands in the records' steps.
proof fn lemma_record_step_listed(c: OutputConfig, ps: Seq<SerDesArxiv>, i: int, j: int)
    requires
        0 <= i < ps.len(),
        0 <= j < record_steps(c, ps[i]).len(),
    ensures
        records_steps(c, ps).contains(record_steps(c, ps[i])[j]),
    decreases ps.len(),
{
    let front = records_steps(c, ps.drop_last());
    let back = record_steps(c, ps.last());
    if i == ps.len() - 1 {
        assert((front + back)[front.len() + j] == back[j]);
    } else {
        assert(ps.drop_last()[i] == ps[i]);
        lemma_record_step_listed(c, ps.drop_last(), i, j);
        let w = choose|w: int| 0 <= w < front.len() && front[w] == record_steps(c, ps[i])[j];
        assert((front + back)[w] == front[w]);
    }
}

proof fn lemma_listed_in_plan(c: OutputConfig, ps: Seq<SerDesArxiv>, x: Step)
    requires
        records_steps(c, ps).contains(x),
    ensures
        plan(c, ps).contains(x),
{
    let a = records_steps(c, ps);
    let w = choose|w: int| 0 <= w < a.len() && a[w] == x;
    assert(plan(c, ps)[w] == a[w]);
}

/// With PDFs asked for, a run downloads exactly one PDF per record, each from the
/// record's link into the PDF directory; without, none.
pub proof fn lemma_one_pdf_per_record(c: OutputConfig, ps: Seq<SerDesArxiv>)
    ensures
        count_steps(plan(c, ps), StepKind::Fetch) == if c.save_pdfs {
            ps.len()
        } else {
            0
        },
        c.save_pdfs ==> forall|i: int|
            0 <= i < ps.len() ==> plan(c, ps).contains(
                Step::FetchPdf { url: (#[trigger] ps[i]).pdf_url@, path: pdf_path(c, ps[i]) },
            ),
{
    lemma_count_plan(c, ps, StepKind::Fetch);
    if c.save_pdfs {
        assert(steps_per_record(c, StepKind::Fetch) == 1);
    } else {
        assert(steps_per_record(c, StepKind::Fetch) == 0);
    }
    if c.save_pdfs {
        assert forall|i: int| 0 <= i < ps.len() implies plan(c, ps).contains(
            Step::FetchPdf { url: (#[trigger] ps[i]).pdf_url@, path: pdf_path(c, ps[i]) },
        ) by {
            assert(record_steps(c, ps[i])[1] == Step::FetchPdf {
                url: ps[i].pdf_url@,
                path: pdf_path(c, ps[i]),
            });
            lemma_record_step_listed(c, ps, i, 1);
            lemma_listed_in_plan(c, ps, record_steps(c, ps[i])[1]);
        }
    }
}

/// With summaries asked for, a run writes exactly one summary file per record,
/// each holding the record's summary as it is; without, none.
pub proof fn lemma_one_summary_per_record(c: OutputConfig, ps: Seq<SerDesArxiv>)
    ensures
        count_steps(plan(c, ps), StepKind::Summary) == if c.save_summaries {
            ps.len()
        } else {
            0
        },
        c.save_summaries ==> forall|i: int|
            0 <= i < ps.len() ==> plan(c, ps).contains(
                Step::WriteSummary {
                    path: summary_path(c, #[trigger] ps[i]),
                    contents: ps[i].summary@,
                },
            ),
{
    lemma_count_plan(c, ps, StepKind::Summary);
    if c.save_summaries {
        assert(steps_per_record(c, StepKind::Summary) == 1);
    } else {
        assert(steps_per_record(c, StepKind::Summary) == 0);
    }
    if c.save_summaries {
        assert forall|i: int| 0 <= i < ps.len() implies plan(c, ps).contains(
            Step::WriteSummary {
                path: summary_path(c, #[trigger] ps[i]),
                contents: ps[i].summary@,
            },
        ) by {
            let j: int = if c.save_pdfs {
                3
            } else {
                1
            };
            assert(record_steps(c, ps[i])[j] == Step::WriteSummary {
                path: summary_path(c, ps[i]),
                contents: ps[i].summary@,
            });
            lemma_record_step_listed(c, ps, i, j);
            lemma_listed_in_plan(c, ps, record_steps(c, ps[i])[j]);
        }
    }
}

proof fn lemma_count_plan(c: OutputConfig, ps: Seq<SerDesArxiv>, k: StepKind)
    ensures
        count_steps(plan(c, ps), k) == ps.len() * steps_per_record(c, k) + if c.save_metadata && ps.len() > 0 && k is Metadata {
            1nat
        } else {
            0nat
        },
{
    lemma_records_count(c, ps, k);
    let tail = if c.save_metadata && ps.len() > 0 {
        seq![
            Step::WriteMetadata {
                path: c.metadata_file@,
                contents: terminated_lines(metadata_lines(ps)),
            },
        ]
    } else {
        Seq::empty()
    };
    lemma_count_concat(records_steps(c, ps), tail, k);
    reveal_with_fuel(count_steps, 2);
    if tail.len() > 0 {
        assert(tail.drop_last() =~= Seq::<Step>::empty());
    }
    assert(plan(c, ps) == records_steps(c, ps) + tail);
}

/// The metadata file is written once, where metadata is asked for and there is a
/// record, and never where metadata is not asked for.
pub proof fn lemma_metadata_written_once(c: OutputConfig, ps: Seq<SerDesArxiv>)
    ensures
        count_steps(plan(c, ps), StepKind::Metadata) == if c.save_metadata && ps.len() > 0 {
            1nat
        } else {
            0nat
        },
{
    lemma_count_plan(c, ps, StepKind::Metadata);
    assert(steps_per_record(c, StepKind::Metadata) == 0);
}

/// With no output asked for, or no record, a run does nothing at all: it
/// creates no directory and writes no file.
pub proof fn lemma_nothing_to_do(c: OutputConfig, ps: Seq<SerDesArxiv>)
    requires
        (!c.save_metadata && !c.save_pdfs && !c.save_summaries) || ps.len() == 0,
    ensures
        plan(c, ps).len() == 0,
    decreases ps.len(),
{
    if ps.len() > 0 {
        lemma_nothing_to_do(c, ps.drop_last());
    }
}

/// Whether `path` ends with `suffix`.
pub fn path_ends_with(path: &str, suffix: &str) -> (r: bool)
    ensures
        r == ends_with(path@, suffix@),
{
    let n = path.unicode_len();
    let m = suffix.unicode_len();
    if m > n {
        return false;
    }
    let start = n - m;
    let mut k: usize = 0;
    while k < m
        invariant
            n == path@.len(),
            m == suffix@.len(),
            start == n - m,
            k <= m,
            forall|j: int| 0 <= j < k ==> path@[start + j] == suffix@[j],
        decreases m - k,
    {
        if path.get_char(start + k) != suffix.get_char(k) {
            assert(path@.skip(start as int)[k as int] != suffix@[k as int]);
            return false;
        }
        k += 1;
    }
    assert(path@.skip(start as int) =~= suffix@);
    true
}

/// `path` with the extension `ext` added, unless it already ends with it.
pub fn with_extension(path: &str, ext: &str) -> (r: String)
    ensures
        r@ == with_ext(path@, ext@),
{
    if path_ends_with(path, ext) {
        String::from_str(path)
    } else {
        String::from_str(path).concat(ext)
    }
}

/// The path of `name` inside the directory `dir`.
pub fn join_path(dir: &str, name: &str) -> (r: String)
    ensures
        r@ == in_dir(dir@, name@),
{
    let mut p = String::from_str(dir);
    p.append("/");
    p.append(name);
    p
}

/// The steps of a run over `papers`, in the order in which they must be
/// carried out. With metadata asked for and at least one paper, the last step
/// writes the metadata file: one non-empty line per paper, each ended by a line
/// break and holding none inside.
pub fn plan_downloads(papers: &Vec<SerDesArxiv>, config: &OutputConfig) -> (r: Vec<Action>)
    ensures
        r@.map_values(|a: Action| a@) == plan(*config, papers@),
        config.save_metadata && papers@.len() > 0 ==> {
            &&& metadata_lines(papers@).len() == papers@.len()
            &&& forall|j: int|
                0 <= j < papers@.len() ==> #[trigger] metadata_lines(papers@)[j].len() > 0
                    && has_no_line_break(metadata_lines(papers@)[j])
        },
{
    let ghost c = *config;
    let ghost ps = papers@;
    let mut actions: Vec<Action> = Vec::new();
    let mut buffer = String::new();
    let n = papers.len();
    let mut i: usize = 0;
    while i < n
        invariant
            n == ps.len(),
            ps == papers@,
            c == *config,
            i <= n,
            actions@.map_values(|a: Action| a@) == records_steps(c, ps.take(i as int)),
            buffer@ == (if c.save_metadata {
                terminated_lines(metadata_lines(ps.take(i as int)))
            } else {
                Seq::empty()
            }),
            c.save_metadata ==> forall|j: int|
                0 <= j < i ==> #[trigger] metadata_json(ps[j]).len() > 0 && has_no_line_break(
                    metadata_json(ps[j]),
                ),
        decreases n - i,
    {
        let paper = &papers[i];
        let ghost before = actions@.map_values(|a: Action| a@);
        assert(ps.take(i + 1).drop_last() =~= ps.take(i as int));
        assert(metadata_lines(ps.take(i + 1)).drop_last() =~= metadata_lines(ps.take(i as int)));
        if config.save_metadata {
            let line = paper.metadata_line();
            buffer.append(line.as_str());
            buffer.append("\n");
        }
        let ghost mid = actions@.map_values(|a: Action| a@);
        if config.save_pdfs {
            actions.push(Action::CreateDir { dir: config.pdf_dir.clone() });
            let name = sanitize_filename(paper.title.as_str());
            let base = join_path(config.pdf_dir.as_str(), name.as_str());
            let path = with_extension(base.as_str(), ".pdf");
            actions.push(Action::FetchPdf { url: paper.pdf_url.clone(), path });
        }
        if config.save_summaries {
            actions.push(Action::CreateDir { dir: config.text_dir.clone() });
            let name = sanitize_filename(paper.title.as_str());
            let file = name.concat(".txt");
            let path = join_path(config.text_dir.as_str(), file.as_str());
            actions.push(Action::WriteSummary { path, contents: paper.summary.clone() });
        }
        assert(actions@.map_values(|a: Action| a@) =~= before + record_steps(c, ps[i as int]));
        i += 1;
    }
    assert(ps.take(n as int) =~= ps);
    if config.save_metadata && n > 0 {
        let ghost before = actions@.map_values(|a: Action| a@);
        actions.push(Action::WriteMetadata { path: config.metadata_file.clone(), contents: buffer });
        assert(actions@.map_values(|a: Action| a@) =~= before + seq![
            Step::WriteMetadata {
                path: c.metadata_file@,
                contents: terminated_lines(metadata_lines(ps)),
            },
        ]);
    } else {
        assert(actions@.map_values(|a: Action| a@) =~= plan(c, ps));
    }
    actions
}

} // verus!
