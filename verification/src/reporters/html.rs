//! The HTML report format.

use crate::report::{capped, CoverageReport, CoverageSummary, LineCoverage};
use crate::reporter::{escape_html, escaped};
use crate::text::{decimal, joined, lemma_joined_step, lines_of, push_decimal, source_lines};
use std::collections::BTreeMap;
use vstd::prelude::*;
use vstd::string::*;

verus! {

/// Settings of the HTML report.
#[derive(Debug, Clone, PartialEq, Eq)]
pub struct HtmlReporter {
    /// Title of the report.
    pub title: String,
    /// Whether the stylesheet is put into each page (true) or referenced
    /// as a file of its own (false).
    pub inline_css: bool,
}

/// How a percentage is shown.
#[derive(Debug, Clone, PartialEq, Eq)]
pub struct PercentText {
    /// The color class of the percentage: `high`, `medium` or `low`.
    pub class: String,
    /// The percentage with one decimal place and a percent sign.
    pub text: String,
    /// The percentage as a plain number: the width of its bar.
    pub number: String,
}

/// How the three percentages of a summary are shown.
#[derive(Debug, Clone, PartialEq, Eq)]
pub struct SummaryText {
    /// The share of covered lines.
    pub lines: PercentText,
    /// The share of covered functions.
    pub functions: PercentText,
    /// The share of covered branches.
    pub branches: PercentText,
}

impl HtmlReporter {
    /// A reporter with the title "Coverage Report" and the stylesheet in
    /// each page.
    pub fn new() -> (reporter: Self)
        ensures
            reporter.title@ == "Coverage Report"@,
            reporter.inline_css,
    {
        HtmlReporter { title: "Coverage Report".to_owned(), inline_css: true }
    }

    /// A reporter with a title of its own and the stylesheet in each page.
    pub fn with_title(title: String) -> (reporter: Self)
        ensures
            reporter.title == title,
            reporter.inline_css,
    {
        HtmlReporter { title, inline_css: true }
    }

    /// The file extension of the format.
    pub fn extension(&self) -> (extension: &'static str)
        ensures
            extension@ == "html"@,
    {
        "html"
    }

    /// The name of the format.
    pub fn format_name(&self) -> (name: &'static str)
        ensures
            name@ == "html"@,
    {
        "html"
    }

    /// The stylesheet of the report.
    pub fn css() -> (sheet: &'static str)
        ensures
            sheet@ == stylesheet(),
    {
        STYLESHEET
    }

    /// The name of the page of a file, without extension: the path of the
    /// file with each separator replaced by an underscore.
    pub fn page_name(file: &str) -> (name: String)
        ensures
            name@ == page_name_of(file@),
    {
        let mut name = String::new();
        let ghost path = file@;
        for c in it: file.chars()
            invariant
                it.seq() == path,
                name@ == page_name_of(path.subrange(0, it.index())),
        {
            if c == '/' || c == '\\' {
                name.push('_');
            } else {
                name.push(c);
            }
        }
        name
    }

    /// The summary cards: for lines, functions and branches the percentage
    /// as it is shown, the covered count, the total and a bar. What is
    /// shown of the percentages is put into the cards as it is.
    pub fn render_summary(summary: &CoverageSummary, shown: &SummaryText) -> (cards: String)
        ensures
            cards@ == summary_cards(*summary, *shown),
    {
        let mut cards = String::new();
        cards.append(
            "<div class=\"summary-card\">\n    <h2>Coverage Summary</h2>\n    <div class=\"summary-grid\">\n",
        );
        push_metric_card(
            &mut cards,
            "Lines",
            summary.covered_lines,
            summary.total_lines,
            &shown.lines,
        );
        push_metric_card(
            &mut cards,
            "Functions",
            summary.covered_functions,
            summary.total_functions,
            &shown.functions,
        );
        push_metric_card(
            &mut cards,
            "Branches",
            summary.covered_branches,
            summary.total_branches,
            &shown.branches,
        );
        cards.append("    </div>\n</div>");
        cards
    }

    /// The list of files of the index page: one row per report, with a
    /// link to the page of the file and the percentages of the file as
    /// they are shown. `shown` holds, report by report, how the
    /// percentages are shown; a report for which it holds nothing gets no
    /// row.
    pub fn render_file_list(reports: &[CoverageReport], shown: &[SummaryText]) -> (list: String)
        ensures
            list@ == file_list(listed(reports@, shown@)),
    {
        let rows = if reports.len() <= shown.len() {
            reports.len()
        } else {
            shown.len()
        };
        let ghost entries = listed(reports@, shown@);
        let mut list = String::new();
        list.append(
            "<div class=\"file-list\">\n    <div class=\"file-header\">\n        <span>File</span>\n        <span>Lines</span>\n        <span>Functions</span>\n        <span>Branches</span>\n    </div>\n    ",
        );
        let ghost head = list@;
        let mut i: usize = 0;
        while i < rows
            invariant
                0 <= i <= rows,
                rows == entries.len(),
                rows <= reports.len(),
                rows <= shown.len(),
                entries == listed(reports@, shown@),
                list@ == head + joined(
                    entries.subrange(0, i as int),
                    |entry: (CoverageReport, SummaryText)| file_row(entry.0.file@, entry.1),
                ),
            decreases rows - i,
        {
            proof {
                lemma_joined_step(
                    entries,
                    |entry: (CoverageReport, SummaryText)| file_row(entry.0.file@, entry.1),
                    i as int,
                );
            }
            push_file_row(&mut list, reports[i].file.as_str(), &shown[i]);
            i += 1;
        }
        assert(entries.subrange(0, i as int) =~= entries);
        list.append("\n</div>");
        list
    }

    /// The index page: the title, the summary of all files and the list
    /// of files. Summary and list come as HTML and are put into the page
    /// as they are; the title is escaped.
    pub fn render_index(&self, summary_html: &str, file_list_html: &str) -> (page: String)
        ensures
            page@ == index_page(self.title@, summary_html@, file_list_html@),
    {
        let title = escape_html(self.title.as_str());
        let mut page = String::new();
        page.append(
            "<!DOCTYPE html>\n<html lang=\"en\">\n<head>\n    <meta charset=\"UTF-8\">\n    <meta name=\"viewport\" content=\"width=device-width, initial-scale=1.0\">\n    <title>",
        );
        page.append(title.as_str());
        page.append("</title>\n    <style>");
        page.append(HtmlReporter::css());
        page.append("</style>\n</head>\n<body>\n    <div class=\"container\">\n        <h1>");
        page.append(title.as_str());
        page.append("</h1>\n        ");
        page.append(summary_html);
        page.append("\n        <h2>Files</h2>\n        ");
        page.append(file_list_html);
        page.append("\n    </div>\n</body>\n</html>");
        page
    }

    /// The page of one file: its summary and its source, line by line,
    /// each line marked as covered, uncovered or without a probe. The
    /// summary comes as HTML and is put into the page as it is; all other
    /// text is escaped.
    pub fn render_file_page(
        &self,
        report: &CoverageReport,
        source_content: &str,
        summary_html: &str,
    ) -> (page: String)
        ensures
            page@ == file_page(
                self.title@,
                report.file@,
                summary_html@,
                source_rows(report.lines@, lines_of(source_content@)),
            ),
    {
        let file = escape_html(report.file.as_str());
        let title = escape_html(self.title.as_str());
        let rows = render_source_rows(&report.lines, source_content);
        let mut page = String::new();
        push_page_head(&mut page, file.as_str(), title.as_str());
        push_page_body(&mut page, file.as_str(), summary_html, rows.as_str());
        page
    }
}

/// A character of a path as it stands in a page name: an underscore for
/// a separator.
pub open spec fn flat(c: char) -> char {
    if c == '/' || c == '\\' {
        '_'
    } else {
        c
    }
}

/// The page name of a file path.
pub open spec fn page_name_of(file: Seq<char>) -> Seq<char> {
    file.map_values(|c: char| flat(c))
}

/// The class of a source line: `covered`, `uncovered`, or none for a line
/// without a record.
pub open spec fn row_class(records: Map<u32, LineCoverage>, number: u32) -> Seq<char> {
    if records.contains_key(number) && records[number].covered {
        "covered"@
    } else if records.contains_key(number) {
        "uncovered"@
    } else {
        Seq::empty()
    }
}

/// The hits shown beside a source line: the hit count of a covered line,
/// 0 for an uncovered line, nothing for a line without a record.
pub open spec fn row_hits(records: Map<u32, LineCoverage>, number: u32) -> Seq<char> {
    if records.contains_key(number) && records[number].covered {
        decimal(records[number].hit_count as nat)
    } else if records.contains_key(number) {
        "0"@
    } else {
        Seq::empty()
    }
}

/// The row of one source line.
pub open spec fn source_row(records: Map<u32, LineCoverage>, number: u32, content: Seq<char>)
    -> Seq<char> {
    "<div class=\"source-line "@ + row_class(records, number)
        + "\">\n    <span class=\"line-number\">"@ + decimal(number as nat)
        + "</span>\n    <span class=\"line-hits\">"@ + row_hits(records, number)
        + "</span>\n    <span class=\"line-content\">"@ + escaped(content) + "</span>\n</div>"@
}

/// The rows of the source lines, one after the other. Lines are numbered
/// from 1; the numbers stop at `u32::MAX`.
pub open spec fn source_rows(records: Map<u32, LineCoverage>, lines: Seq<Seq<char>>) -> Seq<char>
    decreases lines.len(),
{
    if lines.len() == 0 {
        Seq::empty()
    } else {
        source_rows(records, lines.drop_last()) + source_row(
            records,
            capped(lines.len() as int),
            lines.last(),
        )
    }
}

/// The card of one metric.
pub open spec fn metric_card(label: Seq<char>, covered: u32, total: u32, shown: PercentText) -> Seq<
    char,
> {
    "        <div class=\"metric\">\n            <div class=\"metric-value "@ + shown.class@
        + "\">"@ + shown.text@ + "</div>\n            <div class=\"metric-label\">"@ + label
        + " ("@ + decimal(covered as nat) + "/"@ + decimal(total as nat)
        + ")</div>\n            <div class=\"progress-bar\">\n                <div class=\"progress-fill "@
        + shown.class@ + "\" style=\"width: "@ + shown.number@
        + "%\"></div>\n            </div>\n        </div>\n"@
}

/// The summary cards.
pub open spec fn summary_cards(summary: CoverageSummary, shown: SummaryText) -> Seq<char> {
    "<div class=\"summary-card\">\n    <h2>Coverage Summary</h2>\n    <div class=\"summary-grid\">\n"@
        + metric_card("Lines"@, summary.covered_lines, summary.total_lines, shown.lines)
        + metric_card(
        "Functions"@,
        summary.covered_functions,
        summary.total_functions,
        shown.functions,
    ) + metric_card(
        "Branches"@,
        summary.covered_branches,
        summary.total_branches,
        shown.branches,
    ) + "    </div>\n</div>"@
}

/// The cell of one percentage in the row of a file.
pub open spec fn percent_cell(shown: PercentText) -> Seq<char> {
    "\n    <span class=\""@ + shown.class@ + "\">"@ + shown.text@ + "</span>"@
}

/// The row of one file in the list of files.
pub open spec fn file_row(file: Seq<char>, shown: SummaryText) -> Seq<char> {
    "<a href=\""@ + escaped(page_name_of(file)) + ".html\" class=\"file-row\">\n    <span>"@
        + escaped(file) + "</span>"@ + percent_cell(shown.lines) + percent_cell(shown.functions)
        + percent_cell(shown.branches) + "\n</a>"@
}

/// The reports that have their percentages, each with them.
pub open spec fn listed(reports: Seq<CoverageReport>, shown: Seq<SummaryText>) -> Seq<
    (CoverageReport, SummaryText),
> {
    Seq::new(
        if reports.len() <= shown.len() {
            reports.len()
        } else {
            shown.len()
        },
        |i: int| (reports[i], shown[i]),
    )
}

/// The list of files.
pub open spec fn file_list(entries: Seq<(CoverageReport, SummaryText)>) -> Seq<char> {
    "<div class=\"file-list\">\n    <div class=\"file-header\">\n        <span>File</span>\n        <span>Lines</span>\n        <span>Functions</span>\n        <span>Branches</span>\n    </div>\n    "@
        + joined(entries, |entry: (CoverageReport, SummaryText)| file_row(entry.0.file@, entry.1))
        + "\n</div>"@
}

/// Appends the card of one metric.
fn push_metric_card(out: &mut String, label: &str, covered: u32, total: u32, shown: &PercentText)
    ensures
        final(out)@ == old(out)@ + metric_card(label@, covered, total, *shown),
{
    out.append("        <div class=\"metric\">\n            <div class=\"metric-value ");
    out.append(shown.class.as_str());
    out.append("\">");
    out.append(shown.text.as_str());
    out.append("</div>\n            <div class=\"metric-label\">");
    out.append(label);
    out.append(" (");
    push_decimal(out, covered as u128);
    out.append("/");
    push_decimal(out, total as u128);
    out.append(
        ")</div>\n            <div class=\"progress-bar\">\n                <div class=\"progress-fill ",
    );
    out.append(shown.class.as_str());
    out.append("\" style=\"width: ");
    out.append(shown.number.as_str());
    out.append("%\"></div>\n            </div>\n        </div>\n");
}

/// Appends the row of one file.
fn push_file_row(out: &mut String, file: &str, shown: &SummaryText)
    ensures
        final(out)@ == old(out)@ + file_row(file@, *shown),
{
    let name = HtmlReporter::page_name(file);
    let link = escape_html(name.as_str());
    let shown_file = escape_html(file);
    out.append("<a href=\"");
    out.append(link.as_str());
    out.append(".html\" class=\"file-row\">\n    <span>");
    out.append(shown_file.as_str());
    out.append("</span>");
    push_percent_cell(out, &shown.lines);
    push_percent_cell(out, &shown.functions);
    push_percent_cell(out, &shown.branches);
    out.append("\n</a>");
}

/// Appends the cell of one percentage.
fn push_percent_cell(out: &mut String, shown: &PercentText)
    ensures
        final(out)@ == old(out)@ + percent_cell(*shown),
{
    out.append("\n    <span class=\"");
    out.append(shown.class.as_str());
    out.append("\">");
    out.append(shown.text.as_str());
    out.append("</span>");
}

/// The index page.
pub open spec fn index_page(title: Seq<char>, summary: Seq<char>, file_list: Seq<char>) -> Seq<
    char,
> {
    "<!DOCTYPE html>\n<html lang=\"en\">\n<head>\n    <meta charset=\"UTF-8\">\n    <meta name=\"viewport\" content=\"width=device-width, initial-scale=1.0\">\n    <title>"@
        + escaped(title) + "</title>\n    <style>"@ + stylesheet()
        + "</style>\n</head>\n<body>\n    <div class=\"container\">\n        <h1>"@ + escaped(
        title,
    ) + "</h1>\n        "@ + summary + "\n        <h2>Files</h2>\n        "@ + file_list
        + "\n    </div>\n</body>\n</html>"@
}

/// The head of a file page, up to the opening of its body.
pub open spec fn page_head(title: Seq<char>, file: Seq<char>) -> Seq<char> {
    "<!DOCTYPE html>\n<html lang=\"en\">\n<head>\n    <meta charset=\"UTF-8\">\n    <meta name=\"viewport\" content=\"width=device-width, initial-scale=1.0\">\n    <title>"@
        + escaped(file) + " - "@ + escaped(title) + "</title>\n    <style>"@ + stylesheet()
        + "</style>\n</head>\n<body>\n"@
}

/// The body of a file page.
pub open spec fn page_body(file: Seq<char>, summary: Seq<char>, rows: Seq<char>) -> Seq<char> {
    "    <div class=\"container\">\n        <div class=\"breadcrumb\">\n            <a href=\"index.html\">Coverage Report</a> &gt; "@
        + escaped(file) + "\n        </div>\n        <h1>"@ + escaped(file) + "</h1>\n        "@
        + summary
        + "\n        <div class=\"source-view\">\n            <div class=\"source-header\">\n                <strong>"@
        + escaped(file)
        + "</strong>\n            </div>\n            <div class=\"source-code\">\n                "@
        + rows + "\n            </div>\n        </div>\n    </div>\n</body>\n</html>"@
}

/// The page of one file.
pub open spec fn file_page(title: Seq<char>, file: Seq<char>, summary: Seq<char>, rows: Seq<char>)
    -> Seq<char> {
    page_head(title, file) + page_body(file, summary, rows)
}

/// A place among the source lines as a line number.
fn line_number_of(at: usize) -> (number: u32)
    ensures
        number == capped(at + 1),
{
    if at >= u32::MAX as usize {
        u32::MAX
    } else {
        (at + 1) as u32
    }
}

/// Appends the row of one source line.
fn push_source_row(
    out: &mut String,
    records: &BTreeMap<u32, LineCoverage>,
    number: u32,
    content: &str,
)
    ensures
        final(out)@ == old(out)@ + source_row(records@, number, content@),
{
    let escaped_content = escape_html(content);
    out.append("<div class=\"source-line ");
    let record = records.get(&number);
    match record {
        Some(known) => {
            if known.covered {
                out.append("covered");
            } else {
                out.append("uncovered");
            }
        },
        None => {},
    }
    out.append("\">\n    <span class=\"line-number\">");
    push_decimal(out, number as u128);
    out.append("</span>\n    <span class=\"line-hits\">");
    match record {
        Some(known) => {
            if known.covered {
                push_decimal(out, known.hit_count as u128);
            } else {
                out.append("0");
            }
        },
        None => {},
    }
    out.append("</span>\n    <span class=\"line-content\">");
    out.append(escaped_content.as_str());
    out.append("</span>\n</div>");
}

/// The rows of the lines of a source text.
fn render_source_rows(records: &BTreeMap<u32, LineCoverage>, source_content: &str) -> (rows: String)
    ensures
        rows@ == source_rows(records@, lines_of(source_content@)),
{
    let lines = source_lines(source_content);
    let ghost all = lines_of(source_content@);
    let mut rows = String::new();
    let mut i: usize = 0;
    while i < lines.len()
        invariant
            0 <= i <= lines.len(),
            all == lines_of(source_content@),
            lines@.len() == all.len(),
            forall|j: int| 0 <= j < lines@.len() ==> lines@[j]@ == all[j],
            rows@ == source_rows(records@, all.subrange(0, i as int)),
        decreases lines.len() - i,
    {
        proof {
            assert(all.subrange(0, i + 1).drop_last() =~= all.subrange(0, i as int));
        }
        push_source_row(&mut rows, records, line_number_of(i), lines[i].as_str());
        i += 1;
    }
    assert(all.subrange(0, i as int) =~= all);
    rows
}

/// Appends the head of a file page; `file` and `title` come escaped.
fn push_page_head(out: &mut String, file: &str, title: &str)
    ensures
        final(out)@ == old(out)@
            + "<!DOCTYPE html>\n<html lang=\"en\">\n<head>\n    <meta charset=\"UTF-8\">\n    <meta name=\"viewport\" content=\"width=device-width, initial-scale=1.0\">\n    <title>"@
            + file@ + " - "@ + title@ + "</title>\n    <style>"@ + stylesheet()
            + "</style>\n</head>\n<body>\n"@,
{
    out.append(
        "<!DOCTYPE html>\n<html lang=\"en\">\n<head>\n    <meta charset=\"UTF-8\">\n    <meta name=\"viewport\" content=\"width=device-width, initial-scale=1.0\">\n    <title>",
    );
    out.append(file);
    out.append(" - ");
    out.append(title);
    out.append("</title>\n    <style>");
    out.append(HtmlReporter::css());
    out.append("</style>\n</head>\n<body>\n");
}

/// Appends the body of a file page; `file` comes escaped.
fn push_page_body(out: &mut String, file: &str, summary: &str, rows: &str)
    ensures
        final(out)@ == old(out)@
            + "    <div class=\"container\">\n        <div class=\"breadcrumb\">\n            <a href=\"index.html\">Coverage Report</a> &gt; "@
            + file@ + "\n        </div>\n        <h1>"@ + file@ + "</h1>\n        "@ + summary@
            + "\n        <div class=\"source-view\">\n            <div class=\"source-header\">\n                <strong>"@
            + file@
            + "</strong>\n            </div>\n            <div class=\"source-code\">\n                "@
            + rows@ + "\n            </div>\n        </div>\n    </div>\n</body>\n</html>"@,
{
    out.append(
        "    <div class=\"container\">\n        <div class=\"breadcrumb\">\n            <a href=\"index.html\">Coverage Report</a> &gt; ",
    );
    out.append(file);
    out.append("\n        </div>\n        <h1>");
    out.append(file);
    out.append("</h1>\n        ");
    out.append(summary);
    out.append(
        "\n        <div class=\"source-view\">\n            <div class=\"source-header\">\n                <strong>",
    );
    out.append(file);
    out.append(
        "</strong>\n            </div>\n            <div class=\"source-code\">\n                ",
    );
    out.append(rows);
    out.append("\n            </div>\n        </div>\n    </div>\n</body>\n</html>");
}

impl Default for HtmlReporter {
    fn default() -> (reporter: Self)
        ensures
            reporter.title@ == "Coverage Report"@,
            reporter.inline_css,
    {
        HtmlReporter::new()
    }
}

/// The text of the stylesheet.
pub open spec fn stylesheet() -> Seq<char> {
    STYLESHEET@
}

/// The stylesheet of the report.
pub const STYLESHEET: &'static str = r#"
:root {
    --color-high: #28a745;
    --color-medium: #ffc107;
    --color-low: #dc3545;
    --color-bg: #f8f9fa;
    --color-border: #dee2e6;
    --color-text: #212529;
    --color-covered: #d4edda;
    --color-uncovered: #f8d7da;
}

* {
    box-sizing: border-box;
}

body {
    font-family: -apple-system, BlinkMacSystemFont, 'Segoe UI', Roboto, 'Helvetica Neue', Arial, sans-serif;
    margin: 0;
    padding: 20px;
    background: var(--color-bg);
    color: var(--color-text);
}

.container {
    max-width: 1200px;
    margin: 0 auto;
}

h1, h2, h3 {
    margin-top: 0;
}

.summary-card {
    background: white;
    border-radius: 8px;
    padding: 20px;
    margin-bottom: 20px;
    box-shadow: 0 1px 3px rgba(0,0,0,0.1);
}

.summary-grid {
    display: grid;
    grid-template-columns: repeat(auto-fit, minmax(200px, 1fr));
    gap: 20px;
}

.metric {
    text-align: center;
}

.metric-value {
    font-size: 2em;
    font-weight: bold;
}

.metric-label {
    color: #6c757d;
    font-size: 0.9em;
}

.metric-value.high { color: var(--color-high); }
.metric-value.medium { color: var(--color-medium); }
.metric-value.low { color: var(--color-low); }

.progress-bar {
    height: 8px;
    background: #e9ecef;
    border-radius: 4px;
    overflow: hidden;
    margin-top: 8px;
}

.progress-fill {
    height: 100%;
    transition: width 0.3s ease;
}

.progress-fill.high { background: var(--color-high); }
.progress-fill.medium { background: var(--color-medium); }
.progress-fill.low { background: var(--color-low); }

.file-list {
    background: white;
    border-radius: 8px;
    overflow: hidden;
    box-shadow: 0 1px 3px rgba(0,0,0,0.1);
}

.file-header {
    display: grid;
    grid-template-columns: 1fr 100px 100px 100px;
    padding: 12px 20px;
    background: #e9ecef;
    font-weight: bold;
    border-bottom: 1px solid var(--color-border);
}

.file-row {
    display: grid;
    grid-template-columns: 1fr 100px 100px 100px;
    padding: 12px 20px;
    border-bottom: 1px solid var(--color-border);
    text-decoration: none;
    color: inherit;
}

.file-row:hover {
    background: #f8f9fa;
}

.file-row:last-child {
    border-bottom: none;
}

.source-view {
    background: white;
    border-radius: 8px;
    overflow: hidden;
    box-shadow: 0 1px 3px rgba(0,0,0,0.1);
    margin-top: 20px;
}

.source-header {
    padding: 15px 20px;
    background: #e9ecef;
    border-bottom: 1px solid var(--color-border);
}

.source-code {
    font-family: 'SFMono-Regular', Consolas, 'Liberation Mono', Menlo, monospace;
    font-size: 13px;
    line-height: 1.5;
    overflow-x: auto;
}

.source-line {
    display: flex;
    min-height: 21px;
}

.line-number {
    width: 60px;
    padding: 0 10px;
    text-align: right;
    color: #6c757d;
    background: #f8f9fa;
    border-right: 1px solid var(--color-border);
    user-select: none;
    flex-shrink: 0;
}

.line-hits {
    width: 50px;
    padding: 0 8px;
    text-align: right;
    color: #6c757d;
    font-size: 11px;
    flex-shrink: 0;
}

.line-content {
    padding: 0 10px;
    white-space: pre;
    flex-grow: 1;
}

.source-line.covered {
    background: var(--color-covered);
}

.source-line.uncovered {
    background: var(--color-uncovered);
}

.breadcrumb {
    margin-bottom: 20px;
}

.breadcrumb a {
    color: #007bff;
    text-decoration: none;
}

.breadcrumb a:hover {
    text-decoration: underline;
}

@media (max-width: 768px) {
    .file-header, .file-row {
        grid-template-columns: 1fr 80px;
    }
    .file-header > *:nth-child(3),
    .file-header > *:nth-child(4),
    .file-row > *:nth-child(3),
    .file-row > *:nth-child(4) {
        display: none;
    }
}
"#;

} // verus!
