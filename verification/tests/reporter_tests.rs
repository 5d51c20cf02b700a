use coverage::report::{
    BranchCoverage, CoverageReport, CoverageSummary, FunctionCoverage, LineCoverage,
};
use coverage::reporter::escape_html;
use coverage::reporters::html::{PercentText, SummaryText};
use coverage::reporters::{HtmlReporter, JsonReporter, LcovReporter};
use std::collections::BTreeMap;

#[test]
fn test_escape_html() {
    assert_eq!(escape_html("<script>"), "&lt;script&gt;");
    assert_eq!(escape_html("a & b"), "a &amp; b");
    assert_eq!(escape_html("\"quoted\""), "&quot;quoted&quot;");
}

#[test]
fn test_html_format_metadata() {
    let reporter = HtmlReporter::new();
    assert_eq!(reporter.extension(), "html");
    assert_eq!(reporter.format_name(), "html");
}

#[test]
fn test_json_format_metadata() {
    let reporter = JsonReporter::new();
    assert_eq!(reporter.extension(), "json");
    assert_eq!(reporter.format_name(), "json");
}

#[test]
fn test_lcov_format_metadata() {
    let reporter = LcovReporter::new();
    assert_eq!(reporter.extension(), "info");
    assert_eq!(reporter.format_name(), "lcov");
}

fn create_test_report() -> CoverageReport {
    let mut lines = BTreeMap::new();
    lines.insert(10, LineCoverage { line: 10, hit_count: 5, covered: true });
    lines.insert(11, LineCoverage { line: 11, hit_count: 0, covered: false });

    CoverageReport {
        file: "src/main.rsx".to_string(),
        lines,
        functions: vec![FunctionCoverage {
            name: "main".to_string(),
            start_line: 10,
            end_line: 20,
            hit_count: 1,
            covered: true,
        }],
        branches: vec![BranchCoverage {
            line: 15,
            branch_index: 0,
            true_count: 3,
            false_count: 0,
            fully_covered: false,
        }],
        summary: CoverageSummary {
            total_lines: 2,
            covered_lines: 1,
            total_functions: 1,
            covered_functions: 1,
            total_branches: 1,
            covered_branches: 0,
        },
    }
}

#[test]
fn test_lcov_output() {
    let reporter = LcovReporter::with_test_name("test".to_string());
    let report = create_test_report();
    let output = reporter.report(&[report]).unwrap();

    assert!(output.contains("TN:test"));
    assert!(output.contains("SF:src/main.rsx"));
    assert!(output.contains("FN:10,main"));
    assert!(output.contains("FNDA:1,main"));
    assert!(output.contains("DA:10,5"));
    assert!(output.contains("DA:11,0"));
    assert!(output.contains("LF:2"));
    assert!(output.contains("LH:1"));
    assert!(output.contains("end_of_record"));
}

#[test]
fn escape_html_of_all_five_and_of_none() {
    assert_eq!(escape_html(""), "");
    assert_eq!(escape_html("plain text, ünïcödé ✓"), "plain text, ünïcödé ✓");
    assert_eq!(escape_html("&<>\"'"), "&amp;&lt;&gt;&quot;&#39;");
    assert_eq!(escape_html("it's"), "it&#39;s");
    // what is escaped already is escaped again
    assert_eq!(escape_html("&amp;"), "&amp;amp;");
    assert_eq!(escape_html("<a href=\"x\">T&C</a>"), "&lt;a href=&quot;x&quot;&gt;T&amp;C&lt;/a&gt;");
}

#[test]
fn reporters_start_with_their_defaults() {
    assert_eq!(HtmlReporter::new().title, "Coverage Report");
    assert!(HtmlReporter::new().inline_css);
    assert_eq!(HtmlReporter::default(), HtmlReporter::new());
    let titled = HtmlReporter::with_title("Test Coverage".to_string());
    assert_eq!(titled.title, "Test Coverage");
    assert!(titled.inline_css);
    assert!(!JsonReporter::new().pretty);
    assert!(JsonReporter::pretty().pretty);
    assert_eq!(JsonReporter::default(), JsonReporter::new());
    assert_eq!(LcovReporter::new().test_name, None);
    assert_eq!(LcovReporter::default(), LcovReporter::new());
    assert_eq!(LcovReporter::with_test_name("t".to_string()).test_name, Some("t".to_string()));
}

#[test]
fn the_stylesheet_styles_the_report() {
    let css = HtmlReporter::css();
    assert!(css.starts_with("\n:root {"));
    assert!(css.contains(".source-line.covered"));
    assert!(css.contains("--color-high: #28a745;"));
    assert!(css.ends_with("}\n"));
}

#[test]
fn an_lcov_record_line_by_line() {
    let reporter = LcovReporter::with_test_name("test".to_string());
    let record = reporter.format_report(&create_test_report());
    assert_eq!(
        record,
        "TN:test\n\
         SF:src/main.rsx\n\
         FN:10,main\n\
         FNDA:1,main\n\
         FNF:1\n\
         FNH:1\n\
         BRDA:15,0,0,3\n\
         BRDA:15,0,1,-\n\
         BRF:2\n\
         BRH:1\n\
         DA:10,5\n\
         DA:11,0\n\
         LF:2\n\
         LH:1\n\
         end_of_record\n"
    );
}

#[test]
fn an_lcov_report_of_several_files() {
    let reporter = LcovReporter::new();
    let mut second = create_test_report();
    second.file = "b.rsx".to_string();
    second.functions.push(FunctionCoverage {
        name: "helper".to_string(),
        start_line: 30,
        end_line: 31,
        hit_count: 0,
        covered: false,
    });
    second.branches.push(BranchCoverage {
        line: 31,
        branch_index: 4,
        true_count: 18446744073709551615,
        false_count: 7,
        fully_covered: true,
    });
    second.summary.total_branches = u32::MAX;
    let empty = CoverageReport::new("empty.rsx".to_string());
    let output = reporter.report(&[empty, second]).unwrap();
    assert_eq!(
        output,
        "SF:empty.rsx\n\
         FNF:0\n\
         FNH:0\n\
         BRF:0\n\
         BRH:0\n\
         LF:0\n\
         LH:0\n\
         end_of_record\n\
         SF:b.rsx\n\
         FN:10,main\n\
         FN:30,helper\n\
         FNDA:1,main\n\
         FNDA:0,helper\n\
         FNF:1\n\
         FNH:1\n\
         BRDA:15,0,0,3\n\
         BRDA:15,0,1,-\n\
         BRDA:31,4,0,18446744073709551615\n\
         BRDA:31,4,1,7\n\
         BRF:8589934590\n\
         BRH:3\n\
         DA:10,5\n\
         DA:11,0\n\
         LF:2\n\
         LH:1\n\
         end_of_record\n"
    );
    assert_eq!(reporter.report(&[]).unwrap(), "");
}

fn page_report() -> CoverageReport {
    let mut lines = BTreeMap::new();
    lines.insert(1, LineCoverage { line: 1, hit_count: 5, covered: true });
    lines.insert(2, LineCoverage { line: 2, hit_count: 0, covered: false });
    lines.insert(3, LineCoverage { line: 3, hit_count: 3, covered: true });

    CoverageReport {
        file: "src/main.rsx".to_string(),
        lines,
        functions: vec![FunctionCoverage {
            name: "main".to_string(),
            start_line: 1,
            end_line: 10,
            hit_count: 1,
            covered: true,
        }],
        branches: vec![BranchCoverage {
            line: 5,
            branch_index: 0,
            true_count: 3,
            false_count: 2,
            fully_covered: true,
        }],
        summary: CoverageSummary {
            total_lines: 3,
            covered_lines: 2,
            total_functions: 1,
            covered_functions: 1,
            total_branches: 1,
            covered_branches: 1,
        },
    }
}

#[test]
fn test_html_file_page() {
    let reporter = HtmlReporter::new();
    let report = page_report();
    let source = "fn main() {\n    println!(\"hello\");\n    return 0;\n}";

    let page = reporter.render_file_page(&report, source, "<div>summary</div>");

    assert!(page.contains("<!DOCTYPE html>"));
    assert!(page.contains("src/main.rsx"));
    assert!(page.contains("fn main()"));
    assert!(page.contains("covered"));
    assert!(page.contains("uncovered"));
}

fn expected_row(class: &str, number: u32, hits: &str, content: &str) -> String {
    format!(
        "<div class=\"source-line {}\">\n    <span class=\"line-number\">{}</span>\n    <span class=\"line-hits\">{}</span>\n    <span class=\"line-content\">{}</span>\n</div>",
        class, number, hits, content
    )
}

#[test]
fn a_file_page_in_full() {
    let reporter = HtmlReporter::with_title("T & C".to_string());
    let mut report = page_report();
    report.file = "src/<main>.rsx".to_string();
    let source = "fn main() {\r\n    println!(\"hello\");\n    return 0;\n}";
    let page = reporter.render_file_page(&report, source, "<div>summary</div>");

    let rows = [
        expected_row("covered", 1, "5", "fn main() {"),
        expected_row("uncovered", 2, "0", "    println!(&quot;hello&quot;);"),
        expected_row("covered", 3, "3", "    return 0;"),
        expected_row("", 4, "", "}"),
    ]
    .concat();
    let file = "src/&lt;main&gt;.rsx";
    let expected = format!(
        "<!DOCTYPE html>\n<html lang=\"en\">\n<head>\n    <meta charset=\"UTF-8\">\n    <meta name=\"viewport\" content=\"width=device-width, initial-scale=1.0\">\n    <title>{} - {}</title>\n    <style>{}</style>\n</head>\n<body>\n    <div class=\"container\">\n        <div class=\"breadcrumb\">\n            <a href=\"index.html\">Coverage Report</a> &gt; {}\n        </div>\n        <h1>{}</h1>\n        {}\n        <div class=\"source-view\">\n            <div class=\"source-header\">\n                <strong>{}</strong>\n            </div>\n            <div class=\"source-code\">\n                {}\n            </div>\n        </div>\n    </div>\n</body>\n</html>",
        file,
        "T &amp; C",
        HtmlReporter::css(),
        file,
        file,
        "<div>summary</div>",
        file,
        rows,
    );
    assert_eq!(page, expected);
}

#[test]
fn a_file_page_of_an_empty_source_has_no_rows() {
    let reporter = HtmlReporter::new();
    let page = reporter.render_file_page(&page_report(), "", "");
    assert!(!page.contains("<div class=\"source-line "));
    assert!(page.contains("<div class=\"source-code\">\n                \n            </div>"));
}

#[test]
fn page_names_have_no_separators() {
    assert_eq!(HtmlReporter::page_name("src/main.rsx"), "src_main.rsx");
    assert_eq!(HtmlReporter::page_name("a\\b/c\\d"), "a_b_c_d");
    assert_eq!(HtmlReporter::page_name("plain"), "plain");
    assert_eq!(HtmlReporter::page_name(""), "");
    assert_eq!(HtmlReporter::page_name("//"), "__");
}

#[test]
fn an_index_page_in_full() {
    let reporter = HtmlReporter::with_title("<Test> Coverage".to_string());
    let page = reporter.render_index("<div>summary</div>", "<div>files</div>");
    let expected = format!(
        "<!DOCTYPE html>\n<html lang=\"en\">\n<head>\n    <meta charset=\"UTF-8\">\n    <meta name=\"viewport\" content=\"width=device-width, initial-scale=1.0\">\n    <title>{}</title>\n    <style>{}</style>\n</head>\n<body>\n    <div class=\"container\">\n        <h1>{}</h1>\n        {}\n        <h2>Files</h2>\n        {}\n    </div>\n</body>\n</html>",
        "&lt;Test&gt; Coverage",
        HtmlReporter::css(),
        "&lt;Test&gt; Coverage",
        "<div>summary</div>",
        "<div>files</div>",
    );
    assert_eq!(page, expected);
    assert!(!page.contains("<Test>"));
}

fn shown(class: &str, text: &str, number: &str) -> PercentText {
    PercentText { class: class.to_string(), text: text.to_string(), number: number.to_string() }
}

fn shown_summary() -> SummaryText {
    SummaryText {
        lines: shown("medium", "66.7%", "66.66666666666666"),
        functions: shown("high", "100.0%", "100"),
        branches: shown("low", "0.0%", "0"),
    }
}

#[test]
fn summary_cards_in_full() {
    let summary = CoverageSummary {
        total_lines: 3,
        covered_lines: 2,
        total_functions: 1,
        covered_functions: 1,
        total_branches: 4,
        covered_branches: 0,
    };
    let cards = HtmlReporter::render_summary(&summary, &shown_summary());
    let expected = "<div class=\"summary-card\">
    <h2>Coverage Summary</h2>
    <div class=\"summary-grid\">
        <div class=\"metric\">
            <div class=\"metric-value medium\">66.7%</div>
            <div class=\"metric-label\">Lines (2/3)</div>
            <div class=\"progress-bar\">
                <div class=\"progress-fill medium\" style=\"width: 66.66666666666666%\"></div>
            </div>
        </div>
        <div class=\"metric\">
            <div class=\"metric-value high\">100.0%</div>
            <div class=\"metric-label\">Functions (1/1)</div>
            <div class=\"progress-bar\">
                <div class=\"progress-fill high\" style=\"width: 100%\"></div>
            </div>
        </div>
        <div class=\"metric\">
            <div class=\"metric-value low\">0.0%</div>
            <div class=\"metric-label\">Branches (0/4)</div>
            <div class=\"progress-bar\">
                <div class=\"progress-fill low\" style=\"width: 0%\"></div>
            </div>
        </div>
    </div>
</div>";
    assert_eq!(cards, expected);
}

#[test]
fn a_file_list_in_full() {
    let mut first = page_report();
    first.file = "src/a<b>.rsx".to_string();
    let second = CoverageReport::new("lib\\c.rsx".to_string());
    let list = HtmlReporter::render_file_list(
        &[first.clone(), second.clone()],
        &[shown_summary(), shown_summary()],
    );
    let expected = "<div class=\"file-list\">
    <div class=\"file-header\">
        <span>File</span>
        <span>Lines</span>
        <span>Functions</span>
        <span>Branches</span>
    </div>
    <a href=\"src_a&lt;b&gt;.rsx.html\" class=\"file-row\">
    <span>src/a&lt;b&gt;.rsx</span>
    <span class=\"medium\">66.7%</span>
    <span class=\"high\">100.0%</span>
    <span class=\"low\">0.0%</span>
</a><a href=\"lib_c.rsx.html\" class=\"file-row\">
    <span>lib\\c.rsx</span>
    <span class=\"medium\">66.7%</span>
    <span class=\"high\">100.0%</span>
    <span class=\"low\">0.0%</span>
</a>
</div>";
    assert_eq!(list, expected);

    // a report without its percentages gets no row
    let short = HtmlReporter::render_file_list(&[first, second], &[shown_summary()]);
    assert!(short.contains("src_a&lt;b&gt;.rsx.html"));
    assert!(!short.contains("lib_c.rsx.html"));
    let none = HtmlReporter::render_file_list(&[], &[shown_summary()]);
    assert!(!none.contains("<a href"));
    assert!(none.ends_with("    </div>\n    \n</div>"));
}

fn index_of(reporter: &HtmlReporter, reports: &[CoverageReport]) -> String {
    let shown: Vec<SummaryText> = reports.iter().map(|_| shown_summary()).collect();
    let summary = coverage::report::aggregate_summaries(reports);
    reporter.render_index(
        &HtmlReporter::render_summary(&summary, &shown_summary()),
        &HtmlReporter::render_file_list(reports, &shown),
    )
}

#[test]
fn test_html_index_generation() {
    let reporter = HtmlReporter::with_title("Test Coverage".to_string());
    let report = page_report();
    let output = index_of(&reporter, &[report]);

    assert!(output.contains("<!DOCTYPE html>"));
    assert!(output.contains("Test Coverage"));
    assert!(output.contains("src/main.rsx"));
    assert!(output.contains("Coverage Summary"));
}

#[test]
fn test_html_escaping() {
    let mut report = page_report();
    report.file = "<script>alert('xss')</script>".to_string();

    let reporter = HtmlReporter::new();
    let output = index_of(&reporter, &[report]);

    assert!(!output.contains("<script>alert"));
    assert!(output.contains("&lt;script&gt;"));
}
