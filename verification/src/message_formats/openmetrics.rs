//! Reports in the OpenMetrics text format.
use crate::text::{concat, joined};
use vstd::prelude::*;

verus! {

/// The report that prints OpenMetrics lines.
#[derive(Debug, Clone, Copy, PartialEq, Eq, Structural)]
pub struct OpenMetricsMessageReport;

/// `key="value"` followed by a comma.
pub open spec fn label(key: Seq<char>, value: Seq<char>) -> Seq<char> {
    key + "=\""@ + value + "\","@
}

/// The labels of a result line: the function and the input size where the benchmark names
/// them, then the aggregation, separated by commas.
pub open spec fn result_labels(function: Option<Seq<char>>, value: Option<Seq<char>>, aggregation: Seq<char>) -> Seq<char> {
    (match function {
        Some(f) => label("function"@, f),
        None => seq![],
    }) + (match value {
        Some(v) => label("input_size"@, v),
        None => seq![],
    }) + "aggregation=\""@ + aggregation + "\""@
}

/// Whether `part` occurs in `s` as a contiguous piece.
pub open spec fn occurs_in(s: Seq<char>, part: Seq<char>) -> bool {
    exists|i: int| 0 <= i && i + part.len() <= s.len() && #[trigger] s.subrange(i, i + part.len()) == part
}

/// The labels of a result line name the input size whenever the benchmark has an input, and
/// the function whenever it has one, each independently of the other; they end with the
/// aggregation; and a benchmark without function or input gets the aggregation alone.
pub proof fn law_result_labels(function: Option<Seq<char>>, value: Option<Seq<char>>, aggregation: Seq<char>)
    ensures
        value matches Some(v) ==> occurs_in(result_labels(function, value, aggregation), "input_size=\""@ + v + "\","@),
        function matches Some(f) ==> occurs_in(result_labels(function, value, aggregation), "function=\""@ + f + "\","@),
        ({
            let r = result_labels(function, value, aggregation);
            let tail = "aggregation=\""@ + aggregation + "\""@;
            r.len() >= tail.len() && r.subrange(r.len() - tail.len(), r.len() as int) == tail
        }),
        function is None && value is None ==> result_labels(function, value, aggregation) == "aggregation=\""@ + aggregation + "\""@,
{
    reveal_strlit("function");
    reveal_strlit("input_size");
    reveal_strlit("=\"");
    reveal_strlit("\",");
    reveal_strlit("function=\"");
    reveal_strlit("input_size=\"");
    let r = result_labels(function, value, aggregation);
    let fpart: Seq<char> = match function {
        Some(f) => "function=\""@ + f + "\","@,
        None => seq![],
    };
    let vpart: Seq<char> = match value {
        Some(v) => "input_size=\""@ + v + "\","@,
        None => seq![],
    };
    let tail = "aggregation=\""@ + aggregation + "\""@;
    if let Some(f) = function {
        assert(label("function"@, f) =~= fpart);
    }
    if let Some(v) = value {
        assert(label("input_size"@, v) =~= vpart);
    }
    assert(r =~= fpart + vpart + tail);
    if let Some(v) = value {
        assert(r.subrange(fpart.len() as int, (fpart.len() + vpart.len()) as int) =~= vpart);
    }
    if let Some(f) = function {
        assert(r.subrange(0, 0int + fpart.len()) =~= fpart);
    }
    assert(r.subrange(r.len() - tail.len(), r.len() as int) =~= tail);
    if function is None && value is None {
        assert(r =~= tail);
    }
}

/// `key="value",` as text.
fn label_text(key: &str, value: &str) -> (r: String)
    ensures
        r@ == label(key@, value@),
{
    let a = concat(key, "=\"");
    let b = concat(a.as_str(), value);
    concat(b.as_str(), "\",")
}

/// The labels of a result line (see [`result_labels`]).
pub fn labels(function_id: &Option<String>, value_str: &Option<String>, aggregation: &str) -> (r: String)
    ensures
        r@ == result_labels(function_id.deep_view(), value_str.deep_view(), aggregation@),
{
    let mut out = String::new();
    match function_id {
        Some(f) => {
            let l = label_text("function", f.as_str());
            out = out.concat(l.as_str());
        },
        None => {},
    }
    match value_str {
        Some(v) => {
            let l = label_text("input_size", v.as_str());
            out = out.concat(l.as_str());
        },
        None => {},
    }
    let a = concat("aggregation=\"", aggregation);
    let a = concat(a.as_str(), "\"");
    let r = out.concat(a.as_str());
    assert(r@ =~= result_labels(function_id.deep_view(), value_str.deep_view(), aggregation@));
    r
}

/// A result line up to its value: the metric named after the unit, the group as `id`, which
/// bound of the confidence interval it is, and the labels, followed by a space.
pub open spec fn result_head(unit: Seq<char>, group_id: Seq<char>, confidence: Seq<char>, labels: Seq<char>) -> Seq<char> {
    "criterion_benchmark_result_"@ + unit + "{id=\""@ + group_id + "\",confidence=\""@ + confidence + "\","@
        + labels + "} "@
}

/// A result line up to its value (see [`result_head`]).
pub fn result_line_head(unit: &str, group_id: &str, confidence: &str, labels: &str) -> (r: String)
    ensures
        r@ == result_head(unit@, group_id@, confidence@, labels@),
{
    let a = concat("criterion_benchmark_result_", unit);
    let a = concat(a.as_str(), "{id=\"");
    let a = concat(a.as_str(), group_id);
    let a = concat(a.as_str(), "\",confidence=\"");
    let a = concat(a.as_str(), confidence);
    let a = concat(a.as_str(), "\",");
    let a = concat(a.as_str(), labels);
    let r = concat(a.as_str(), "} ");
    assert(r@ =~= result_head(unit@, group_id@, confidence@, labels@));
    r
}

/// The information line of a benchmark: its group, input size and function where named, and
/// the directory of its report, with the value 1.
pub open spec fn info_line(group_id: Seq<char>, value: Option<Seq<char>>, function: Option<Seq<char>>, report_directory: Seq<char>) -> Seq<char> {
    "criterion_benchmark_info{id=\""@ + group_id + "\","@ + (match value {
        Some(v) => label("input_size"@, v),
        None => seq![],
    }) + (match function {
        Some(f) => label("function"@, f),
        None => seq![],
    }) + "report_directory=\""@ + report_directory + "\"} 1"@
}

/// The information line of a benchmark (see [`info_line`]).
pub fn benchmark_info_line(group_id: &str, value_str: &Option<String>, function_id: &Option<String>, report_directory: &str) -> (r: String)
    ensures
        r@ == info_line(group_id@, value_str.deep_view(), function_id.deep_view(), report_directory@),
{
    let a = concat("criterion_benchmark_info{id=\"", group_id);
    let mut a = concat(a.as_str(), "\",");
    match value_str {
        Some(v) => {
            let l = label_text("input_size", v.as_str());
            a = a.concat(l.as_str());
        },
        None => {},
    }
    match function_id {
        Some(f) => {
            let l = label_text("function", f.as_str());
            a = a.concat(l.as_str());
        },
        None => {},
    }
    let b = concat("report_directory=\"", report_directory);
    let b = concat(b.as_str(), "\"} 1");
    let r = a.concat(b.as_str());
    assert(r@ =~= info_line(group_id@, value_str.deep_view(), function_id.deep_view(), report_directory@));
    r
}

} // verus!
