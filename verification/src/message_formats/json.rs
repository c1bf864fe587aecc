//! JSON messages, one per line, each tagged with its reason as Cargo's messages are.
use crate::connection::Throughput;
use crate::linked::{benchmark_entries, benchmark_ids, keys_of};
use crate::model::BenchmarkGroup;
use crate::report::{BenchmarkId, ComparisonResult};
use crate::text::{concat, decimal, joined, join_path};
use vstd::prelude::*;

verus! {

/// The report that prints JSON messages.
#[derive(Debug, Clone, Copy, PartialEq, Eq, Structural)]
pub struct JsonMessageReport;

/// The reason of the message sent when a benchmark completes.
pub const BENCHMARK_COMPLETE: &'static str = "benchmark-complete";

/// The reason of the message sent when a group completes.
pub const GROUP_COMPLETE: &'static str = "group-complete";

/// The lowercase hexadecimal digit of a number below sixteen.
pub open spec fn hex_digit(n: int) -> char {
    if n < 10 {
        (48 + n) as char
    } else {
        (87 + n) as char
    }
}

/// A character as it stands inside a JSON string literal: a quote and a backslash are escaped
/// by a backslash, the control characters with a short escape (`\b`, `\t`, `\n`, `\f`, `\r`)
/// have it, the other control characters become `\u00` and two lowercase hex digits, and every
/// other character stands for itself.
pub open spec fn escaped_char(c: char) -> Seq<char> {
    if c == '"' {
        seq!['\\', '"']
    } else if c == '\\' {
        seq!['\\', '\\']
    } else if c == '\u{8}' {
        seq!['\\', 'b']
    } else if c == '\t' {
        seq!['\\', 't']
    } else if c == '\n' {
        seq!['\\', 'n']
    } else if c == '\u{c}' {
        seq!['\\', 'f']
    } else if c == '\r' {
        seq!['\\', 'r']
    } else if (c as int) < 0x20 {
        seq!['\\', 'u', '0', '0', hex_digit((c as int) / 16), hex_digit((c as int) % 16)]
    } else {
        seq![c]
    }
}

/// The text of a JSON string literal's content for `s`: each character escaped in turn.
pub open spec fn json_escaped(s: Seq<char>) -> Seq<char>
    decreases s.len(),
{
    if s.len() == 0 {
        Seq::empty()
    } else {
        json_escaped(s.drop_last()) + escaped_char(s.last())
    }
}

/// The line printed for a message: the serialized message, an object, with a `reason` field,
/// a JSON string, put first.
pub open spec fn tagged_line(reason: Seq<char>, message: Seq<char>) -> Seq<char> {
    "{\"reason\":\""@ + json_escaped(reason) + "\","@ + message.skip(1)
}

/// The hexadecimal digit of a number below sixteen.
fn hex_char(n: u32) -> (r: char)
    requires
        n < 16,
    ensures
        r == hex_digit(n as int),
{
    if n < 10 {
        ((48 + n) as u8) as char
    } else {
        ((87 + n) as u8) as char
    }
}

/// Appends a character as it stands inside a JSON string literal (see [`escaped_char`]).
fn push_escaped(out: &mut Vec<char>, c: char)
    ensures
        final(out)@ == old(out)@ + escaped_char(c),
{
    let ghost start = out@;
    if c == '"' {
        out.push('\\');
        out.push('"');
    } else if c == '\\' {
        out.push('\\');
        out.push('\\');
    } else if c == '\u{8}' {
        out.push('\\');
        out.push('b');
    } else if c == '\t' {
        out.push('\\');
        out.push('t');
    } else if c == '\n' {
        out.push('\\');
        out.push('n');
    } else if c == '\u{c}' {
        out.push('\\');
        out.push('f');
    } else if c == '\r' {
        out.push('\\');
        out.push('r');
    } else if ' ' > c {
        let code = c as u32;
        assert(code == c as int);
        out.push('\\');
        out.push('u');
        out.push('0');
        out.push('0');
        out.push(hex_char(code / 16));
        out.push(hex_char(code % 16));
    } else {
        out.push(c);
    }
    assert(out@ =~= start + escaped_char(c));
}

/// The content of a JSON string literal for `s` (see [`json_escaped`]).
pub fn json_escape(s: &str) -> (r: String)
    ensures
        r@ == json_escaped(s@),
{
    let chars = crate::text::chars_of(s);
    let mut out: Vec<char> = Vec::new();
    let mut i: usize = 0;
    while i < chars.len()
        invariant
            i <= chars.len(),
            chars@ == s@,
            out@ == json_escaped(s@.take(i as int)),
        decreases chars.len() - i,
    {
        assert(s@.take(i + 1).drop_last() =~= s@.take(i as int));
        push_escaped(&mut out, chars[i]);
        i = i + 1;
    }
    assert(s@.take(chars.len() as int) =~= s@);
    crate::text::string_of(&out)
}

/// Puts the `reason` field first into a serialized message, which must be a JSON object.
pub fn tag_message(reason: &str, message_text: &str) -> (r: String)
    requires
        message_text@.len() > 0,
        message_text@[0] == '{',
    ensures
        r@ == tagged_line(reason@, message_text@),
{
    let chars = crate::text::chars_of(message_text);
    let mut rest: Vec<char> = Vec::new();
    let mut i: usize = 1;
    while i < chars.len()
        invariant
            1 <= i <= chars.len(),
            chars@ == message_text@,
            rest@ == message_text@.subrange(1, i as int),
        decreases chars.len() - i,
    {
        rest.push(chars[i]);
        assert(rest@ =~= message_text@.subrange(1, i + 1));
        i = i + 1;
    }
    let tail = crate::text::string_of(&rest);
    let escaped = json_escape(reason);
    let head = concat("{\"reason\":\"", escaped.as_str());
    let head = concat(head.as_str(), "\",");
    let r = concat(head.as_str(), tail.as_str());
    assert(message_text@.skip(1) =~= message_text@.subrange(1, message_text@.len() as int));
    r
}

/// How much work one iteration does, as the JSON messages report it.
#[derive(Debug, Clone)]
pub struct JsonThroughput {
    pub per_iteration: u64,
    pub unit: String,
}

/// How the JSON messages report a throughput: the count per iteration and its unit.
pub open spec fn json_throughput(t: Throughput) -> (u64, Seq<char>) {
    match t {
        Throughput::Bytes(n) => (n, "bytes"@),
        Throughput::Elements(n) => (n, "elements"@),
    }
}

impl View for JsonThroughput {
    type V = (u64, Seq<char>);

    open spec fn view(&self) -> (u64, Seq<char>) {
        (self.per_iteration, self.unit@)
    }
}

impl JsonThroughput {
    /// The count of bytes or elements per iteration, with the unit `bytes` or `elements`.
    pub fn from_throughput(other: &Throughput) -> (r: JsonThroughput)
        ensures
            r@ == json_throughput(*other),
    {
        match other {
            Throughput::Bytes(bytes) => JsonThroughput { per_iteration: *bytes, unit: "bytes".to_owned() },
            Throughput::Elements(elements) => JsonThroughput {
                per_iteration: *elements,
                unit: "elements".to_owned(),
            },
        }
    }
}

/// The verdict on a change, as the JSON messages report it.
#[derive(Debug, Clone, Copy, PartialEq, Eq, Structural)]
pub enum ChangeType {
    NoChange,
    Improved,
    Regressed,
}

/// The reported change: none unless the means differ significantly; then the comparison with
/// the noise threshold decides, a change within the noise counting as none.
pub fn change_type(different_mean: bool, comparison: ComparisonResult) -> (r: ChangeType)
    ensures
        r == if !different_mean {
            ChangeType::NoChange
        } else {
            match comparison {
                ComparisonResult::Improved => ChangeType::Improved,
                ComparisonResult::Regressed => ChangeType::Regressed,
                ComparisonResult::NonSignificant => ChangeType::NoChange,
            }
        },
{
    if !different_mean {
        ChangeType::NoChange
    } else {
        match comparison {
            ComparisonResult::Improved => ChangeType::Improved,
            ComparisonResult::Regressed => ChangeType::Regressed,
            ComparisonResult::NonSignificant => ChangeType::NoChange,
        }
    }
}

/// The content of the message sent when a group completes.
#[derive(Debug)]
pub struct BenchmarkGroupComplete {
    pub group_name: String,
    pub benchmarks: Vec<String>,
    pub report_directory: String,
}

/// The titles of the benchmarks of a group, in the group's order.
pub open spec fn titles_of(group: BenchmarkGroup) -> Seq<Seq<char>> {
    keys_of(benchmark_entries(group.benchmarks)).map_values(|id: crate::report::BenchmarkIdView| id.title)
}

impl JsonMessageReport {
    /// The message for a completed group: its name, the titles of its benchmarks, and the
    /// directory of its summary report under the output directory.
    pub fn summarize(&self, output_directory: &str, group_id: &str, benchmark_group: &BenchmarkGroup) -> (r: BenchmarkGroupComplete)
        ensures
            r.group_name@ == group_id@,
            r.benchmarks.deep_view() == titles_of(*benchmark_group),
            r.report_directory@ == joined(output_directory@, crate::report::filename_safe(group_id@)),
    {
        let ids = benchmark_ids(&benchmark_group.benchmarks);
        let mut benchmarks: Vec<String> = Vec::new();
        let mut i: usize = 0;
        while i < ids.len()
            invariant
                i <= ids.len(),
                ids@.map_values(|id: BenchmarkId| id@) == keys_of(benchmark_entries(benchmark_group.benchmarks)),
                benchmarks.deep_view() == ids@.take(i as int).map_values(|id: BenchmarkId| id@.title),
            decreases ids.len() - i,
        {
            crate::text::push_string(&mut benchmarks, crate::text::owned(ids[i].as_title()));
            assert(ids@.take(i + 1).map_values(|id: BenchmarkId| id@.title) =~= ids@.take(i as int).map_values(
                |id: BenchmarkId| id@.title,
            ).push(ids@[i as int]@.title));
            i = i + 1;
        }
        assert(ids@.take(ids.len() as int) =~= ids@);
        assert(benchmarks.deep_view() =~= titles_of(*benchmark_group)) by {
            assert forall|k: int| 0 <= k < ids.len() implies #[trigger] benchmarks.deep_view()[k] == titles_of(*benchmark_group)[k] by {
                assert(ids@.map_values(|id: BenchmarkId| id@)[k] == ids@[k]@);
            }
        }
        let summary_id = BenchmarkId::new(group_id.to_owned(), None, None, None);
        let report_directory = join_path(output_directory, summary_id.as_directory_name());
        BenchmarkGroupComplete { group_name: group_id.to_owned(), benchmarks, report_directory }
    }
}

/// The parts of the message for a completed benchmark that do not depend on its measurements:
/// its title, the directory of its report, and its throughput, if it names one.
#[derive(Debug)]
pub struct BenchmarkCompleteHead {
    pub id: String,
    pub report_directory: String,
    pub throughput: Vec<JsonThroughput>,
}

impl JsonMessageReport {
    /// The parts of the message for the completed benchmark `id` that do not depend on its
    /// measurements; its report lies in its directory under `output_directory`.
    pub fn benchmark_complete_head(&self, output_directory: &str, id: &BenchmarkId) -> (r: BenchmarkCompleteHead)
        ensures
            r.id@ == id@.title,
            r.report_directory@ == joined(output_directory@, id@.directory_name),
            r.throughput@.map_values(|t: JsonThroughput| t@) == match id@.throughput {
                Some(t) => seq![json_throughput(t)],
                None => Seq::<(u64, Seq<char>)>::empty(),
            },
    {
        let mut throughput: Vec<JsonThroughput> = Vec::new();
        match id.throughput_of() {
            Some(t) => {
                throughput.push(JsonThroughput::from_throughput(&t));
            },
            None => {},
        }
        let r = BenchmarkCompleteHead {
            id: crate::text::owned(id.as_title()),
            report_directory: join_path(output_directory, id.as_directory_name()),
            throughput,
        };
        assert(r.throughput@.map_values(|t: JsonThroughput| t@) =~= match id@.throughput {
            Some(t) => seq![json_throughput(t)],
            None => Seq::<(u64, Seq<char>)>::empty(),
        });
        r
    }
}

} // verus!
