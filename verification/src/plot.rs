//! Where plots go and how their texts are formed, and which plots a benchmark report holds.
use crate::report::{BenchmarkId, ReportContext};
use crate::text::{concat, decimal, decimal_string, joined, replace, replaced};
use vstd::prelude::*;

verus! {

/// The size of a plot, in pixels: width and height.
#[derive(Debug, Clone, Copy, PartialEq, Eq, Structural)]
pub struct Size(pub usize, pub usize);

/// What a plot is about and where it goes.
#[derive(Clone, Copy)]
pub struct PlotContext<'a> {
    pub id: &'a BenchmarkId,
    pub context: &'a ReportContext,
    pub size: Option<Size>,
    pub is_thumbnail: bool,
}

impl<'a> PlotContext<'a> {
    /// The same plot, drawn as a thumbnail or not.
    pub fn thumbnail(self, value: bool) -> (r: PlotContext<'a>)
        ensures
            r.id == self.id,
            r.context == self.context,
            r.size == self.size,
            r.is_thumbnail == value,
    {
        PlotContext { is_thumbnail: value, ..self }
    }

    /// The same plot, drawn at the given size.
    pub fn size(self, s: Option<Size>) -> (r: PlotContext<'a>)
        ensures
            r.id == self.id,
            r.context == self.context,
            r.size == s,
            r.is_thumbnail == self.is_thumbnail,
    {
        PlotContext { size: s, ..self }
    }

    /// The file of the line chart comparing a group's benchmarks: `lines.svg` in the benchmark's
    /// directory under the output directory.
    pub fn line_comparison_path(&self) -> (r: String)
        ensures
            r@ == joined(joined(self.context.output_directory@, self.id@.directory_name), "lines.svg"@),
    {
        self.context.report_path(self.id, "lines.svg")
    }

    /// The file of the violin plot of a group: `violin.svg` in the benchmark's directory under
    /// the output directory.
    pub fn violin_path(&self) -> (r: String)
        ensures
            r@ == joined(joined(self.context.output_directory@, self.id@.directory_name), "violin.svg"@),
    {
        self.context.report_path(self.id, "violin.svg")
    }
}

/// A title as gnuplot shows it literally: underscores escaped with a backslash, single quotes
/// doubled.
pub open spec fn gnuplot_escaped(s: Seq<char>) -> Seq<char> {
    replaced(replaced(s, "_"@, "\\_"@), "'"@, "''"@)
}

/// Escapes a title for gnuplot (see [`gnuplot_escaped`]).
pub fn gnuplot_escape(string: &str) -> (r: String)
    ensures
        r@ == gnuplot_escaped(string@),
{
    proof {
        reveal_strlit("_");
        reveal_strlit("'");
    }
    let a = replace(string, "_", "\\_");
    replace(a.as_str(), "'", "''")
}

/// The decimal text of an integer, with a minus sign when negative.
pub open spec fn signed_decimal(n: int) -> Seq<char> {
    if n < 0 {
        seq!['-'] + decimal((-n) as nat)
    } else {
        decimal(n as nat)
    }
}

/// The label of the iteration axis, whose values are scaled by ten to the `exponent`.
pub open spec fn iterations_label_text(exponent: int) -> Seq<char> {
    if exponent == 0 {
        "Iterations"@
    } else {
        "Iterations (x 10^"@ + signed_decimal(exponent) + ")"@
    }
}

/// The label of the iteration axis (see [`iterations_label_text`]).
pub fn iterations_label(exponent: i32) -> (r: String)
    ensures
        r@ == iterations_label_text(exponent as int),
{
    if exponent == 0 {
        return "Iterations".to_owned();
    }
    let magnitude: u128 = if exponent < 0 {
        (-(exponent as i64)) as u128
    } else {
        exponent as u128
    };
    let digits = decimal_string(magnitude);
    let number = if exponent < 0 {
        let s = concat("-", digits.as_str());
        proof {
            reveal_strlit("-");
        }
        assert(s@ =~= seq!['-'] + decimal((-exponent) as nat));
        s
    } else {
        digits
    };
    let a = concat("Iterations (x 10^", number.as_str());
    concat(a.as_str(), ")")
}

/// The plots that a benchmark's report holds, besides its distributions.
#[derive(Debug, Clone, Copy, PartialEq, Eq, Structural)]
pub struct PlotPlan {
    /// A regression of time against iterations (else, the times of the iterations).
    pub regression: bool,
    /// Plots comparing this run with the previous one.
    pub comparison: bool,
    /// When comparing, a comparison of both regressions (else, of both runs' iteration times).
    pub regression_comparison: bool,
}

/// The plots of a benchmark's report: a regression when the run fitted a slope, else the
/// iteration times; when there is a previous run to compare with, the comparisons, with the
/// regressions compared only when both runs fitted a slope.
pub fn plan_plots(has_slope: bool, has_comparison: bool, base_has_slope: bool) -> (r: PlotPlan)
    ensures
        r.regression == has_slope,
        r.comparison == has_comparison,
        r.regression_comparison == (has_comparison && has_slope && base_has_slope),
{
    PlotPlan {
        regression: has_slope,
        comparison: has_comparison,
        regression_comparison: has_comparison && has_slope && base_has_slope,
    }
}

/// A statistic estimated from a benchmark's samples.
#[derive(Debug, Clone, Copy, PartialEq, Eq, Structural)]
pub enum Statistic {
    /// The slope where one was fitted, else the mean.
    Typical,
    Slope,
    Mean,
    Median,
    MedianAbsDev,
    StdDev,
}

/// The name a statistic's plots are filed under.
pub open spec fn statistic_name(s: Statistic) -> Seq<char> {
    match s {
        Statistic::Typical => "typical"@,
        Statistic::Slope => "slope"@,
        Statistic::Mean => "mean"@,
        Statistic::Median => "median"@,
        Statistic::MedianAbsDev => "MAD"@,
        Statistic::StdDev => "SD"@,
    }
}

/// The plots of a benchmark.
#[derive(Debug, Clone, Copy, PartialEq, Eq, Structural)]
pub enum PlotKind {
    /// The probability density of the time per iteration.
    Pdf,
    /// The time of each sample's iterations.
    IterationTimes,
    /// The regression of time against iterations.
    Regression,
    /// The distribution of a statistic (of its change, when compared with the previous run).
    Distribution(Statistic),
    /// The t-test of the change from the previous run.
    TTest,
}

/// The stem of the file names of the plots that come in a full size, a thumbnail, and a
/// comparison with the previous run.
pub open spec fn plot_stem(kind: PlotKind) -> Seq<char> {
    match kind {
        PlotKind::Pdf => "pdf"@,
        PlotKind::IterationTimes => "iteration_times"@,
        _ => "regression"@,
    }
}

/// The file, relative to the benchmark's directory, of a plot. A density, iteration-times or
/// regression plot is `<stem>.svg`, its thumbnail `<stem>_small.svg`; compared with the
/// previous run, `both/<stem>.svg` and the thumbnail `relative_<stem>_small.svg`. The
/// distribution of a statistic is `<statistic>.svg`, that of its change
/// `change/<statistic>.svg`; the t-test is `change/t-test.svg`.
pub open spec fn plot_file(kind: PlotKind, thumbnail: bool, comparison: bool) -> Seq<char> {
    match kind {
        PlotKind::Distribution(s) => if comparison {
            "change/"@ + statistic_name(s) + ".svg"@
        } else {
            statistic_name(s) + ".svg"@
        },
        PlotKind::TTest => "change/t-test.svg"@,
        _ => {
            let stem = plot_stem(kind);
            if comparison {
                if thumbnail {
                    "relative_"@ + stem + "_small.svg"@
                } else {
                    "both/"@ + stem + ".svg"@
                }
            } else {
                if thumbnail {
                    stem + "_small.svg"@
                } else {
                    stem + ".svg"@
                }
            }
        },
    }
}

/// The name a statistic's plots are filed under (see [`statistic_name`]).
fn statistic_text(s: Statistic) -> (r: &'static str)
    ensures
        r@ == statistic_name(s),
{
    match s {
        Statistic::Typical => "typical",
        Statistic::Slope => "slope",
        Statistic::Mean => "mean",
        Statistic::Median => "median",
        Statistic::MedianAbsDev => "MAD",
        Statistic::StdDev => "SD",
    }
}

/// The file of a plot (see [`plot_file`]).
pub fn plot_file_name(kind: PlotKind, thumbnail: bool, comparison: bool) -> (r: String)
    ensures
        r@ == plot_file(kind, thumbnail, comparison),
{
    match kind {
        PlotKind::Distribution(s) => {
            if comparison {
                let a = concat("change/", statistic_text(s));
                concat(a.as_str(), ".svg")
            } else {
                concat(statistic_text(s), ".svg")
            }
        },
        PlotKind::TTest => "change/t-test.svg".to_owned(),
        _ => {
            let stem = match kind {
                PlotKind::Pdf => "pdf",
                PlotKind::IterationTimes => "iteration_times",
                _ => "regression",
            };
            if comparison {
                if thumbnail {
                    let a = concat("relative_", stem);
                    concat(a.as_str(), "_small.svg")
                } else {
                    let a = concat("both/", stem);
                    concat(a.as_str(), ".svg")
                }
            } else {
                if thumbnail {
                    concat(stem, "_small.svg")
                } else {
                    concat(stem, ".svg")
                }
            }
        },
    }
}

/// A plot that a benchmark's report holds: its kind, whether it is a thumbnail, and whether it
/// compares the run with the previous one.
#[derive(Debug, Clone, Copy, PartialEq, Eq, Structural)]
pub struct PlannedPlot {
    pub kind: PlotKind,
    pub thumbnail: bool,
    pub comparison: bool,
}

/// A full-size plot of a run on its own.
pub open spec fn own_plot(kind: PlotKind) -> PlannedPlot {
    PlannedPlot { kind, thumbnail: false, comparison: false }
}

/// A full-size plot comparing a run with the previous one.
pub open spec fn compared_plot(kind: PlotKind) -> PlannedPlot {
    PlannedPlot { kind, thumbnail: false, comparison: true }
}

/// The distributions of a run's statistics, in the order they are drawn: the typical value,
/// the slope when one was fitted, the mean, the median, the median absolute deviation (drawn
/// twice) and the standard deviation.
pub open spec fn absolute_distributions(has_slope: bool) -> Seq<PlannedPlot> {
    seq![own_plot(PlotKind::Distribution(Statistic::Typical))] + (if has_slope {
        seq![own_plot(PlotKind::Distribution(Statistic::Slope))]
    } else {
        Seq::empty()
    }) + seq![
        own_plot(PlotKind::Distribution(Statistic::Mean)),
        own_plot(PlotKind::Distribution(Statistic::Median)),
        own_plot(PlotKind::Distribution(Statistic::MedianAbsDev)),
        own_plot(PlotKind::Distribution(Statistic::MedianAbsDev)),
        own_plot(PlotKind::Distribution(Statistic::StdDev)),
    ]
}

/// The plots of a report that follows `plan`, in the order they are drawn: the density and the
/// main plot (the regression, else the iteration times), each in full and as a thumbnail, then
/// the distributions of the statistics; when comparing, then the density and the main plot
/// compared with the previous run (the main plot being the regression only when both runs
/// fitted one), each in full and as a thumbnail, the t-test, and the distributions of the
/// changes of the mean and the median.
pub open spec fn planned_plots(plan: PlotPlan) -> Seq<PlannedPlot> {
    let main = if plan.regression { PlotKind::Regression } else { PlotKind::IterationTimes };
    let own = seq![
        own_plot(PlotKind::Pdf),
        PlannedPlot { kind: PlotKind::Pdf, thumbnail: true, comparison: false },
        own_plot(main),
        PlannedPlot { kind: main, thumbnail: true, comparison: false },
    ] + absolute_distributions(plan.regression);
    if plan.comparison {
        let compared = if plan.regression_comparison { PlotKind::Regression } else { PlotKind::IterationTimes };
        own + seq![
            compared_plot(PlotKind::Pdf),
            PlannedPlot { kind: PlotKind::Pdf, thumbnail: true, comparison: true },
            compared_plot(compared),
            PlannedPlot { kind: compared, thumbnail: true, comparison: true },
            compared_plot(PlotKind::TTest),
            compared_plot(PlotKind::Distribution(Statistic::Mean)),
            compared_plot(PlotKind::Distribution(Statistic::Median)),
        ]
    } else {
        own
    }
}

/// Appends a plot to a plan.
fn push_plot(r: &mut Vec<PlannedPlot>, kind: PlotKind, thumbnail: bool, comparison: bool)
    ensures
        final(r)@ == old(r)@.push(PlannedPlot { kind, thumbnail, comparison }),
{
    r.push(PlannedPlot { kind, thumbnail, comparison });
}

/// The plots of a report that follows `plan` (see [`planned_plots`]).
pub fn plot_jobs(plan: PlotPlan) -> (r: Vec<PlannedPlot>)
    ensures
        r@ == planned_plots(plan),
{
    let main = if plan.regression { PlotKind::Regression } else { PlotKind::IterationTimes };
    let mut r: Vec<PlannedPlot> = Vec::new();
    push_plot(&mut r, PlotKind::Pdf, false, false);
    push_plot(&mut r, PlotKind::Pdf, true, false);
    push_plot(&mut r, main, false, false);
    push_plot(&mut r, main, true, false);
    push_plot(&mut r, PlotKind::Distribution(Statistic::Typical), false, false);
    if plan.regression {
        push_plot(&mut r, PlotKind::Distribution(Statistic::Slope), false, false);
    }
    push_plot(&mut r, PlotKind::Distribution(Statistic::Mean), false, false);
    push_plot(&mut r, PlotKind::Distribution(Statistic::Median), false, false);
    push_plot(&mut r, PlotKind::Distribution(Statistic::MedianAbsDev), false, false);
    push_plot(&mut r, PlotKind::Distribution(Statistic::MedianAbsDev), false, false);
    push_plot(&mut r, PlotKind::Distribution(Statistic::StdDev), false, false);
    let ghost own = r@;
    assert(own =~= seq![
        own_plot(PlotKind::Pdf),
        PlannedPlot { kind: PlotKind::Pdf, thumbnail: true, comparison: false },
        own_plot(main),
        PlannedPlot { kind: main, thumbnail: true, comparison: false },
    ] + absolute_distributions(plan.regression));
    if plan.comparison {
        let compared = if plan.regression_comparison { PlotKind::Regression } else { PlotKind::IterationTimes };
        push_plot(&mut r, PlotKind::Pdf, false, true);
        push_plot(&mut r, PlotKind::Pdf, true, true);
        push_plot(&mut r, compared, false, true);
        push_plot(&mut r, compared, true, true);
        push_plot(&mut r, PlotKind::TTest, false, true);
        push_plot(&mut r, PlotKind::Distribution(Statistic::Mean), false, true);
        push_plot(&mut r, PlotKind::Distribution(Statistic::Median), false, true);
    }
    assert(r@ =~= planned_plots(plan));
    r
}

/// The number of characters in the name a statistic's plots are filed under.
proof fn lemma_statistic_name_len(s: Statistic)
    ensures
        statistic_name(s).len() == match s {
            Statistic::Typical => 7int,
            Statistic::Slope => 5,
            Statistic::Mean => 4,
            Statistic::Median => 6,
            Statistic::MedianAbsDev => 3,
            Statistic::StdDev => 2,
        },
{
    reveal_strlit("typical");
    reveal_strlit("slope");
    reveal_strlit("mean");
    reveal_strlit("median");
    reveal_strlit("MAD");
    reveal_strlit("SD");
}

/// Distinct plots of a report go to distinct files: for the density, iteration-times and
/// regression plots, the full-size plot, its thumbnail and their comparisons with the previous
/// run each have a file of their own, a thumbnail's ending in `_small.svg`; and the
/// distributions of distinct statistics, or of a statistic and of its change, have files of
/// their own.
pub proof fn law_plot_files_distinct(
    kind: PlotKind,
    thumbnail1: bool,
    comparison1: bool,
    thumbnail2: bool,
    comparison2: bool,
    s1: Statistic,
    s2: Statistic,
)
    ensures
        (kind == PlotKind::Pdf || kind == PlotKind::IterationTimes || kind == PlotKind::Regression)
            && plot_file(kind, thumbnail1, comparison1) == plot_file(kind, thumbnail2, comparison2) ==> thumbnail1
            == thumbnail2 && comparison1 == comparison2,
        (kind == PlotKind::Pdf || kind == PlotKind::IterationTimes || kind == PlotKind::Regression) && thumbnail1
            ==> {
            let f = plot_file(kind, thumbnail1, comparison1);
            let small = "_small.svg"@;
            f.len() >= small.len() && f.subrange(f.len() - small.len(), f.len() as int) == small
        },
        plot_file(PlotKind::Distribution(s1), thumbnail1, comparison1) == plot_file(
            PlotKind::Distribution(s2),
            thumbnail2,
            comparison2,
        ) ==> s1 == s2 && comparison1 == comparison2,
{
    reveal_strlit(".svg");
    reveal_strlit("_small.svg");
    reveal_strlit("both/");
    reveal_strlit("relative_");
    reveal_strlit("change/");
    lemma_statistic_name_len(s1);
    lemma_statistic_name_len(s2);
    let d1 = plot_file(PlotKind::Distribution(s1), thumbnail1, comparison1);
    let d2 = plot_file(PlotKind::Distribution(s2), thumbnail2, comparison2);
    assert(d1.len() == statistic_name(s1).len() + if comparison1 { 11int } else { 4 });
    assert(d2.len() == statistic_name(s2).len() + if comparison2 { 11int } else { 4 });
    if d1 == d2 {
        assert(d1.len() == d2.len());
        match s1 {
            Statistic::Typical => {},
            Statistic::Slope => {},
            Statistic::Mean => {},
            Statistic::Median => {},
            Statistic::MedianAbsDev => {},
            Statistic::StdDev => {},
        }
    }
    if kind == PlotKind::Pdf || kind == PlotKind::IterationTimes || kind == PlotKind::Regression {
        let f = plot_file(kind, thumbnail1, comparison1);
        let g = plot_file(kind, thumbnail2, comparison2);
        let n = plot_stem(kind).len() as int;
        assert(f.len() == n + if comparison1 { if thumbnail1 { 19int } else { 9 } } else { if thumbnail1 { 10int } else { 4 } });
        assert(g.len() == n + if comparison2 { if thumbnail2 { 19int } else { 9 } } else { if thumbnail2 { 10int } else { 4 } });
        let small = "_small.svg"@;
        if thumbnail1 {
            assert(f.subrange(f.len() - small.len(), f.len() as int) =~= small);
        }
    }
}

} // verus!
