//! The content of the HTML reports: which links a page shows and where they point, which
//! benchmarks a summary page covers, and the texts of a comparison.
//!
//! Whether a report file exists is a fact about the disk. The functions here take it as the list
//! of files present under the output directory, each given by its path relative to that
//! directory.
use crate::linked::{
    group_entries, group_get, group_names, keys_distinct, lemma_index_of, keys_of, new_option_set, option_set_insert_if_absent, option_set_items, option_set_items_of,
    benchmark_ids,
};
use crate::model::{benchmarks_of, BenchmarkGroup as GroupModel, Model};
use crate::report::{filename_safe, make_filename_safe, new_id_view, BenchmarkId, BenchmarkIdView, ComparisonResult};
use crate::text::{join_path, joined, str_eq};
use vstd::prelude::*;

verus! {

/// The size of a report's thumbnails, in pixels: width and height.
#[derive(Debug, Clone, Copy, PartialEq, Eq, Structural)]
pub struct Size(pub usize, pub usize);

/// The width of the thumbnails on a report page.
pub const THUMBNAIL_WIDTH: usize = 450;

/// The height of the thumbnails on a report page.
pub const THUMBNAIL_HEIGHT: usize = 300;

/// The size of the thumbnails on a report page.
pub fn thumbnail_size() -> (r: Size)
    ensures
        r == Size(THUMBNAIL_WIDTH, THUMBNAIL_HEIGHT),
{
    Size(THUMBNAIL_WIDTH, THUMBNAIL_HEIGHT)
}

/// A plot shown on a report page: its caption and the file it is drawn in.
#[derive(Debug)]
pub struct Plot {
    pub name: String,
    pub url: String,
}

impl Plot {
    /// A plot with the given caption and file.
    pub fn new(name: &str, url: &str) -> (r: Plot)
        ensures
            r.name@ == name@,
            r.url@ == url@,
    {
        Plot { name: name.to_owned(), url: url.to_owned() }
    }
}

/// The report page of a directory: `index.html` in it.
pub open spec fn report_index(dir: Seq<char>) -> Seq<char> {
    joined(dir, "index.html"@)
}

/// The views of a list of strings.
pub open spec fn views_of(files: Seq<String>) -> Seq<Seq<char>> {
    files.map_values(|f: String| f@)
}

/// Whether `path` is one of `files`.
pub fn holds_file(files: &Vec<String>, path: &str) -> (r: bool)
    ensures
        r == views_of(files@).contains(path@),
{
    let mut i: usize = 0;
    while i < files.len()
        invariant
            i <= files.len(),
            forall|j: int| 0 <= j < i ==> files@[j]@ != path@,
        decreases files.len() - i,
    {
        if str_eq(files[i].as_str(), path) {
            assert(views_of(files@)[i as int] == path@);
            return true;
        }
        i = i + 1;
    }
    proof {
        if views_of(files@).contains(path@) {
            let j = choose|j: int| 0 <= j < views_of(files@).len() && views_of(files@)[j] == path@;
            assert(files@[j]@ == path@);
        }
    }
    false
}

/// The report page of a directory, where it exists: `index.html` in the directory, relative to
/// the output directory.
pub open spec fn existing_report(files: Seq<Seq<char>>, dir: Seq<char>) -> Option<Seq<char>> {
    if files.contains(report_index(dir)) {
        Some(report_index(dir))
    } else {
        None
    }
}

/// The report page of the directory `path`, if `files` holds it.
pub fn if_exists(files: &Vec<String>, path: &str) -> (r: Option<String>)
    ensures
        r.deep_view() == existing_report(views_of(files@), path@),
{
    let report_path = join_path(path, "index.html");
    if holds_file(files, report_path.as_str()) {
        Some(report_path)
    } else {
        None
    }
}

/// What a link shows and where it points, if anywhere.
pub struct LinkView {
    pub name: Seq<char>,
    pub path: Option<Seq<char>>,
}

/// A link to a report page: its text, and the page where one was written.
#[derive(Debug)]
pub struct ReportLink {
    pub name: String,
    pub path: Option<String>,
}

impl View for ReportLink {
    type V = LinkView;

    open spec fn view(&self) -> LinkView {
        LinkView { name: self.name@, path: self.path.deep_view() }
    }
}

/// The link with text `name` to the report page of directory `dir`.
pub open spec fn link_to(files: Seq<Seq<char>>, name: Seq<char>, dir: Seq<char>) -> LinkView {
    LinkView { name, path: existing_report(files, dir) }
}

/// The link to the summary of a group.
pub open spec fn group_link(files: Seq<Seq<char>>, group_id: Seq<char>) -> LinkView {
    link_to(files, group_id, filename_safe(group_id))
}

/// The link to the summary of one function, or one input, of a group.
pub open spec fn member_link(files: Seq<Seq<char>>, group_id: Seq<char>, member: Seq<char>) -> LinkView {
    link_to(files, member, joined(filename_safe(group_id), filename_safe(member)))
}

/// The link to the report of one benchmark.
pub open spec fn individual_link(files: Seq<Seq<char>>, id: BenchmarkIdView) -> LinkView {
    link_to(files, id.title, id.directory_name)
}

/// The views of a list of links.
pub open spec fn link_views(links: Seq<ReportLink>) -> Seq<LinkView> {
    links.map_values(|l: ReportLink| l@)
}

impl ReportLink {
    /// The link to the summary of the group `group_id`.
    pub fn group(files: &Vec<String>, group_id: &str) -> (r: ReportLink)
        ensures
            r@ == group_link(views_of(files@), group_id@),
    {
        let path = make_filename_safe(group_id);
        ReportLink { name: group_id.to_owned(), path: if_exists(files, path.as_str()) }
    }

    /// The link to the summary of the function `function_id` of the group `group_id`.
    pub fn function(files: &Vec<String>, group_id: &str, function_id: &str) -> (r: ReportLink)
        ensures
            r@ == member_link(views_of(files@), group_id@, function_id@),
    {
        let path = join_path(make_filename_safe(group_id).as_str(), make_filename_safe(function_id).as_str());
        ReportLink { name: function_id.to_owned(), path: if_exists(files, path.as_str()) }
    }

    /// The link to the summary of the input `value_str` of the group `group_id`.
    pub fn value(files: &Vec<String>, group_id: &str, value_str: &str) -> (r: ReportLink)
        ensures
            r@ == member_link(views_of(files@), group_id@, value_str@),
    {
        let path = join_path(make_filename_safe(group_id).as_str(), make_filename_safe(value_str).as_str());
        ReportLink { name: value_str.to_owned(), path: if_exists(files, path.as_str()) }
    }

    /// The link to the report of the benchmark `id`.
    pub fn individual(files: &Vec<String>, id: &BenchmarkId) -> (r: ReportLink)
        ensures
            r@ == individual_link(views_of(files@), id@),
    {
        ReportLink { name: id.as_title().to_owned(), path: if_exists(files, id.as_directory_name()) }
    }
}

/// One benchmark on a summary page: its title, the path of its directory from the summary's
/// directory, and whether a regression plot of it exists.
#[derive(Debug)]
pub struct IndividualBenchmark {
    pub name: String,
    pub path: String,
    pub regression_exists: bool,
}

impl IndividualBenchmark {
    /// The entry of benchmark `id` on a summary page, whose directory is reached from the
    /// summary's by `path_prefix`.
    pub fn from_id(files: &Vec<String>, path_prefix: &str, id: &BenchmarkId) -> (r: IndividualBenchmark)
        ensures
            r.name@ == id@.title,
            r.path@ == joined(path_prefix@, id@.directory_name),
            r.regression_exists == views_of(files@).contains(joined(id@.directory_name, "regression.svg"@)),
    {
        let regression_path = join_path(id.as_directory_name(), "regression.svg");
        IndividualBenchmark {
            name: id.as_title().to_owned(),
            path: join_path(path_prefix, id.as_directory_name()),
            regression_exists: holds_file(files, regression_path.as_str()),
        }
    }
}

/// The distinct items of `s`, each where it first occurs.
pub open spec fn first_occurrences(s: Seq<Option<Seq<char>>>) -> Seq<Option<Seq<char>>>
    decreases s.len(),
{
    if s.len() == 0 {
        Seq::empty()
    } else {
        let d = first_occurrences(s.drop_last());
        if d.contains(s.last()) {
            d
        } else {
            d.push(s.last())
        }
    }
}

/// The functions named by a list of benchmark identities, in order.
pub open spec fn functions_of(ids: Seq<BenchmarkIdView>) -> Seq<Option<Seq<char>>> {
    ids.map_values(|id: BenchmarkIdView| id.function_id)
}

/// The inputs named by a list of benchmark identities, in order.
pub open spec fn values_of(ids: Seq<BenchmarkIdView>) -> Seq<Option<Seq<char>>> {
    ids.map_values(|id: BenchmarkIdView| id.value_str)
}

/// Whether the identity names the function `f` and the input `v`.
pub open spec fn names(id: BenchmarkIdView, f: Option<Seq<char>>, v: Option<Seq<char>>) -> bool {
    id.function_id == f && id.value_str == v
}

/// The last of `ids` that names the function `f` and the input `v`, if any.
pub open spec fn last_with(ids: Seq<BenchmarkIdView>, f: Option<Seq<char>>, v: Option<Seq<char>>) -> Option<BenchmarkIdView>
    decreases ids.len(),
{
    if ids.len() == 0 {
        None
    } else if names(ids.last(), f, v) {
        Some(ids.last())
    } else {
        last_with(ids.drop_last(), f, v)
    }
}

/// The row of input `v` in a group's table: for each function of `fs` in turn, the link to the
/// last benchmark of that function and that input, where there is one.
pub open spec fn row_of(
    files: Seq<Seq<char>>,
    ids: Seq<BenchmarkIdView>,
    fs: Seq<Option<Seq<char>>>,
    v: Option<Seq<char>>,
) -> Seq<LinkView>
    decreases fs.len(),
{
    if fs.len() == 0 {
        Seq::empty()
    } else {
        let r = row_of(files, ids, fs.drop_last(), v);
        match last_with(ids, fs.last(), v) {
            Some(id) => r.push(individual_link(files, id)),
            None => r,
        }
    }
}

/// The links to the summaries of the members `s` of group `group_id`, when every item names a
/// member; `None` when one does not.
pub open spec fn member_links(files: Seq<Seq<char>>, group_id: Seq<char>, s: Seq<Option<Seq<char>>>) -> Option<Seq<LinkView>> {
    if forall|i: int| 0 <= i < s.len() ==> #[trigger] s[i] is Some {
        Some(Seq::new(s.len(), |i: int| member_link(files, group_id, s[i].unwrap())))
    } else {
        None
    }
}

/// The link to the summary of member `m` of group `group_id`, where `m` names one.
pub open spec fn opt_member_link(files: Seq<Seq<char>>, group_id: Seq<char>, m: Option<Seq<char>>) -> Option<LinkView> {
    match m {
        Some(x) => Some(member_link(files, group_id, x)),
        None => None,
    }
}

/// The rows of a group's table, one for each input of `vs`: the link to the input's summary, and
/// the row's links.
pub open spec fn value_rows(
    files: Seq<Seq<char>>,
    group_id: Seq<char>,
    ids: Seq<BenchmarkIdView>,
    fs: Seq<Option<Seq<char>>>,
    vs: Seq<Option<Seq<char>>>,
) -> Seq<(Option<LinkView>, Seq<LinkView>)> {
    Seq::new(vs.len(), |i: int| (opt_member_link(files, group_id, vs[i]), row_of(files, ids, fs, vs[i])))
}

/// The views of an optional list of links.
pub open spec fn opt_link_views(o: Option<Vec<ReportLink>>) -> Option<Seq<LinkView>> {
    match o {
        Some(l) => Some(link_views(l@)),
        None => None,
    }
}

/// One row of a group's table on the index page: the input, and the links to its benchmarks.
#[derive(Debug)]
pub struct BenchmarkValueGroup {
    pub value: Option<ReportLink>,
    pub benchmarks: Vec<ReportLink>,
}

impl View for BenchmarkValueGroup {
    type V = (Option<LinkView>, Seq<LinkView>);

    open spec fn view(&self) -> (Option<LinkView>, Seq<LinkView>) {
        (
            match self.value {
                Some(l) => Some(l@),
                None => None,
            },
            link_views(self.benchmarks@),
        )
    }
}

/// A group as the index page shows it: the link to its summary, the links to the summaries of
/// its functions and of its inputs (each where every benchmark names one), and its table.
#[derive(Debug)]
pub struct BenchmarkGroup {
    pub group_report: ReportLink,
    pub function_ids: Option<Vec<ReportLink>>,
    pub values: Option<Vec<ReportLink>>,
    pub individual_links: Vec<BenchmarkValueGroup>,
}

/// Whether `r` shows the group `group` of name `group_id` as the index page does.
pub open spec fn shows_group(files: Seq<Seq<char>>, group_id: Seq<char>, group: GroupModel, r: BenchmarkGroup) -> bool {
    let ids = keys_of(benchmarks_of(group));
    let fs = first_occurrences(functions_of(ids));
    let vs = first_occurrences(values_of(ids));
    &&& r.group_report@ == group_link(files, group_id)
    &&& opt_link_views(r.function_ids) == member_links(files, group_id, fs)
    &&& opt_link_views(r.values) == member_links(files, group_id, vs)
    &&& r.individual_links@.map_values(|g: BenchmarkValueGroup| g@) == value_rows(files, group_id, ids, fs, vs)
}

/// A copy of an optional string.
fn copy_opt(o: &Option<String>) -> (r: Option<String>)
    ensures
        r.deep_view() == o.deep_view(),
{
    match o {
        Some(s) => Some(s.clone()),
        None => None,
    }
}

/// Whether two optional strings are equal.
fn opt_eq(a: &Option<String>, b: &Option<String>) -> (r: bool)
    ensures
        r == (a.deep_view() == b.deep_view()),
{
    match (a, b) {
        (Some(x), Some(y)) => str_eq(x.as_str(), y.as_str()),
        (None, None) => true,
        _ => false,
    }
}

/// The views of a list of identities.
pub open spec fn id_views(ids: Seq<BenchmarkId>) -> Seq<BenchmarkIdView> {
    ids.map_values(|id: BenchmarkId| id@)
}

/// When no identity from position `k` on names `f` and `v`, the last that does lies before `k`.
proof fn lemma_last_with_prefix(ids: Seq<BenchmarkIdView>, f: Option<Seq<char>>, v: Option<Seq<char>>, k: int)
    requires
        0 <= k <= ids.len(),
        forall|j: int| k <= j < ids.len() ==> !names(#[trigger] ids[j], f, v),
    ensures
        last_with(ids, f, v) == last_with(ids.take(k), f, v),
    decreases ids.len(),
{
    if k == ids.len() {
        assert(ids.take(k) =~= ids);
    } else {
        assert(!names(ids[ids.len() - 1], f, v));
        lemma_last_with_prefix(ids.drop_last(), f, v, k);
        assert(ids.drop_last().take(k) =~= ids.take(k));
    }
}

/// The position of the last of `ids` that names `f` and `v`.
fn find_last(ids: &Vec<BenchmarkId>, f: &Option<String>, v: &Option<String>) -> (r: Option<usize>)
    ensures
        match r {
            Some(k) => k < ids.len() && last_with(id_views(ids@), f.deep_view(), v.deep_view()) == Some(ids@[k as int]@),
            None => last_with(id_views(ids@), f.deep_view(), v.deep_view()) is None,
        },
{
    let ghost views = id_views(ids@);
    let mut k: usize = ids.len();
    while k > 0
        invariant
            k <= ids.len(),
            views == id_views(ids@),
            forall|j: int| k <= j < ids.len() ==> !names(#[trigger] views[j], f.deep_view(), v.deep_view()),
        decreases k,
    {
        let id = &ids[k - 1];
        if opt_eq(id.function(), f) && opt_eq(id.value(), v) {
            proof {
                lemma_last_with_prefix(views, f.deep_view(), v.deep_view(), k as int);
                let t = views.take(k as int);
                assert(t.last() == views[k - 1]);
            }
            return Some(k - 1);
        }
        k = k - 1;
    }
    proof {
        lemma_last_with_prefix(views, f.deep_view(), v.deep_view(), 0);
    }
    None
}

/// The row of input `v` of a group's table.
fn value_row(files: &Vec<String>, ids: &Vec<BenchmarkId>, fs: &Vec<Option<String>>, v: &Option<String>) -> (r: Vec<ReportLink>)
    ensures
        link_views(r@) == row_of(views_of(files@), id_views(ids@), fs.deep_view(), v.deep_view()),
{
    let mut row: Vec<ReportLink> = Vec::new();
    let mut j: usize = 0;
    while j < fs.len()
        invariant
            j <= fs.len(),
            link_views(row@) == row_of(views_of(files@), id_views(ids@), fs.deep_view().take(j as int), v.deep_view()),
        decreases fs.len() - j,
    {
        let ghost before = row@;
        proof {
            assert(fs.deep_view().take(j + 1).drop_last() =~= fs.deep_view().take(j as int));
        }
        match find_last(ids, &fs[j], v) {
            Some(k) => {
                let link = ReportLink::individual(files, &ids[k]);
                row.push(link);
                assert(link_views(row@) =~= link_views(before).push(link@));
            },
            None => {},
        }
        j = j + 1;
    }
    assert(fs.deep_view().take(fs.len() as int) =~= fs.deep_view());
    row
}

/// The links to the summaries of the members `items` of group `group_id`, or `None` when one of
/// them names no member.
fn member_links_of(files: &Vec<String>, group_id: &str, items: &Vec<Option<String>>) -> (r: Option<Vec<ReportLink>>)
    ensures
        opt_link_views(r) == member_links(views_of(files@), group_id@, items.deep_view()),
{
    let ghost s = items.deep_view();
    let mut links: Vec<ReportLink> = Vec::new();
    let mut i: usize = 0;
    while i < items.len()
        invariant
            i <= items.len(),
            s == items.deep_view(),
            link_views(links@) =~= Seq::new(i as nat, |j: int| member_link(views_of(files@), group_id@, s[j].unwrap())),
            forall|j: int| 0 <= j < i ==> #[trigger] s[j] is Some,
        decreases items.len() - i,
    {
        let ghost before = links@;
        match &items[i] {
            Some(m) => {
                let link = ReportLink::function(files, group_id, m.as_str());
                links.push(link);
                assert(link_views(links@) =~= link_views(before).push(link@));
            },
            None => {
                assert(!(s[i as int] is Some));
                return None;
            },
        }
        i = i + 1;
    }
    Some(links)
}

impl BenchmarkGroup {
    /// The group `group_id` as the index page shows it. Its functions, and its inputs, are each
    /// listed once, in the order the benchmarks first name them; the table has a row for each
    /// input and, in it, a link for each function for which a benchmark of that function and
    /// input exists (the last such benchmark).
    pub fn new(files: &Vec<String>, group_id: &str, group: &GroupModel) -> (r: BenchmarkGroup)
        ensures
            shows_group(views_of(files@), group_id@, *group, r),
    {
        let group_report = ReportLink::group(files, group_id);
        let ids = benchmark_ids(&group.benchmarks);
        let ghost views = id_views(ids@);
        assert(views =~= keys_of(benchmarks_of(*group)));
        let fs = distinct_members(&ids, false);
        let vs = distinct_members(&ids, true);
        let ghost rows_spec = value_rows(views_of(files@), group_id@, views, fs.deep_view(), vs.deep_view());
        let mut rows: Vec<BenchmarkValueGroup> = Vec::new();
        let mut j: usize = 0;
        while j < vs.len()
            invariant
                j <= vs.len(),
                views == id_views(ids@),
                rows_spec == value_rows(views_of(files@), group_id@, views, fs.deep_view(), vs.deep_view()),
                rows@.map_values(|g: BenchmarkValueGroup| g@) =~= rows_spec.take(j as int),
            decreases vs.len() - j,
        {
            let value = match &vs[j] {
                Some(s) => Some(ReportLink::value(files, group_id, s.as_str())),
                None => None,
            };
            let benchmarks = value_row(files, &ids, &fs, &vs[j]);
            let ghost before = rows@;
            let row = BenchmarkValueGroup { value, benchmarks };
            assert(row@ == rows_spec[j as int]);
            rows.push(row);
            assert(rows@.map_values(|g: BenchmarkValueGroup| g@) =~= before.map_values(|g: BenchmarkValueGroup| g@).push(row@));
            j = j + 1;
        }
        assert(rows_spec.take(vs.len() as int) =~= rows_spec);
        let r = BenchmarkGroup {
            group_report,
            function_ids: member_links_of(files, group_id, &fs),
            values: member_links_of(files, group_id, &vs),
            individual_links: rows,
        };
        assert(r.individual_links@.map_values(|g: BenchmarkValueGroup| g@) == rows_spec);
        r
    }
}

/// The functions (or, by value, the inputs) that benchmarks name.
pub open spec fn members_of(ids: Seq<BenchmarkIdView>, by_value: bool) -> Seq<Option<Seq<char>>> {
    if by_value {
        values_of(ids)
    } else {
        functions_of(ids)
    }
}

/// The functions (or, by value, the inputs) that the benchmarks `ids` name, each once, in the
/// order they are first named.
fn distinct_members(ids: &Vec<BenchmarkId>, by_value: bool) -> (r: Vec<Option<String>>)
    ensures
        r.deep_view() == first_occurrences(members_of(id_views(ids@), by_value)),
{
    let ghost views = id_views(ids@);
    let ghost ms = members_of(views, by_value);
    let mut set = new_option_set();
    let mut i: usize = 0;
    while i < ids.len()
        invariant
            i <= ids.len(),
            views == id_views(ids@),
            ms == members_of(views, by_value),
            option_set_items(set) == first_occurrences(ms.take(i as int)),
        decreases ids.len() - i,
    {
        proof {
            assert(ms.take(i + 1).drop_last() =~= ms.take(i as int));
        }
        let item = if by_value {
            copy_opt(ids[i].value())
        } else {
            copy_opt(ids[i].function())
        };
        option_set_insert_if_absent(&mut set, item);
        i = i + 1;
    }
    assert(ms.take(ids.len() as int) =~= ms);
    option_set_items_of(&set)
}

/// The groups of the model as the index page shows them, in the model's order.
pub fn index_groups(files: &Vec<String>, model: &Model) -> (r: Vec<BenchmarkGroup>)
    requires
        model.wf(),
    ensures
        r@.len() == model.entries().len(),
        forall|i: int| 0 <= i < r@.len() ==> shows_group(views_of(files@), model.entries()[i].0, model.entries()[i].1, #[trigger] r@[i]),
{
    let groups = model.groups();
    let names = group_names(groups);
    let ghost es = model.entries();
    proof {
        model.lemma_group_names_distinct();
    }
    assert(names.deep_view().len() == names@.len());
    let mut r: Vec<BenchmarkGroup> = Vec::new();
    let mut i: usize = 0;
    while i < names.len()
        invariant
            i <= names.len(),
            es == model.entries(),
            es == group_entries(*groups),
            keys_distinct(es),
            names.deep_view() == keys_of(es),
            names@.len() == es.len(),
            r@.len() == i,
            forall|j: int| 0 <= j < i ==> shows_group(views_of(files@), es[j].0, es[j].1, #[trigger] r@[j]),
        decreases names.len() - i,
    {
        assert(names.deep_view().len() == names@.len());
        assert(keys_of(es)[i as int] == es[i as int].0);
        proof {
            lemma_index_of(es, es[i as int].0);
        }
        match group_get(groups, names[i].as_str()) {
            Some(g) => {
                r.push(BenchmarkGroup::new(files, names[i].as_str(), g));
            },
            None => {
                assert(false);
            },
        }
        i = i + 1;
    }
    r
}

/// Whether the benchmark `id` names the member `m`: the function, or by value the input.
pub open spec fn has_member(id: BenchmarkIdView, by_value: bool, m: Option<Seq<char>>) -> bool {
    if by_value {
        id.value_str == m
    } else {
        id.function_id == m
    }
}

/// The benchmarks of `ids` that name the member `m`, in order.
pub open spec fn with_member(ids: Seq<BenchmarkIdView>, by_value: bool, m: Option<Seq<char>>) -> Seq<BenchmarkIdView>
    decreases ids.len(),
{
    if ids.len() == 0 {
        Seq::empty()
    } else {
        let r = with_member(ids.drop_last(), by_value, m);
        if has_member(ids.last(), by_value, m) {
            r.push(ids.last())
        } else {
            r
        }
    }
}

/// What a summary page covers: the identity it is written under, the benchmarks it compares,
/// and whether it is the summary of a whole group.
pub struct JobView {
    pub id: BenchmarkIdView,
    pub members: Seq<BenchmarkIdView>,
    pub full_summary: bool,
}

/// The summaries of the members `ms` of group `group_id`: one for each member that more than
/// one benchmark names, written under the identity of the group and that member.
pub open spec fn member_summaries(
    group_id: Seq<char>,
    ids: Seq<BenchmarkIdView>,
    by_value: bool,
    ms: Seq<Option<Seq<char>>>,
) -> Seq<JobView>
    decreases ms.len(),
{
    if ms.len() == 0 {
        Seq::empty()
    } else {
        let r = member_summaries(group_id, ids, by_value, ms.drop_last());
        let m = ms.last();
        let members = with_member(ids, by_value, m);
        if m is Some && members.len() > 1 {
            r.push(
                JobView {
                    id: if by_value {
                        new_id_view(group_id, None, m, None)
                    } else {
                        new_id_view(group_id, m, None, None)
                    },
                    members,
                    full_summary: false,
                },
            )
        } else {
            r
        }
    }
}

/// The summary pages of a group with benchmarks `ids`, in the order they are written: those of
/// its functions, then those of its inputs, then the summary of the whole group. A group without
/// benchmarks gets none.
pub open spec fn summaries(group_id: Seq<char>, ids: Seq<BenchmarkIdView>) -> Seq<JobView> {
    if ids.len() == 0 {
        Seq::empty()
    } else {
        member_summaries(group_id, ids, false, first_occurrences(functions_of(ids)))
            + member_summaries(group_id, ids, true, first_occurrences(values_of(ids)))
            + seq![JobView { id: new_id_view(group_id, None, None, None), members: ids, full_summary: true }]
    }
}

/// A summary page to write: the identity it is written under, the benchmarks it compares, and
/// whether it is the summary of a whole group.
#[derive(Debug)]
pub struct SummaryJob {
    pub id: BenchmarkId,
    pub members: Vec<BenchmarkId>,
    pub full_summary: bool,
}

impl View for SummaryJob {
    type V = JobView;

    open spec fn view(&self) -> JobView {
        JobView { id: self.id@, members: id_views(self.members@), full_summary: self.full_summary }
    }
}

/// The benchmarks of `ids` that name the member `m`.
fn select_members(ids: &Vec<BenchmarkId>, by_value: bool, m: &Option<String>) -> (r: Vec<BenchmarkId>)
    ensures
        id_views(r@) == with_member(id_views(ids@), by_value, m.deep_view()),
{
    let ghost views = id_views(ids@);
    let mut r: Vec<BenchmarkId> = Vec::new();
    let mut i: usize = 0;
    while i < ids.len()
        invariant
            i <= ids.len(),
            views == id_views(ids@),
            id_views(r@) == with_member(views.take(i as int), by_value, m.deep_view()),
        decreases ids.len() - i,
    {
        proof {
            assert(views.take(i + 1).drop_last() =~= views.take(i as int));
        }
        let named = if by_value {
            opt_eq(ids[i].value(), m)
        } else {
            opt_eq(ids[i].function(), m)
        };
        if named {
            let ghost before = r@;
            let id = ids[i].duplicate();
            r.push(id);
            assert(id_views(r@) =~= id_views(before).push(id@));
        }
        i = i + 1;
    }
    assert(views.take(ids.len() as int) =~= views);
    r
}

/// Appends to `jobs` the summaries of the members `ms` of the group.
fn push_member_summaries(
    jobs: &mut Vec<SummaryJob>,
    group_id: &str,
    ids: &Vec<BenchmarkId>,
    by_value: bool,
    ms: &Vec<Option<String>>,
)
    ensures
        final(jobs)@.map_values(|j: SummaryJob| j@) == old(jobs)@.map_values(|j: SummaryJob| j@)
            + member_summaries(group_id@, id_views(ids@), by_value, ms.deep_view()),
{
    let ghost start = jobs@.map_values(|j: SummaryJob| j@);
    let ghost views = id_views(ids@);
    let mut k: usize = 0;
    while k < ms.len()
        invariant
            k <= ms.len(),
            views == id_views(ids@),
            jobs@.map_values(|j: SummaryJob| j@) == start + member_summaries(group_id@, views, by_value, ms.deep_view().take(k as int)),
        decreases ms.len() - k,
    {
        proof {
            assert(ms.deep_view().take(k + 1).drop_last() =~= ms.deep_view().take(k as int));
        }
        if ms[k].is_some() {
            let members = select_members(ids, by_value, &ms[k]);
            if members.len() > 1 {
                let id = if by_value {
                    BenchmarkId::new(group_id.to_owned(), None, copy_opt(&ms[k]), None)
                } else {
                    BenchmarkId::new(group_id.to_owned(), copy_opt(&ms[k]), None, None)
                };
                let job = SummaryJob { id, members, full_summary: false };
                let ghost before = jobs@;
                jobs.push(job);
                assert(jobs@.map_values(|j: SummaryJob| j@) =~= before.map_values(|j: SummaryJob| j@).push(job@));
            }
        }
        k = k + 1;
    }
    assert(ms.deep_view().take(ms.len() as int) =~= ms.deep_view());
}

/// The summary pages to write for the group `group_id`, in order.
pub fn summary_jobs(group_id: &str, group: &GroupModel) -> (r: Vec<SummaryJob>)
    ensures
        r@.map_values(|j: SummaryJob| j@) == summaries(group_id@, keys_of(benchmarks_of(*group))),
{
    let ids = benchmark_ids(&group.benchmarks);
    let ghost views = id_views(ids@);
    assert(views =~= keys_of(benchmarks_of(*group)));
    let mut jobs: Vec<SummaryJob> = Vec::new();
    if ids.len() == 0 {
        assert(jobs@.map_values(|j: SummaryJob| j@) =~= Seq::<JobView>::empty());
        return jobs;
    }
    let fs = distinct_members(&ids, false);
    push_member_summaries(&mut jobs, group_id, &ids, false, &fs);
    let vs = distinct_members(&ids, true);
    push_member_summaries(&mut jobs, group_id, &ids, true, &vs);
    let mut all: Vec<BenchmarkId> = Vec::new();
    let mut i: usize = 0;
    while i < ids.len()
        invariant
            i <= ids.len(),
            views == id_views(ids@),
            id_views(all@) =~= views.take(i as int),
        decreases ids.len() - i,
    {
        let ghost before = all@;
        let id = ids[i].duplicate();
        all.push(id);
        assert(id_views(all@) =~= id_views(before).push(id@));
        i = i + 1;
    }
    assert(views.take(ids.len() as int) =~= views);
    let whole = BenchmarkId::new(group_id.to_owned(), None, None, None);
    let ghost before = jobs@;
    let job = SummaryJob { id: whole, members: all, full_summary: true };
    jobs.push(job);
    assert(jobs@.map_values(|j: SummaryJob| j@) =~= before.map_values(|j: SummaryJob| j@).push(job@));
    assert(jobs@.map_values(|j: SummaryJob| j@) =~= summaries(group_id@, views));
    jobs
}

/// How a summary page reaches the directories of its benchmarks: one level up for the summary
/// of a whole group, two for that of a function or an input.
pub fn path_prefix(full_summary: bool) -> (r: &'static str)
    ensures
        r@ == if full_summary { ".."@ } else { "../.."@ },
{
    if full_summary {
        ".."
    } else {
        "../.."
    }
}

/// The sentence that explains a comparison with the previous run: whether the mean differs
/// significantly, and if so how the change compares with the noise threshold.
pub open spec fn explanation_text(different_mean: bool, comparison: ComparisonResult) -> Seq<char> {
    if !different_mean {
        "No change in performance detected."@
    } else {
        match comparison {
            ComparisonResult::Improved => "Performance has improved."@,
            ComparisonResult::Regressed => "Performance has regressed."@,
            ComparisonResult::NonSignificant => "Change within noise threshold."@,
        }
    }
}

/// The sentence that explains a comparison with the previous run.
pub fn explanation(different_mean: bool, comparison: ComparisonResult) -> (r: &'static str)
    ensures
        r@ == explanation_text(different_mean, comparison),
{
    if !different_mean {
        "No change in performance detected."
    } else {
        match comparison {
            ComparisonResult::Improved => "Performance has improved.",
            ComparisonResult::Regressed => "Performance has regressed.",
            ComparisonResult::NonSignificant => "Change within noise threshold.",
        }
    }
}

/// How the p-value of a comparison stands to the significance level: `<` when the mean differs
/// significantly, `>` when it does not.
pub fn inequality(different_mean: bool) -> (r: &'static str)
    ensures
        r@ == if different_mean { "<"@ } else { ">"@ },
{
    if different_mean {
        "<"
    } else {
        ">"
    }
}

/// The captions and files of the plots on a list of plots.
pub open spec fn plot_views(plots: Seq<Plot>) -> Seq<(Seq<char>, Seq<char>)> {
    plots.map_values(|p: Plot| (p.name@, p.url@))
}

/// The additional plots of a benchmark's report: the distributions of its estimates, with that
/// of the slope where there is one.
pub fn measurement_plots(has_slope: bool) -> (r: Vec<Plot>)
    ensures
        plot_views(r@) == seq![
            ("Typical"@, "typical.svg"@),
            ("Mean"@, "mean.svg"@),
            ("Std. Dev."@, "SD.svg"@),
            ("Median"@, "median.svg"@),
            ("MAD"@, "MAD.svg"@),
        ] + if has_slope { seq![("Slope"@, "slope.svg"@)] } else { Seq::empty() },
{
    let mut plots = vec![
        Plot::new("Typical", "typical.svg"),
        Plot::new("Mean", "mean.svg"),
        Plot::new("Std. Dev.", "SD.svg"),
        Plot::new("Median", "median.svg"),
        Plot::new("MAD", "MAD.svg"),
    ];
    if has_slope {
        plots.push(Plot::new("Slope", "slope.svg"));
    }
    assert(plot_views(plots@) =~= seq![
        ("Typical"@, "typical.svg"@),
        ("Mean"@, "mean.svg"@),
        ("Std. Dev."@, "SD.svg"@),
        ("Median"@, "median.svg"@),
        ("MAD"@, "MAD.svg"@),
    ] + if has_slope { seq![("Slope"@, "slope.svg"@)] } else { Seq::empty() });
    plots
}

/// The additional plots of a comparison with the previous run.
pub fn comparison_plots() -> (r: Vec<Plot>)
    ensures
        plot_views(r@) == seq![
            ("Change in mean"@, "change/mean.svg"@),
            ("Change in median"@, "change/median.svg"@),
            ("T-Test"@, "change/t-test.svg"@),
        ],
{
    let plots = vec![
        Plot::new("Change in mean", "change/mean.svg"),
        Plot::new("Change in median", "change/median.svg"),
        Plot::new("T-Test", "change/t-test.svg"),
    ];
    assert(plot_views(plots@) =~= seq![
        ("Change in mean"@, "change/mean.svg"@),
        ("Change in median"@, "change/median.svg"@),
        ("T-Test"@, "change/t-test.svg"@),
    ]);
    plots
}

/// The distinct items of a sequence are exactly its items, each once.
proof fn lemma_first_occurrences(s: Seq<Option<Seq<char>>>)
    ensures
        forall|x: Option<Seq<char>>| first_occurrences(s).contains(x) <==> s.contains(x),
        forall|i: int, j: int|
            0 <= i < j < first_occurrences(s).len() ==> #[trigger] first_occurrences(s)[i]
                != #[trigger] first_occurrences(s)[j],
    decreases s.len(),
{
    if s.len() > 0 {
        let t = s.drop_last();
        lemma_first_occurrences(t);
        let d = first_occurrences(t);
        assert forall|x: Option<Seq<char>>| first_occurrences(s).contains(x) <==> s.contains(x) by {
            if s.contains(x) && x != s.last() {
                let k = choose|k: int| 0 <= k < s.len() && s[k] == x;
                assert(t[k] == x);
            }
            if t.contains(x) {
                let k = choose|k: int| 0 <= k < t.len() && t[k] == x;
                assert(s[k] == x);
            }
            if x == s.last() {
                assert(s[s.len() - 1] == x);
            }
            if !d.contains(s.last()) && first_occurrences(s).contains(x) {
                let k = choose|k: int| 0 <= k < d.len() + 1 && d.push(s.last())[k] == x;
                if k < d.len() {
                    assert(d[k] == x);
                }
            }
            if !d.contains(s.last()) && d.contains(x) {
                let k = choose|k: int| 0 <= k < d.len() && d[k] == x;
                assert(d.push(s.last())[k] == x);
            }
            if !d.contains(s.last()) && x == s.last() {
                assert(d.push(s.last())[d.len() as int] == x);
            }
        }
    }
}

/// The input of a row of a group's table, as its value link names it.
pub open spec fn row_input(row: BenchmarkValueGroup) -> Option<Seq<char>> {
    match row.value {
        Some(l) => Some(l.name@),
        None => None,
    }
}

/// The summary page of input `v` of group `group_id`, relative to the output directory.
pub open spec fn input_page(group_id: Seq<char>, v: Seq<char>) -> Seq<char> {
    joined(joined(filename_safe(group_id), filename_safe(v)), "index.html"@)
}

/// A group's table has one row for each input its benchmarks name, and no other: each input
/// once. A row's value link is named by the input and points at the input's summary page,
/// `index.html` in the directory of the group and input made safe for file names, exactly when
/// that page exists; the same holds of the links to the inputs listed above the table.
pub proof fn law_group_table_rows(files: Seq<Seq<char>>, group_id: Seq<char>, group: GroupModel, r: BenchmarkGroup)
    requires
        shows_group(files, group_id, group, r),
    ensures
        forall|i: int|
            0 <= i < r.individual_links@.len() ==> match (#[trigger] r.individual_links@[i]).value {
                Some(l) => l.path.deep_view() == if files.contains(input_page(group_id, l.name@)) {
                    Some(input_page(group_id, l.name@))
                } else {
                    None
                },
                None => true,
            },
        forall|i: int|
            0 <= i < r.individual_links@.len() ==> exists|k: int|
                0 <= k < keys_of(benchmarks_of(group)).len() && #[trigger] keys_of(benchmarks_of(group))[k].value_str
                    == row_input(#[trigger] r.individual_links@[i]),
        forall|k: int|
            0 <= k < keys_of(benchmarks_of(group)).len() ==> exists|i: int|
                0 <= i < r.individual_links@.len() && row_input(#[trigger] r.individual_links@[i])
                    == (#[trigger] keys_of(benchmarks_of(group))[k]).value_str,
        forall|i: int, j: int|
            0 <= i < j < r.individual_links@.len() ==> row_input(#[trigger] r.individual_links@[i]) != row_input(
                #[trigger] r.individual_links@[j],
            ),
        r.values matches Some(vl) ==> forall|i: int|
            0 <= i < vl@.len() ==> (#[trigger] vl@[i]).path.deep_view() == if files.contains(
                input_page(group_id, vl@[i].name@),
            ) {
                Some(input_page(group_id, vl@[i].name@))
            } else {
                None
            },
{
    let ids = keys_of(benchmarks_of(group));
    let fs = first_occurrences(functions_of(ids));
    let vs = first_occurrences(values_of(ids));
    let rows = r.individual_links@;
    let spec_rows = value_rows(files, group_id, ids, fs, vs);
    lemma_first_occurrences(values_of(ids));
    assert(rows.len() == vs.len()) by {
        assert(rows.map_values(|g: BenchmarkValueGroup| g@).len() == spec_rows.len());
    }
    assert forall|i: int| 0 <= i < rows.len() implies row_input(#[trigger] rows[i]) == vs[i] && match rows[i].value {
        Some(l) => l.path.deep_view() == if files.contains(input_page(group_id, l.name@)) {
            Some(input_page(group_id, l.name@))
        } else {
            None
        },
        None => true,
    } by {
        assert(rows.map_values(|g: BenchmarkValueGroup| g@)[i] == spec_rows[i]);
    }
    assert forall|i: int| 0 <= i < rows.len() implies exists|k: int|
        0 <= k < ids.len() && #[trigger] ids[k].value_str == row_input(#[trigger] rows[i]) by {
        assert(row_input(rows[i]) == vs[i]);
        assert(vs.contains(vs[i]));
        assert(values_of(ids).contains(vs[i]));
        let k = choose|k: int| 0 <= k < values_of(ids).len() && values_of(ids)[k] == vs[i];
        assert(ids[k].value_str == values_of(ids)[k]);
    }
    assert forall|k: int| 0 <= k < ids.len() implies exists|i: int|
        0 <= i < rows.len() && row_input(#[trigger] rows[i]) == (#[trigger] ids[k]).value_str by {
        assert(values_of(ids)[k] == ids[k].value_str);
        assert(values_of(ids).contains(ids[k].value_str));
        let i = choose|i: int| 0 <= i < vs.len() && vs[i] == ids[k].value_str;
        assert(row_input(rows[i]) == vs[i]);
    }
    assert forall|i: int, j: int| 0 <= i < j < rows.len() implies row_input(#[trigger] rows[i]) != row_input(
        #[trigger] rows[j],
    ) by {
        assert(row_input(rows[i]) == vs[i]);
        assert(row_input(rows[j]) == vs[j]);
    }
    if let Some(vl) = r.values {
        assert forall|i: int| 0 <= i < vl@.len() implies (#[trigger] vl@[i]).path.deep_view() == if files.contains(
            input_page(group_id, vl@[i].name@),
        ) {
            Some(input_page(group_id, vl@[i].name@))
        } else {
            None
        } by {
            assert(opt_link_views(r.values) == member_links(files, group_id, vs));
            assert(member_links(files, group_id, vs) is Some);
            let ls = member_links(files, group_id, vs).unwrap();
            assert(link_views(vl@) == ls);
            assert(link_views(vl@)[i] == vl@[i]@);
            assert(ls[i] == member_link(files, group_id, vs[i].unwrap()));
        }
    }
}

/// A link to a report page shows its name and points at `index.html` in the page's directory,
/// relative to the output directory, exactly when that file exists: the summary of a group lies
/// in the group's directory made safe for file names, that of one of its functions or inputs in
/// the subdirectory of that member made safe, and a benchmark's report in its directory.
pub proof fn law_report_links(files: Seq<Seq<char>>, group_id: Seq<char>, member: Seq<char>, id: BenchmarkIdView)
    ensures
        group_link(files, group_id).name == group_id,
        group_link(files, group_id).path == if files.contains(joined(filename_safe(group_id), "index.html"@)) {
            Some(joined(filename_safe(group_id), "index.html"@))
        } else {
            None
        },
        member_link(files, group_id, member).name == member,
        member_link(files, group_id, member).path == if files.contains(input_page(group_id, member)) {
            Some(input_page(group_id, member))
        } else {
            None
        },
        individual_link(files, id).name == id.title,
        individual_link(files, id).path == if files.contains(joined(id.directory_name, "index.html"@)) {
            Some(joined(id.directory_name, "index.html"@))
        } else {
            None
        },
{
}

} // verus!
