//! The identity of a benchmark: its group, function and input, the title shown to the user and
//! the directory its results and reports are stored in.
use crate::connection::{PlotConfiguration, RawBenchmarkId, Throughput};
use crate::text::{
    chars_of, concat, decimal, decimal_string, lemma_decimal_injective, lemma_decimal_len,
    string_of, joined, join_path,
};
use vstd::hash_set::StringHashSet;
use vstd::prelude::*;

verus! {

/// How a change compares with the noise threshold.
#[derive(Debug, Clone, Copy, PartialEq, Eq, Structural)]
pub enum ComparisonResult {
    Improved,
    Regressed,
    NonSignificant,
}

/// Whether a character may not stand in a file name on common platforms.
pub open spec fn unsafe_in_filename(c: char) -> bool {
    c == '?' || c == '"' || c == '/' || c == '\\' || c == '*' || c == '<' || c == '>' || c == ':'
        || c == '|' || c == '^'
}

/// `s` with every character that may not stand in a file name replaced by `_`.
pub open spec fn filename_safe(s: Seq<char>) -> Seq<char> {
    Seq::new(s.len(), |i: int| if unsafe_in_filename(s[i]) { '_' } else { s[i] })
}

/// Makes one component of a benchmark name usable as a directory name.
pub fn make_filename_safe(s: &str) -> (r: String)
    ensures
        r@ == filename_safe(s@),
{
    let cs = chars_of(s);
    let mut out: Vec<char> = Vec::new();
    let mut i: usize = 0;
    while i < cs.len()
        invariant
            i <= cs.len(),
            cs@ == s@,
            out@ == filename_safe(s@).take(i as int),
        decreases cs.len() - i,
    {
        let c = cs[i];
        if c == '?' || c == '"' || c == '/' || c == '\\' || c == '*' || c == '<' || c == '>' || c
            == ':' || c == '|' || c == '^' {
            out.push('_');
        } else {
            out.push(c);
        }
        assert(out@ =~= filename_safe(s@).take(i + 1));
        i = i + 1;
    }
    assert(out@ =~= filename_safe(s@));
    string_of(&out)
}

/// A name made safe holds no character that may not stand in a file name, keeps its length, and
/// is left as it is when made safe again.
pub proof fn law_filename_safe(s: Seq<char>)
    ensures
        forall|i: int| 0 <= i < filename_safe(s).len() ==> !unsafe_in_filename(#[trigger] filename_safe(s)[i]),
        filename_safe(s).len() == s.len(),
        filename_safe(filename_safe(s)) == filename_safe(s),
{
    assert(filename_safe(filename_safe(s)) =~= filename_safe(s));
}

/// The components of a benchmark name joined by `/`: the group, then the function, then the
/// input value, each where present.
pub open spec fn id_path(group: Seq<char>, function: Option<Seq<char>>, value: Option<Seq<char>>) -> Seq<char> {
    match (function, value) {
        (Some(f), Some(v)) => group + seq!['/'] + f + seq!['/'] + v,
        (Some(f), None) => group + seq!['/'] + f,
        (None, Some(v)) => group + seq!['/'] + v,
        (None, None) => group,
    }
}

/// `s` made safe for a file name, where present.
pub open spec fn safe_opt(s: Option<Seq<char>>) -> Option<Seq<char>> {
    match s {
        Some(x) => Some(filename_safe(x)),
        None => None,
    }
}

/// The plain content of a benchmark identity.
pub struct BenchmarkIdView {
    pub group_id: Seq<char>,
    pub function_id: Option<Seq<char>>,
    pub value_str: Option<Seq<char>>,
    pub throughput: Option<Throughput>,
    pub title: Seq<char>,
    pub directory_name: Seq<char>,
}

/// The identity that a benchmark of the given group, function, input and throughput gets.
pub open spec fn new_id_view(
    group_id: Seq<char>,
    function_id: Option<Seq<char>>,
    value_str: Option<Seq<char>>,
    throughput: Option<Throughput>,
) -> BenchmarkIdView {
    BenchmarkIdView {
        group_id,
        function_id,
        value_str,
        throughput,
        title: id_path(group_id, function_id, value_str),
        directory_name: id_path(filename_safe(group_id), safe_opt(function_id), safe_opt(value_str)),
    }
}

/// The identity of one benchmark.
#[derive(Debug, Clone, PartialEq, Eq, Hash)]
pub struct BenchmarkId {
    pub group_id: String,
    pub function_id: Option<String>,
    pub value_str: Option<String>,
    pub throughput: Option<Throughput>,
    title: String,
    directory_name: String,
}

impl View for BenchmarkId {
    type V = BenchmarkIdView;

    closed spec fn view(&self) -> BenchmarkIdView {
        BenchmarkIdView {
            group_id: self.group_id@,
            function_id: self.function_id.deep_view(),
            value_str: self.value_str.deep_view(),
            throughput: self.throughput,
            title: self.title@,
            directory_name: self.directory_name@,
        }
    }
}

/// Joins up to three name components with `/`.
fn join_components(group: &str, function: Option<&str>, value: Option<&str>) -> (r: String)
    ensures
        r@ == id_path(
            group@,
            match function {
                Some(f) => Some(f@),
                None => None,
            },
            match value {
                Some(v) => Some(v@),
                None => None,
            },
        ),
{
    proof {
        reveal_strlit("/");
    }
    match (function, value) {
        (Some(f), Some(v)) => {
            let a = concat(group, "/");
            let b = concat(a.as_str(), f);
            let c = concat(b.as_str(), "/");
            concat(c.as_str(), v)
        },
        (Some(f), None) => {
            let a = concat(group, "/");
            concat(a.as_str(), f)
        },
        (None, Some(v)) => {
            let a = concat(group, "/");
            concat(a.as_str(), v)
        },
        (None, None) => crate::text::owned(group),
    }
}

/// Borrows the content of an optional string.
fn opt_str(s: &Option<String>) -> (r: Option<&str>)
    ensures
        match (s, r) {
            (Some(a), Some(b)) => a@ == b@,
            (None, None) => true,
            _ => false,
        },
{
    match s {
        Some(x) => Some(x.as_str()),
        None => None,
    }
}

/// A candidate name: `base`, the separator, and the decimal number `n`.
pub open spec fn numbered(base: Seq<char>, sep: Seq<char>, n: nat) -> Seq<char> {
    base + sep + decimal(n)
}

/// The name that `base` becomes when it must differ from every name in `existing`: `base`
/// itself if it is free, else `base`, the separator and the least number from 2 up whose
/// candidate is free.
pub open spec fn uniquified(base: Seq<char>, sep: Seq<char>, existing: Set<Seq<char>>, r: Seq<char>) -> bool {
    if !existing.contains(base) {
        r == base
    } else {
        exists|k: nat|
            #![trigger numbered(base, sep, k)]
            {
                &&& k >= 2
                &&& r == numbered(base, sep, k)
                &&& !existing.contains(r)
                &&& forall|j: nat| 2 <= j < k ==> existing.contains(#[trigger] numbered(base, sep, j))
            }
    }
}

/// The candidates numbered from 2 up to (not including) `n`.
pub open spec fn candidates(base: Seq<char>, sep: Seq<char>, n: nat) -> Set<Seq<char>>
    decreases n,
{
    if n <= 2 {
        Set::empty()
    } else {
        candidates(base, sep, (n - 1) as nat).insert(numbered(base, sep, (n - 1) as nat))
    }
}

/// Distinct numbers give distinct candidates.
proof fn lemma_numbered_injective(base: Seq<char>, sep: Seq<char>, a: nat, b: nat)
    requires
        numbered(base, sep, a) == numbered(base, sep, b),
    ensures
        a == b,
{
    let p = (base + sep).len() as int;
    assert(numbered(base, sep, a).skip(p) =~= decimal(a));
    assert(numbered(base, sep, b).skip(p) =~= decimal(b));
    lemma_decimal_injective(a, b);
}

/// The candidates below `n` are finite, `n - 2` in number, and are exactly the numbered names.
proof fn lemma_candidates(base: Seq<char>, sep: Seq<char>, n: nat)
    ensures
        candidates(base, sep, n).finite(),
        n >= 2 ==> candidates(base, sep, n).len() == n - 2,
        forall|s: Seq<char>|
            #[trigger] candidates(base, sep, n).contains(s) <==> exists|j: nat|
                2 <= j < n && s == #[trigger] numbered(base, sep, j),
    decreases n,
{
    if n > 2 {
        let m = (n - 1) as nat;
        lemma_candidates(base, sep, m);
        let c = numbered(base, sep, m);
        if candidates(base, sep, m).contains(c) {
            let j = choose|j: nat| 2 <= j < m && c == numbered(base, sep, j);
            lemma_numbered_injective(base, sep, j, m);
        }
        assert forall|s: Seq<char>|
            #[trigger] candidates(base, sep, n).contains(s) implies exists|j: nat|
                2 <= j < n && s == #[trigger] numbered(base, sep, j) by {
            if s != c {
                let j = choose|j: nat| 2 <= j < m && s == numbered(base, sep, j);
                assert(2 <= j < n && s == numbered(base, sep, j));
            } else {
                assert(2 <= m < n && s == numbered(base, sep, m));
            }
        }
        assert forall|s: Seq<char>|
            (exists|j: nat| 2 <= j < n && s == #[trigger] numbered(base, sep, j)) implies #[trigger] candidates(
            base,
            sep,
            n,
        ).contains(s) by {
            let j = choose|j: nat| 2 <= j < n && s == numbered(base, sep, j);
            if j < m {
                assert(candidates(base, sep, m).contains(s));
            }
        }
    } else {
        assert forall|s: Seq<char>|
            #[trigger] candidates(base, sep, n).contains(s) <==> exists|j: nat|
                2 <= j < n && s == #[trigger] numbered(base, sep, j) by {}
    }
}

/// Returns `base` if it is not in `existing`, else the first free numbered candidate.
fn make_unique(base: &String, sep: &str, existing: &StringHashSet) -> (r: String)
    requires
        existing@.finite(),
        sep@.len() > 0,
    ensures
        uniquified(base@, sep@, existing@, r@),
        !existing@.contains(r@),
{
    if !existing.contains(base.as_str()) {
        return base.clone();
    }
    let size = existing.len();
    assert(existing@.len() == size);
    let mut counter: u128 = 2;
    let prefix = concat(base.as_str(), sep);
    loop
        invariant
            existing@.finite(),
            existing@.len() <= usize::MAX,
            existing@.contains(base@),
            prefix@ == base@ + sep@,
            2 <= counter,
            counter - 2 <= existing@.len(),
            forall|j: nat| 2 <= j < counter ==> existing@.contains(#[trigger] numbered(base@, sep@, j)),
        decreases existing@.len() + 2 - counter,
    {
        let number = decimal_string(counter);
        let candidate = concat(prefix.as_str(), number.as_str());
        assert(candidate@ == numbered(base@, sep@, counter as nat));
        if !existing.contains(candidate.as_str()) {
            assert(uniquified(base@, sep@, existing@, candidate@));
            return candidate;
        }
        proof {
            let n = (counter + 1) as nat;
            lemma_candidates(base@, sep@, n);
            assert forall|s: Seq<char>| candidates(base@, sep@, n).contains(s) implies existing@.contains(s) by {
                let j = choose|j: nat| 2 <= j < n && s == #[trigger] numbered(base@, sep@, j);
                if j < counter {
                    assert(existing@.contains(numbered(base@, sep@, j)));
                }
            }
            vstd::set_lib::lemma_len_subset(candidates(base@, sep@, n), existing@);
        }
        counter = counter + 1;
    }
}

impl BenchmarkId {
    /// The identity of a benchmark of the given group, function and input. Its title is the
    /// components joined by `/`; its directory name is the same with each component made safe
    /// for a file name.
    pub fn new(
        group_id: String,
        function_id: Option<String>,
        value_str: Option<String>,
        throughput: Option<Throughput>,
    ) -> (r: BenchmarkId)
        ensures
            r@ == new_id_view(group_id@, function_id.deep_view(), value_str.deep_view(), throughput),
    {
        let title = join_components(group_id.as_str(), opt_str(&function_id), opt_str(&value_str));
        let safe_group = make_filename_safe(group_id.as_str());
        let safe_function = match &function_id {
            Some(f) => Some(make_filename_safe(f.as_str())),
            None => None,
        };
        let safe_value = match &value_str {
            Some(v) => Some(make_filename_safe(v.as_str())),
            None => None,
        };
        let directory_name = join_components(
            safe_group.as_str(),
            opt_str(&safe_function),
            opt_str(&safe_value),
        );
        BenchmarkId { group_id, function_id, value_str, throughput, title, directory_name }
    }

    /// The identity of a benchmark as the benchmark announced it; of the throughputs it sent,
    /// the first is kept.
    pub fn from_raw(other: RawBenchmarkId) -> (r: BenchmarkId)
        ensures
            r@ == new_id_view(
                other.group_id@,
                other.function_id.deep_view(),
                other.value_str.deep_view(),
                if other.throughput@.len() > 0 { Some(other.throughput@[0]) } else { None },
            ),
    {
        let throughput = if other.throughput.len() > 0 { Some(other.throughput[0]) } else { None };
        BenchmarkId::new(other.group_id, other.function_id, other.value_str, throughput)
    }

    /// The group of this benchmark.
    pub fn group(&self) -> (r: &String)
        ensures
            r@ == self@.group_id,
    {
        &self.group_id
    }

    /// The function of this benchmark, if it names one.
    pub fn function(&self) -> (r: &Option<String>)
        ensures
            r.deep_view() == self@.function_id,
    {
        &self.function_id
    }

    /// The input value of this benchmark, if it names one.
    pub fn value(&self) -> (r: &Option<String>)
        ensures
            r.deep_view() == self@.value_str,
    {
        &self.value_str
    }

    /// The throughput of this benchmark, if it names one.
    pub fn throughput_of(&self) -> (r: Option<Throughput>)
        ensures
            r == self@.throughput,
    {
        self.throughput
    }

    /// A copy of this identity.
    pub fn duplicate(&self) -> (r: BenchmarkId)
        ensures
            r@ == self@,
    {
        let function_id = match &self.function_id {
            Some(f) => Some(f.clone()),
            None => None,
        };
        let value_str = match &self.value_str {
            Some(v) => Some(v.clone()),
            None => None,
        };
        BenchmarkId {
            group_id: self.group_id.clone(),
            function_id,
            value_str,
            throughput: self.throughput,
            title: self.title.clone(),
            directory_name: self.directory_name.clone(),
        }
    }

    /// The title shown for this benchmark.
    pub fn as_title(&self) -> (r: &str)
        ensures
            r@ == self@.title,
    {
        self.title.as_str()
    }

    /// The directory, relative to the output directory, that holds this benchmark's files.
    pub fn as_directory_name(&self) -> (r: &str)
        ensures
            r@ == self@.directory_name,
    {
        self.directory_name.as_str()
    }

    /// Renames the directory, if needed, so that it is none of `existing_directories`: it gets
    /// `_2`, `_3`, ... appended, the least number that is free.
    pub fn ensure_directory_name_unique(&mut self, existing_directories: &StringHashSet)
        requires
            existing_directories@.finite(),
        ensures
            uniquified(old(self)@.directory_name, "_"@, existing_directories@, final(self)@.directory_name),
            !existing_directories@.contains(final(self)@.directory_name),
            final(self)@ == (BenchmarkIdView { directory_name: final(self)@.directory_name, ..old(self)@ }),
    {
        proof {
            reveal_strlit("_");
        }
        let name = make_unique(&self.directory_name, "_", existing_directories);
        self.directory_name = name;
    }

    /// Renames the title, if needed, so that it is none of `existing_titles`: it gets ` #2`,
    /// ` #3`, ... appended, the least number that is free.
    pub fn ensure_title_unique(&mut self, existing_titles: &StringHashSet)
        requires
            existing_titles@.finite(),
        ensures
            uniquified(old(self)@.title, " #"@, existing_titles@, final(self)@.title),
            !existing_titles@.contains(final(self)@.title),
            final(self)@ == (BenchmarkIdView { title: final(self)@.title, ..old(self)@ }),
    {
        proof {
            reveal_strlit(" #");
        }
        let title = make_unique(&self.title, " #", existing_titles);
        self.title = title;
    }
}

/// Where reports are written, and how they are plotted.
#[derive(Debug)]
pub struct ReportContext {
    pub output_directory: String,
    pub plot_config: PlotConfiguration,
}

impl ReportContext {
    /// The path of a report file of a benchmark: the file, in the benchmark's directory, under
    /// the output directory.
    pub fn report_path(&self, id: &BenchmarkId, file_name: &str) -> (r: String)
        ensures
            r@ == joined(joined(self.output_directory@, id@.directory_name), file_name@),
    {
        let dir = join_path(self.output_directory.as_str(), id.as_directory_name());
        join_path(dir.as_str(), file_name)
    }
}

} // verus!
