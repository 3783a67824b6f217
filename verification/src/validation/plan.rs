//! Which files of a configuration directory are validated, against which
//! schema, and in which order: the main configuration, the split configuration
//! fragments, the workflow configurations, the job files and the command files.

use vstd::prelude::*;
use vstd::string::*;
use crate::strutil::{to_owned_string, strs_view, str_eq, ends_with, is_suffix};
use super::validator::Validator;

verus! {

broadcast use vstd::string::group_string_axioms;

/// An entry of a directory listing: its name, whether it is a file or a
/// directory, and (for a directory) its entries, or why they could not be read.
pub struct DirEntry {
    pub name: String,
    pub is_file: bool,
    pub is_dir: bool,
    pub contents: Vec<DirEntry>,
    pub read_error: Option<String>,
}

/// What a file is validated as.
#[derive(Clone, Copy, PartialEq, Eq, Structural)]
pub enum TaskKind {
    /// The main configuration.
    Config,
    /// A split configuration fragment.
    Fragment,
    /// The configuration of a workflow.
    WorkflowConfig,
    /// A job file.
    Job,
    /// A command file.
    Command,
    /// A directory that could not be read: validation stops there.
    ReadFailed,
}

/// One step of the validation: what to validate, at which path (its
/// components, relative to the configuration directory), and for a directory
/// that could not be read, why.
pub struct ValidationTask {
    pub kind: TaskKind,
    pub path: Vec<String>,
    pub error: Option<String>,
}

/// Why a configuration directory cannot be validated at all.
#[derive(Clone, Copy, PartialEq, Eq, Structural)]
pub enum LayoutError {
    Missing,
    NotDirectory,
    MissingConfig,
}

/// The text of a layout error for the directory displayed as `dir`.
pub open spec fn layout_error_message(e: LayoutError, dir: Seq<char>) -> Seq<char> {
    match e {
        LayoutError::Missing => "Configuration directory does not exist: "@ + dir,
        LayoutError::NotDirectory => "Configuration path must be a directory, not a file: "@ + dir,
        LayoutError::MissingConfig => "No config file found in "@ + dir
            + ": expected config.yml or .cigen/config.yml"@,
    }
}

impl LayoutError {
    /// The text of the error for the directory displayed as `dir`.
    pub fn message(&self, dir: &str) -> (r: String)
        ensures
            r@ == layout_error_message(*self, dir@),
    {
        match self {
            LayoutError::Missing => {
                let mut m = to_owned_string("Configuration directory does not exist: ");
                m.append(dir);
                m
            },
            LayoutError::NotDirectory => {
                let mut m = to_owned_string("Configuration path must be a directory, not a file: ");
                m.append(dir);
                m
            },
            LayoutError::MissingConfig => {
                let mut m = to_owned_string("No config file found in ");
                m.append(dir);
                m.append(": expected config.yml or .cigen/config.yml");
                m
            },
        }
    }
}

/// The view of a task: its kind, its path and its error.
pub open spec fn task_view(t: ValidationTask) -> (TaskKind, Seq<Seq<char>>, Option<Seq<char>>) {
    (t.kind, strs_view(t.path@), match t.error { Some(e) => Some(e@), None => None })
}

/// The views of a list of tasks.
pub open spec fn tasks_view(ts: Seq<ValidationTask>) -> Seq<(TaskKind, Seq<Seq<char>>, Option<Seq<char>>)> {
    ts.map_values(|t: ValidationTask| task_view(t))
}

/// Whether a file name has the extension `yml` or `yaml`.
pub open spec fn is_yaml_name(name: Seq<char>) -> bool {
    (is_suffix(".yml"@, name) && name.len() > 4) || (is_suffix(".yaml"@, name) && name.len() > 5)
}

/// Whether a file name has the extension `yml` or `yaml`.
pub fn is_yaml_file_name(name: &str) -> (r: bool)
    ensures
        r == is_yaml_name(name@),
{
    proof {
        reveal_strlit(".yml");
        reveal_strlit(".yaml");
    }
    let n = name.unicode_len();
    (ends_with(name, ".yml") && n > 4) || (ends_with(name, ".yaml") && n > 5)
}

/// The entry named `name`, if any (the first such).
pub open spec fn entry_named(entries: Seq<DirEntry>, name: Seq<char>) -> Option<DirEntry>
    decreases entries.len(),
{
    if entries.len() == 0 {
        None
    } else if entries[0].name@ == name {
        Some(entries[0])
    } else {
        entry_named(entries.subrange(1, entries.len() as int), name)
    }
}

/// A task with no error.
pub open spec fn plain_task(kind: TaskKind, path: Seq<Seq<char>>) -> (TaskKind, Seq<Seq<char>>, Option<Seq<char>>) {
    (kind, path, None)
}

/// The tasks for the YAML files directly in a directory (of the first `n` entries).
pub open spec fn yaml_file_tasks(kind: TaskKind, dir: Seq<char>, entries: Seq<DirEntry>, n: int) -> Seq<(TaskKind, Seq<Seq<char>>, Option<Seq<char>>)>
    decreases n,
{
    if n <= 0 || n > entries.len() {
        Seq::empty()
    } else {
        yaml_file_tasks(kind, dir, entries, n - 1) + if entries[n - 1].is_file && is_yaml_name(entries[n - 1].name@) {
            seq![plain_task(kind, seq![dir, entries[n - 1].name@])]
        } else {
            Seq::empty()
        }
    }
}

/// The tasks for a directory of YAML files, when it is a directory: a read
/// failure, or its YAML files.
pub open spec fn dir_tasks(kind: TaskKind, dir: Seq<char>, entry: Option<DirEntry>) -> Seq<(TaskKind, Seq<Seq<char>>, Option<Seq<char>>)> {
    match entry {
        Some(e) => if e.is_dir {
            match e.read_error {
                Some(m) => seq![(TaskKind::ReadFailed, seq![dir], Some(m@))],
                None => yaml_file_tasks(kind, dir, e.contents@, e.contents@.len() as int),
            }
        } else {
            Seq::empty()
        },
        None => Seq::empty(),
    }
}

/// The workflow configurations of the first `n` entries of the workflows directory.
pub open spec fn workflow_config_tasks(entries: Seq<DirEntry>, n: int) -> Seq<(TaskKind, Seq<Seq<char>>, Option<Seq<char>>)>
    decreases n,
{
    if n <= 0 || n > entries.len() {
        Seq::empty()
    } else {
        workflow_config_tasks(entries, n - 1) + if entries[n - 1].is_dir && entry_named(entries[n - 1].contents@, "config.yml"@) is Some {
            seq![plain_task(TaskKind::WorkflowConfig, seq!["workflows"@, entries[n - 1].name@, "config.yml"@])]
        } else {
            Seq::empty()
        }
    }
}

/// The job files under a directory at `path` (named `dir_name`), at any depth:
/// the YAML files whose directory is named `jobs`.
pub open spec fn job_tasks(path: Seq<Seq<char>>, dir_name: Seq<char>, entries: Seq<DirEntry>) -> Seq<(TaskKind, Seq<Seq<char>>, Option<Seq<char>>)>
    decreases entries,
{
    if entries.len() == 0 {
        Seq::empty()
    } else {
        let last = entries[entries.len() - 1];
        proof {
            assert(decreases_to!(entries => entries.subrange(0, entries.len() - 1)));
            assert(decreases_to!(entries => entries[entries.len() - 1]));
        }
        job_tasks(path, dir_name, entries.subrange(0, entries.len() - 1)) + entry_job_tasks(path, dir_name, last)
    }
}

/// The job files of one entry of a directory at `path` (named `dir_name`).
pub open spec fn entry_job_tasks(path: Seq<Seq<char>>, dir_name: Seq<char>, e: DirEntry) -> Seq<(TaskKind, Seq<Seq<char>>, Option<Seq<char>>)>
    decreases e,
{
    if e.is_dir {
        match e.read_error {
            Some(m) => seq![(TaskKind::ReadFailed, path.push(e.name@), Some(m@))],
            None => {
                proof {
                    assert(decreases_to!(e => e.contents));
                    assert(decreases_to!(e.contents => e.contents@));
                }
                job_tasks(path.push(e.name@), e.name@, e.contents@)
            },
        }
    } else if e.is_file && dir_name == "jobs"@ && is_yaml_name(e.name@) {
        seq![plain_task(TaskKind::Job, path.push(e.name@))]
    } else {
        Seq::empty()
    }
}

/// The tasks of the workflows directory, when it is a directory: its workflow
/// configurations, then its job files (or a read failure).
pub open spec fn workflows_tasks(entry: Option<DirEntry>) -> Seq<(TaskKind, Seq<Seq<char>>, Option<Seq<char>>)> {
    match entry {
        Some(e) => if e.is_dir {
            match e.read_error {
                Some(m) => seq![(TaskKind::ReadFailed, seq!["workflows"@], Some(m@))],
                None => workflow_config_tasks(e.contents@, e.contents@.len() as int)
                    + job_tasks(seq!["workflows"@], "workflows"@, e.contents@),
            }
        } else {
            Seq::empty()
        },
        None => Seq::empty(),
    }
}

/// The tasks of validating a configuration directory with these entries.
pub open spec fn all_tasks(entries: Seq<DirEntry>) -> Seq<(TaskKind, Seq<Seq<char>>, Option<Seq<char>>)> {
    seq![plain_task(TaskKind::Config, seq!["config.yml"@])]
        + dir_tasks(TaskKind::Fragment, "config"@, entry_named(entries, "config"@))
        + workflows_tasks(entry_named(entries, "workflows"@))
        + dir_tasks(TaskKind::Command, "commands"@, entry_named(entries, "commands"@))
}

/// Where the configuration is: the directory itself when it holds
/// `config.yml`, else its `.cigen` directory when that holds `config.yml`;
/// with the path that leads there and the entries found there.
pub open spec fn config_root(entries: Seq<DirEntry>) -> Option<(Seq<Seq<char>>, Seq<DirEntry>)> {
    if entry_named(entries, "config.yml"@) is Some {
        Some((Seq::empty(), entries))
    } else {
        match entry_named(entries, ".cigen"@) {
            Some(d) => if d.is_dir && d.read_error is None && entry_named(d.contents@, "config.yml"@) is Some {
                Some((seq![".cigen"@], d.contents@))
            } else {
                None
            },
            None => None,
        }
    }
}

/// Tasks with `prefix` put before each path.
pub open spec fn prefixed_tasks(prefix: Seq<Seq<char>>, ts: Seq<(TaskKind, Seq<Seq<char>>, Option<Seq<char>>)>) -> Seq<(TaskKind, Seq<Seq<char>>, Option<Seq<char>>)> {
    ts.map_values(|t: (TaskKind, Seq<Seq<char>>, Option<Seq<char>>)| (t.0, prefix + t.1, t.2))
}

/// Puts `dir` before the path of every task.
fn prefix_tasks(tasks: Vec<ValidationTask>, dir: &str) -> (r: Vec<ValidationTask>)
    ensures
        tasks_view(r@) == prefixed_tasks(seq![dir@], tasks_view(tasks@)),
{
    let mut out: Vec<ValidationTask> = Vec::new();
    let mut rest = tasks;
    let ghost orig = rest@;
    let n = rest.len();
    let mut i: usize = 0;
    // Take the tasks from the back, then put them in order.
    let mut rev: Vec<ValidationTask> = Vec::new();
    while i < n
        invariant
            n == orig.len(),
            i <= n,
            rest@ == orig.subrange(0, n - i),
            rev@.len() == i,
            forall|j: int| 0 <= j < i ==> task_view(#[trigger] rev@[j]) == (orig[n - 1 - j].kind, seq![dir@] + strs_view(orig[n - 1 - j].path@), task_view(orig[n - 1 - j]).2),
        decreases n - i,
    {
        let t = rest.pop().unwrap();
        proof { assert(t == orig[n - 1 - i]); }
        let mut path: Vec<String> = Vec::new();
        path.push(to_owned_string(dir));
        let m = t.path.len();
        let mut k: usize = 0;
        while k < m
            invariant
                m == t.path@.len(),
                k <= m,
                strs_view(path@) == seq![dir@] + strs_view(t.path@.subrange(0, k as int)),
            decreases m - k,
        {
            let ghost prev = strs_view(path@);
            path.push(to_owned_string(t.path[k].as_str()));
            assert(strs_view(t.path@.subrange(0, k + 1)) =~= strs_view(t.path@.subrange(0, k as int)).push(t.path@[k as int]@));
            assert(strs_view(path@) =~= prev.push(t.path@[k as int]@));
            k = k + 1;
        }
        assert(t.path@.subrange(0, m as int) =~= t.path@);
        let error = match &t.error { Some(e) => Some(to_owned_string(e.as_str())), None => None };
        rev.push(ValidationTask { kind: t.kind, path, error });
        i = i + 1;
    }
    let mut j: usize = n;
    while j > 0
        invariant
            j <= n,
            rev@.len() == j,
            n == orig.len(),
            out@.len() == n - j,
            forall|x: int| 0 <= x < j ==> task_view(#[trigger] rev@[x]) == (orig[n - 1 - x].kind, seq![dir@] + strs_view(orig[n - 1 - x].path@), task_view(orig[n - 1 - x]).2),
            forall|x: int| 0 <= x < n - j ==> task_view(#[trigger] out@[x]) == (orig[x].kind, seq![dir@] + strs_view(orig[x].path@), task_view(orig[x]).2),
        decreases j,
    {
        let t = rev.pop().unwrap();
        proof { assert(task_view(t) == (orig[n - j].kind, seq![dir@] + strs_view(orig[n - j].path@), task_view(orig[n - j]).2)); }
        out.push(t);
        j = j - 1;
    }
    assert(tasks_view(out@) =~= prefixed_tasks(seq![dir@], tasks_view(orig)));
    out
}

/// Finds the entry named `name`.
fn find_dir_entry<'a>(entries: &'a Vec<DirEntry>, name: &str) -> (r: Option<&'a DirEntry>)
    ensures
        match r {
            Some(e) => entry_named(entries@, name@) == Some(*e),
            None => entry_named(entries@, name@) is None,
        },
{
    let n = entries.len();
    let mut i: usize = 0;
    assert(entries@.subrange(0, n as int) =~= entries@);
    while i < n
        invariant
            n == entries@.len(),
            i <= n,
            entry_named(entries@, name@) == entry_named(entries@.subrange(i as int, n as int), name@),
        decreases n - i,
    {
        let ghost rest = entries@.subrange(i as int, n as int);
        assert(rest.subrange(1, rest.len() as int) =~= entries@.subrange(i + 1, n as int));
        if str_eq(entries[i].name.as_str(), name) {
            return Some(&entries[i]);
        }
        i = i + 1;
    }
    None
}

/// A path of components.
fn path_of(items: &[&str]) -> (r: Vec<String>)
    ensures
        strs_view(r@) == items@.map_values(|s: &str| s@),
{
    let mut out: Vec<String> = Vec::new();
    let n = items.len();
    let mut i: usize = 0;
    while i < n
        invariant
            n == items@.len(),
            i <= n,
            strs_view(out@) == items@.take(i as int).map_values(|s: &str| s@),
        decreases n - i,
    {
        let ghost prev = strs_view(out@);
        let x = to_owned_string(items[i]);
        let ghost xv = x@;
        out.push(x);
        assert(strs_view(out@) =~= prev.push(xv));
        assert(items@.take(i + 1).map_values(|s: &str| s@) =~= items@.take(i as int).map_values(|s: &str| s@).push(items@[i as int]@));
        assert(strs_view(out@) =~= items@.take(i + 1).map_values(|s: &str| s@));
        i = i + 1;
    }
    assert(items@.take(n as int) =~= items@);
    out
}

/// Appends a task.
fn push_task(tasks: &mut Vec<ValidationTask>, kind: TaskKind, path: Vec<String>, error: Option<String>)
    ensures
        tasks_view(final(tasks)@) == tasks_view(old(tasks)@).push((kind, strs_view(path@), match error { Some(e) => Some(e@), None => None })),
{
    let ghost before = tasks@;
    tasks.push(ValidationTask { kind, path, error });
    assert(tasks_view(tasks@) =~= tasks_view(before).push(task_view(tasks@[before.len() as int])));
}

/// Appends the tasks for the YAML files directly in a directory.
fn push_dir_tasks(tasks: &mut Vec<ValidationTask>, kind: TaskKind, dir: &str, entry: Option<&DirEntry>)
    ensures
        tasks_view(final(tasks)@) == tasks_view(old(tasks)@) + dir_tasks(kind, dir@, match entry { Some(e) => Some(*e), None => None }),
{
    let ghost start = tasks_view(tasks@);
    let e = match entry {
        Some(e) => e,
        None => {
            assert(tasks_view(tasks@) =~= start + Seq::empty());
            return;
        },
    };
    if !e.is_dir {
        assert(tasks_view(tasks@) =~= start + Seq::empty());
        return;
    }
    match &e.read_error {
        Some(m) => {
            let arr = [dir];
            push_task(tasks, TaskKind::ReadFailed, path_of(&arr), Some(to_owned_string(m.as_str())));
            assert(arr@.map_values(|s: &str| s@) =~= seq![dir@]);
            assert(tasks_view(tasks@) =~= start + dir_tasks(kind, dir@, Some(*e)));
        },
        None => {
            let entries = &e.contents;
            let n = entries.len();
            let mut i: usize = 0;
            while i < n
                invariant
                    n == entries@.len(),
                    i <= n,
                    tasks_view(tasks@) == start + yaml_file_tasks(kind, dir@, entries@, i as int),
                decreases n - i,
            {
                if entries[i].is_file && is_yaml_file_name(entries[i].name.as_str()) {
                    let arr = [dir, entries[i].name.as_str()];
                    let ghost before = tasks_view(tasks@);
                    push_task(tasks, kind, path_of(&arr), None);
                    assert(arr@.map_values(|s: &str| s@) =~= seq![dir@, entries@[i as int].name@]);
                    assert(tasks_view(tasks@) =~= start + yaml_file_tasks(kind, dir@, entries@, i + 1));
                } else {
                    assert(tasks_view(tasks@) =~= start + yaml_file_tasks(kind, dir@, entries@, i + 1));
                }
                i = i + 1;
            }
        },
    }
}

/// Appends the job tasks under a directory at `path` named `dir_name`.
fn push_job_tasks(tasks: &mut Vec<ValidationTask>, path: &Vec<String>, dir_name: &str, entries: &Vec<DirEntry>)
    ensures
        tasks_view(final(tasks)@) == tasks_view(old(tasks)@) + job_tasks(strs_view(path@), dir_name@, entries@),
    decreases entries@,
{
    let ghost start = tasks_view(tasks@);
    let n = entries.len();
    let mut i: usize = 0;
    assert(entries@.subrange(0, 0) =~= Seq::<DirEntry>::empty());
    while i < n
        invariant
            n == entries@.len(),
            i <= n,
            tasks_view(tasks@) == start + job_tasks(strs_view(path@), dir_name@, entries@.subrange(0, i as int)),
        decreases n - i,
    {
        let e = &entries[i];
        let ghost before = tasks_view(tasks@);
        let mut child = crate::strutil::copy_strings(path);
        child.push(to_owned_string(e.name.as_str()));
        assert(strs_view(child@) =~= strs_view(path@).push(e.name@));
        if e.is_dir {
            match &e.read_error {
                Some(m) => {
                    push_task(tasks, TaskKind::ReadFailed, child, Some(to_owned_string(m.as_str())));
                },
                None => {
                    proof {
                        assert(decreases_to!(entries@ => entries@[i as int]));
                        assert(decreases_to!(entries@[i as int] => entries@[i as int].contents));
                        assert(decreases_to!(entries@[i as int].contents => entries@[i as int].contents@));
                    }
                    push_job_tasks(tasks, &child, e.name.as_str(), &e.contents);
                },
            }
        } else if e.is_file && str_eq(dir_name, "jobs") && is_yaml_file_name(e.name.as_str()) {
            push_task(tasks, TaskKind::Job, child, None);
        }
        proof {
            let sub = entries@.subrange(0, i + 1);
            assert(sub.subrange(0, sub.len() - 1) =~= entries@.subrange(0, i as int));
            assert(sub[sub.len() - 1] == entries@[i as int]);
            assert(tasks_view(tasks@) == before + entry_job_tasks(strs_view(path@), dir_name@, entries@[i as int]));
            assert(tasks_view(tasks@) =~= start + job_tasks(strs_view(path@), dir_name@, sub));
        }
        i = i + 1;
    }
    assert(entries@.subrange(0, n as int) =~= entries@);
}

/// Appends the tasks of the workflows directory.
fn push_workflows_tasks(tasks: &mut Vec<ValidationTask>, entry: Option<&DirEntry>)
    ensures
        tasks_view(final(tasks)@) == tasks_view(old(tasks)@) + workflows_tasks(match entry { Some(e) => Some(*e), None => None }),
{
    let ghost start = tasks_view(tasks@);
    let e = match entry {
        Some(e) => e,
        None => {
            assert(tasks_view(tasks@) =~= start + Seq::empty());
            return;
        },
    };
    if !e.is_dir {
        assert(tasks_view(tasks@) =~= start + Seq::empty());
        return;
    }
    match &e.read_error {
        Some(m) => {
            let arr = ["workflows"];
            push_task(tasks, TaskKind::ReadFailed, path_of(&arr), Some(to_owned_string(m.as_str())));
            assert(arr@.map_values(|s: &str| s@) =~= seq!["workflows"@]);
            assert(tasks_view(tasks@) =~= start + workflows_tasks(Some(*e)));
        },
        None => {
            let entries = &e.contents;
            let n = entries.len();
            let mut i: usize = 0;
            while i < n
                invariant
                    n == entries@.len(),
                    i <= n,
                    tasks_view(tasks@) == start + workflow_config_tasks(entries@, i as int),
                decreases n - i,
            {
                if entries[i].is_dir && find_dir_entry(&entries[i].contents, "config.yml").is_some() {
                    let arr = ["workflows", entries[i].name.as_str(), "config.yml"];
                    push_task(tasks, TaskKind::WorkflowConfig, path_of(&arr), None);
                    assert(arr@.map_values(|s: &str| s@) =~= seq!["workflows"@, entries@[i as int].name@, "config.yml"@]);
                }
                assert(tasks_view(tasks@) =~= start + workflow_config_tasks(entries@, i + 1));
                i = i + 1;
            }
            let ghost mid = tasks_view(tasks@);
            let arr = ["workflows"];
            let root = path_of(&arr);
            assert(arr@.map_values(|s: &str| s@) =~= seq!["workflows"@]);
            push_job_tasks(tasks, &root, "workflows", entries);
            assert(tasks_view(tasks@) =~= start + workflows_tasks(Some(*e)));
        },
    }
}

impl Validator {
    /// The validation of a configuration directory, given whether it exists,
    /// whether it is a directory, and its entries: the layout error, or the
    /// files to validate in order, with their paths from the directory. The
    /// main configuration is required, in the directory itself or else in its
    /// `.cigen` directory (whose files are then the ones validated); the
    /// `config`, `workflows` and `commands` directories are optional.
    pub fn validate_all(&self, exists: bool, is_dir: bool, entries: &Vec<DirEntry>) -> (r: Result<Vec<ValidationTask>, LayoutError>)
        ensures
            match r {
                Err(e) => e == (if !exists { LayoutError::Missing } else if !is_dir { LayoutError::NotDirectory } else { LayoutError::MissingConfig })
                    && (exists && is_dir ==> config_root(entries@) is None),
                Ok(tasks) => {
                    &&& exists
                    &&& is_dir
                    &&& config_root(entries@) matches Some((prefix, root))
                    &&& tasks_view(tasks@) == prefixed_tasks(prefix, all_tasks(root))
                },
            },
    {
        if !exists {
            return Err(LayoutError::Missing);
        }
        if !is_dir {
            return Err(LayoutError::NotDirectory);
        }
        proof {
            reveal_strlit(".cigen");
        }
        if find_dir_entry(entries, "config.yml").is_some() {
            let tasks = Self::plan_tasks(entries);
            assert(prefixed_tasks(Seq::empty(), all_tasks(entries@)) =~= all_tasks(entries@)) by {
                assert forall|i: int| 0 <= i < all_tasks(entries@).len() implies
                    #[trigger] prefixed_tasks(Seq::empty(), all_tasks(entries@))[i] == all_tasks(entries@)[i] by {
                    let t = all_tasks(entries@)[i];
                    assert(Seq::<Seq<char>>::empty() + t.1 =~= t.1);
                }
            }
            return Ok(tasks);
        }
        match find_dir_entry(entries, ".cigen") {
            Some(d) => {
                if d.is_dir && d.read_error.is_none() && find_dir_entry(&d.contents, "config.yml").is_some() {
                    let tasks = Self::plan_tasks(&d.contents);
                    let prefixed = prefix_tasks(tasks, ".cigen");
                    Ok(prefixed)
                } else {
                    Err(LayoutError::MissingConfig)
                }
            },
            None => Err(LayoutError::MissingConfig),
        }
    }

    /// The tasks of a configuration directory that holds `config.yml`.
    fn plan_tasks(entries: &Vec<DirEntry>) -> (tasks: Vec<ValidationTask>)
        ensures
            tasks_view(tasks@) == all_tasks(entries@),
    {
        let mut tasks: Vec<ValidationTask> = Vec::new();
        assert(tasks_view(tasks@) =~= Seq::empty());
        let arr = ["config.yml"];
        push_task(&mut tasks, TaskKind::Config, path_of(&arr), None);
        assert(arr@.map_values(|s: &str| s@) =~= seq!["config.yml"@]);
        push_dir_tasks(&mut tasks, TaskKind::Fragment, "config", find_dir_entry(entries, "config"));
        push_workflows_tasks(&mut tasks, find_dir_entry(entries, "workflows"));
        push_dir_tasks(&mut tasks, TaskKind::Command, "commands", find_dir_entry(entries, "commands"));
        assert(tasks_view(tasks@) =~= all_tasks(entries@));
        tasks
    }
}

} // verus!
